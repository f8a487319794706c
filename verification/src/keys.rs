//! Key bindings of the list screens: which key press means which action.

use vstd::prelude::*;

verus! {

/// What a key press asks for.
#[derive(Debug, Clone, Copy, PartialEq, Eq, Structural)]
pub enum Action {
    Quit,
    MoveDown,
    MoveUp,
    Top,
    Bottom,
    Select,
    Back,
    Help,
    Search,
    Refresh,
    OrderBy,
    FilterBy,
    OpenIn,
    Tab,
    NewThread,
    Projects,
    ChangeState,
    OpenRunLog,
    MarkRunStale,
}

/// The key of a key press.
#[derive(Debug, Clone, Copy, PartialEq, Eq, Structural)]
pub enum Key {
    Char(char),
    Up,
    Down,
    Enter,
    Esc,
    Tab,
    BackTab,
    Backspace,
    Left,
    Right,
    /// Any other key.
    Other,
}

/// The modifier set with no modifier held.
pub const NO_MODIFIERS: u8 = 0;
/// The Shift modifier bit.
pub const SHIFT: u8 = 1;
/// The Control modifier bit.
pub const CONTROL: u8 = 2;
/// The Alt modifier bit.
pub const ALT: u8 = 4;

/// A key press: the key and the set of modifiers held, one bit each
/// (Shift 1, Control 2, Alt 4, Super 8, Hyper 16, Meta 32).
#[derive(Debug, Clone, Copy, PartialEq, Eq, Structural)]
pub struct KeyPress {
    pub key: Key,
    pub modifiers: u8,
}

/// The action bound to a key press: Control+c and `q` quit, `j`/Down and
/// `k`/Up move, `g` goes to the top and Shift+`G` (Shift alone) to the
/// bottom, Enter selects, Esc goes back, `?` shows help and `/` searches;
/// `r` refreshes, `s` sorts, `f` filters, `o` opens in the browser, Tab
/// switches section, `a` starts a thread, `p` shows projects, `m` changes
/// the workflow state, `l` opens the latest run log and `x` marks the latest
/// run stale.
pub open spec fn action_for(press: KeyPress) -> Option<Action> {
    match press.key {
        Key::Char(c) => if press.modifiers == CONTROL && c == 'c' {
            Some(Action::Quit)
        } else if c == 'q' {
            Some(Action::Quit)
        } else if c == 'j' {
            Some(Action::MoveDown)
        } else if c == 'k' {
            Some(Action::MoveUp)
        } else if c == 'g' {
            Some(Action::Top)
        } else if press.modifiers == SHIFT && c == 'G' {
            Some(Action::Bottom)
        } else if c == '?' {
            Some(Action::Help)
        } else if c == '/' {
            Some(Action::Search)
        } else if c == 'r' {
            Some(Action::Refresh)
        } else if c == 's' {
            Some(Action::OrderBy)
        } else if c == 'f' {
            Some(Action::FilterBy)
        } else if c == 'o' {
            Some(Action::OpenIn)
        } else if c == 'a' {
            Some(Action::NewThread)
        } else if c == 'p' {
            Some(Action::Projects)
        } else if c == 'm' {
            Some(Action::ChangeState)
        } else if c == 'l' {
            Some(Action::OpenRunLog)
        } else if c == 'x' {
            Some(Action::MarkRunStale)
        } else {
            None
        },
        Key::Down => Some(Action::MoveDown),
        Key::Up => Some(Action::MoveUp),
        Key::Enter => Some(Action::Select),
        Key::Esc => Some(Action::Back),
        Key::Tab => Some(Action::Tab),
        Key::BackTab | Key::Backspace | Key::Left | Key::Right | Key::Other => None,
    }
}

/// The action bound to `press`, if any.
pub fn map_key(press: KeyPress) -> (r: Option<Action>)
    ensures
        r == action_for(press),
{
    match press.key {
        Key::Char(c) => {
            if press.modifiers == CONTROL && c == 'c' {
                Some(Action::Quit)
            } else if c == 'q' {
                Some(Action::Quit)
            } else if c == 'j' {
                Some(Action::MoveDown)
            } else if c == 'k' {
                Some(Action::MoveUp)
            } else if c == 'g' {
                Some(Action::Top)
            } else if press.modifiers == SHIFT && c == 'G' {
                Some(Action::Bottom)
            } else if c == '?' {
                Some(Action::Help)
            } else if c == '/' {
                Some(Action::Search)
            } else if c == 'r' {
                Some(Action::Refresh)
            } else if c == 's' {
                Some(Action::OrderBy)
            } else if c == 'f' {
                Some(Action::FilterBy)
            } else if c == 'o' {
                Some(Action::OpenIn)
            } else if c == 'a' {
                Some(Action::NewThread)
            } else if c == 'p' {
                Some(Action::Projects)
            } else if c == 'm' {
                Some(Action::ChangeState)
            } else if c == 'l' {
                Some(Action::OpenRunLog)
            } else if c == 'x' {
                Some(Action::MarkRunStale)
            } else {
                None
            }
        },
        Key::Down => Some(Action::MoveDown),
        Key::Up => Some(Action::MoveUp),
        Key::Enter => Some(Action::Select),
        Key::Esc => Some(Action::Back),
        Key::Tab => Some(Action::Tab),
        Key::BackTab | Key::Backspace | Key::Left | Key::Right | Key::Other => None,
    }
}

} // verus!
