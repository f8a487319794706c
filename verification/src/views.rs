//! Presentation rules shared by the screens: scroll clamping, the colours
//! given to statuses and priorities, and the keybinding table of the help
//! overlay. Drawing itself is done by the program around the library.

use crate::amp::state::SessionRunStatus;
use crate::text::{chars_of, chars_equal};
use vstd::prelude::*;

verus! {

/// Scroll offset that follows the bottom of the content.
pub const FOLLOW_BOTTOM: u16 = 0xffff;

/// The scroll offset to draw with: the follow-bottom sentinel maps to the
/// maximum, any other offset is capped at the maximum.
pub fn clamp_scroll(scroll: u16, max_scroll: u16) -> (r: u16)
    ensures
        r == (if scroll == FOLLOW_BOTTOM {
            max_scroll
        } else if scroll < max_scroll {
            scroll
        } else {
            max_scroll
        }),
{
    if scroll == FOLLOW_BOTTOM {
        max_scroll
    } else if scroll < max_scroll {
        scroll
    } else {
        max_scroll
    }
}

/// The first row a picker list shows: the whole list when it fits, else a
/// window of `visible_rows` that keeps the selection in the middle where it
/// can, pinned to the top or the bottom near the ends.
pub open spec fn picker_start(total: int, selected_pos: int, visible_rows: int) -> int {
    if total <= visible_rows {
        0
    } else if selected_pos < visible_rows / 2 {
        0
    } else if selected_pos >= total - visible_rows / 2 {
        total - visible_rows
    } else {
        selected_pos - visible_rows / 2
    }
}

/// The rows `[start, end)` of a picker list of `total` entries shown in
/// `visible_rows` rows with the entry at `selected_pos` selected.
pub fn picker_window(total: usize, selected_pos: usize, visible_rows: usize) -> (r: (usize, usize))
    ensures
        r.0 == picker_start(total as int, selected_pos as int, visible_rows as int),
        r.1 == if r.0 + visible_rows < total {
            r.0 + visible_rows
        } else {
            total as int
        },
{
    let start = if total <= visible_rows {
        0
    } else if selected_pos < visible_rows / 2 {
        0
    } else if selected_pos >= total - visible_rows / 2 {
        total - visible_rows
    } else {
        selected_pos - visible_rows / 2
    };
    let end = if start + visible_rows < total {
        start + visible_rows
    } else {
        total
    };
    (start, end)
}

/// The largest scroll offset of `line_count` lines drawn in a bordered box
/// `height` rows tall: the lines (counted up to `u16::MAX`) that do not fit
/// in the rows inside the border, none when they all fit.
pub open spec fn scroll_limit_of(line_count: int, height: int) -> int {
    let inner = if height >= 2 { height - 2 } else { 0 };
    let total = if line_count < 0xffff { line_count } else { 0xffff };
    if total > inner { total - inner } else { 0 }
}

/// The largest scroll offset of `line_count` lines in a bordered box of
/// `height` rows.
pub fn scroll_limit(line_count: usize, height: u16) -> (r: u16)
    ensures
        r == scroll_limit_of(line_count as int, height as int),
{
    let inner: u16 = if height >= 2 { height - 2 } else { 0 };
    let total: u16 = if line_count < 0xffff { line_count as u16 } else { 0xffff };
    if total > inner { total - inner } else { 0 }
}

/// Foreground colours used by the screens.
#[derive(Debug, Clone, Copy, PartialEq, Eq, Structural)]
pub enum Tint {
    Yellow,
    Cyan,
    Green,
    DarkGray,
    Magenta,
    Red,
}

/// A text style: an optional foreground colour and whether it is bold.
#[derive(Debug, Clone, Copy, PartialEq, Eq, Structural)]
pub struct TextStyle {
    pub fg: Option<Tint>,
    pub bold: bool,
}

/// The colour of an issue workflow state.
pub open spec fn status_tint_of(status: Seq<char>) -> Option<Tint> {
    if status == "In Progress"@ {
        Some(Tint::Yellow)
    } else if status == "Todo"@ {
        Some(Tint::Cyan)
    } else if status == "Done"@ {
        Some(Tint::Green)
    } else if status == "Canceled"@ || status == "Cancelled"@ {
        Some(Tint::DarkGray)
    } else if status == "In Review"@ {
        Some(Tint::Magenta)
    } else if status == "Backlog"@ || status == "Triage"@ {
        Some(Tint::DarkGray)
    } else {
        None
    }
}

fn is(v: &Vec<char>, lit: &str) -> (r: bool)
    ensures
        r == (v@ == lit@),
{
    let l = chars_of(lit);
    chars_equal(v.as_slice(), l.as_slice())
}

/// Style of an issue workflow state.
pub fn status_style(status: &str) -> (r: TextStyle)
    ensures
        r == (TextStyle { fg: status_tint_of(status@), bold: false }),
{
    let s = chars_of(status);
    let fg = if is(&s, "In Progress") {
        Some(Tint::Yellow)
    } else if is(&s, "Todo") {
        Some(Tint::Cyan)
    } else if is(&s, "Done") {
        Some(Tint::Green)
    } else if is(&s, "Canceled") || is(&s, "Cancelled") {
        Some(Tint::DarkGray)
    } else if is(&s, "In Review") {
        Some(Tint::Magenta)
    } else if is(&s, "Backlog") || is(&s, "Triage") {
        Some(Tint::DarkGray)
    } else {
        None
    };
    TextStyle { fg, bold: false }
}

/// The style of a priority label.
pub open spec fn priority_style_of(priority: Seq<char>) -> TextStyle {
    if priority == "Urgent"@ {
        TextStyle { fg: Some(Tint::Red), bold: true }
    } else if priority == "High"@ {
        TextStyle { fg: Some(Tint::Red), bold: false }
    } else if priority == "Medium"@ {
        TextStyle { fg: Some(Tint::Yellow), bold: false }
    } else if priority == "Low"@ {
        TextStyle { fg: Some(Tint::DarkGray), bold: false }
    } else {
        TextStyle { fg: None, bold: false }
    }
}

/// Style of a priority label.
pub fn priority_style(priority: &str) -> (r: TextStyle)
    ensures
        r == priority_style_of(priority@),
{
    let p = chars_of(priority);
    if is(&p, "Urgent") {
        TextStyle { fg: Some(Tint::Red), bold: true }
    } else if is(&p, "High") {
        TextStyle { fg: Some(Tint::Red), bold: false }
    } else if is(&p, "Medium") {
        TextStyle { fg: Some(Tint::Yellow), bold: false }
    } else if is(&p, "Low") {
        TextStyle { fg: Some(Tint::DarkGray), bold: false }
    } else {
        TextStyle { fg: None, bold: false }
    }
}

/// The colour of a session run's lifecycle state.
pub open spec fn run_status_tint(status: SessionRunStatus) -> Tint {
    match status {
        SessionRunStatus::Running => Tint::Green,
        SessionRunStatus::Pending => Tint::Yellow,
        SessionRunStatus::Failed => Tint::Red,
        SessionRunStatus::Stale => Tint::DarkGray,
        SessionRunStatus::Completed => Tint::Cyan,
    }
}

/// Style of a session run's lifecycle state.
pub fn run_status_style(status: SessionRunStatus) -> (r: TextStyle)
    ensures
        r == (TextStyle { fg: Some(run_status_tint(status)), bold: false }),
{
    let fg = match status {
        SessionRunStatus::Running => Tint::Green,
        SessionRunStatus::Pending => Tint::Yellow,
        SessionRunStatus::Failed => Tint::Red,
        SessionRunStatus::Stale => Tint::DarkGray,
        SessionRunStatus::Completed => Tint::Cyan,
    };
    TextStyle { fg: Some(fg), bold: false }
}

/// The colour of a project state.
pub open spec fn project_status_tint_of(status: Seq<char>) -> Option<Tint> {
    if status == "planned"@ {
        Some(Tint::Cyan)
    } else if status == "started"@ || status == "backlog"@ {
        Some(Tint::Yellow)
    } else if status == "paused"@ {
        Some(Tint::DarkGray)
    } else if status == "completed"@ {
        Some(Tint::Green)
    } else if status == "canceled"@ || status == "cancelled"@ {
        Some(Tint::DarkGray)
    } else {
        None
    }
}

/// Style of a project state.
pub fn project_status_style(status: &str) -> (r: TextStyle)
    ensures
        r == (TextStyle { fg: project_status_tint_of(status@), bold: false }),
{
    let s = chars_of(status);
    let fg = if is(&s, "planned") {
        Some(Tint::Cyan)
    } else if is(&s, "started") || is(&s, "backlog") {
        Some(Tint::Yellow)
    } else if is(&s, "paused") {
        Some(Tint::DarkGray)
    } else if is(&s, "completed") {
        Some(Tint::Green)
    } else if is(&s, "canceled") || is(&s, "cancelled") {
        Some(Tint::DarkGray)
    } else {
        None
    };
    TextStyle { fg, bold: false }
}

/// The keybindings shown in the help overlay, as (key, description).
pub open spec fn keybinding_table() -> Seq<(Seq<char>, Seq<char>)> {
    seq![
        ("?"@, "Toggle this help"@),
        ("q"@, "Quit (press twice)"@),
        ("Ctrl+c"@, "Quit immediately"@),
        ("j / ↓"@, "Move down / scroll down"@),
        ("k / ↑"@, "Move up / scroll up"@),
        ("g"@, "Go to top"@),
        ("G"@, "Go to bottom"@),
        ("Enter"@, "Select / confirm"@),
        ("l"@, "Open selected thread's latest run log (detail threads)"@),
        ("x"@, "Mark selected thread's latest run stale (detail threads)"@),
        ("Esc"@, "Back / dismiss"@),
        ("/"@, "Search"@),
        ("s"@, "Sort by column"@),
        ("f"@, "Filter by column"@),
        ("r"@, "Refresh"@),
        ("o"@, "Open in Linear / GitHub"@),
        ("Tab"@, "Switch section (detail)"@),
        ("a"@, "New Amp thread (detail)"@),
        ("p"@, "Projects"@),
        ("m"@, "Change issue state"@),
    ]
}

/// All keybindings shown in the help overlay, as (key, description).
pub fn keybindings() -> (r: Vec<(&'static str, &'static str)>)
    ensures
        r@.map_values(|p: (&'static str, &'static str)| (p.0@, p.1@)) =~= keybinding_table(),
{
    let r = vec![
        ("?", "Toggle this help"),
        ("q", "Quit (press twice)"),
        ("Ctrl+c", "Quit immediately"),
        ("j / ↓", "Move down / scroll down"),
        ("k / ↑", "Move up / scroll up"),
        ("g", "Go to top"),
        ("G", "Go to bottom"),
        ("Enter", "Select / confirm"),
        ("l", "Open selected thread's latest run log (detail threads)"),
        ("x", "Mark selected thread's latest run stale (detail threads)"),
        ("Esc", "Back / dismiss"),
        ("/", "Search"),
        ("s", "Sort by column"),
        ("f", "Filter by column"),
        ("r", "Refresh"),
        ("o", "Open in Linear / GitHub"),
        ("Tab", "Switch section (detail)"),
        ("a", "New Amp thread (detail)"),
        ("p", "Projects"),
        ("m", "Change issue state"),
    ];
    r
}

} // verus!
