//! What a key press does: the app's input mode decides how a key is read,
//! and each mode maps keys to one command. The event loop carries the
//! command out, through the app's methods and any outside work it needs.

use super::{DetailSection, ProjectSortColumn, SortColumn, View};
use crate::keys::{action_for, map_key, Action, Key, KeyPress, ALT};
use vstd::prelude::*;

verus! {

/// How the app reads the next key press, from the overlay or prompt on top
/// down to the plain list and detail screens.
#[derive(Debug, Clone, Copy, PartialEq, Eq, Structural)]
pub enum InputMode {
    /// The help overlay is open.
    Help,
    /// An error message is shown.
    Error,
    /// A message to the selected thread is being typed.
    MessageEntry,
    /// A workspace path is being typed in the workspace picker.
    PathEntry,
    /// The workspace picker lists workspaces.
    WorkspaceList,
    /// `q` was pressed once; a second `q` quits.
    QuitPending,
    /// `o` was pressed; the next key says what to open.
    OpenPending,
    /// The workflow-state picker is open.
    StatePicker,
    /// `s` was pressed on the issue list; the next key names the column.
    SortPending,
    /// `s` was pressed on the project list; the next key names the column.
    ProjectSortPending,
    /// `f` was pressed; the next key names the column to filter.
    FilterPending,
    /// A search is being typed.
    SearchEntry,
    /// A filter is being typed.
    FilterEntry,
    /// A screen reads plain key bindings. `has_search` tells whether a search
    /// is applied, `thread_has_output` whether the selected thread has
    /// session output to show.
    Browse { view: View, section: DetailSection, has_search: bool, thread_has_output: bool },
}

/// One reaction to a key press.
#[derive(Debug, Clone, Copy, PartialEq, Eq, Structural)]
pub enum Command {
    Nothing,
    DismissHelp,
    ToggleHelp,
    DismissError,
    /// Dismiss the error and refresh everything.
    RetryAfterError,
    /// Stop the program.
    Exit,
    /// Arm the quit prompt.
    ArmQuit,
    /// Quit from the quit prompt.
    ConfirmQuit,
    /// Leave the quit prompt.
    DisarmQuit,
    SubmitMessage,
    CancelMessage,
    PushMessageChar(char),
    PopMessageChar,
    ConfirmTypedPath,
    CancelPathEntry,
    CompletePath,
    DeletePathComponent,
    PushPathChar(char),
    PopPathChar,
    PickerDown,
    PickerUp,
    PickWorkspace,
    ClosePicker,
    StartPathEntry,
    /// Arm the open prompt.
    ArmOpen,
    /// Open the selected issue's page (and leave the open prompt).
    OpenIssueLink,
    /// Open the selected issue's pull request (and leave the open prompt).
    OpenPullRequest,
    /// Leave the open prompt.
    CancelOpen,
    ApplyStateChange,
    CancelStateChange,
    StateDown,
    StateUp,
    StartStateChange,
    ArmSort,
    /// Sort the issues by a column (and leave the sort prompt).
    SortBy(SortColumn),
    /// Sort the projects by a column (and leave the sort prompt).
    SortProjectsBy(ProjectSortColumn),
    /// Leave the sort prompt.
    CancelSort,
    ArmFilter,
    /// Start typing a filter on a column (and leave the filter prompt).
    FilterOn(SortColumn),
    /// Leave the filter prompt.
    CancelFilterPrompt,
    StartSearch,
    ApplySearch,
    CancelSearch,
    PushSearchChar(char),
    PopSearchChar,
    ClearSearch,
    ApplyFilter,
    CancelFilter,
    PushFilterChar(char),
    PopFilterChar,
    ClearFilter,
    IssueDown,
    IssueUp,
    IssueTop,
    IssueBottom,
    /// Open the selected issue and load its threads.
    OpenIssue,
    /// Show the project list and load the projects.
    ShowProjects,
    /// Reconcile background runs and refresh all data.
    RefreshAll,
    ProjectDown,
    ProjectUp,
    ProjectTop,
    ProjectBottom,
    /// Open the selected project and load its issues.
    OpenProject,
    ShowMyIssues,
    RefreshProjects,
    OpenProjectLink,
    ProjectIssueDown,
    ProjectIssueUp,
    ProjectIssueTop,
    ProjectIssueBottom,
    /// Open the selected project issue and load its threads.
    OpenProjectIssue,
    LeaveProject,
    ReloadProjectIssues,
    DetailDown,
    DetailUp,
    DetailTop,
    BackToList,
    FocusThreads,
    FocusBody,
    FocusOutput,
    ThreadDown,
    ThreadUp,
    OpenWorkspacePicker,
    /// Reopen the selected thread in a terminal window.
    LaunchThread,
    OpenRunLog,
    MarkRunStale,
    /// Back from the output to the threads, scrolled to the top.
    OutputBack,
    OutputDown,
    OutputUp,
    OutputTop,
    OutputBottom,
    StartMessage,
}

/// Whether `press` is the plain character `c` (any modifiers).
pub open spec fn is_char(press: KeyPress, c: char) -> bool {
    press.key == Key::Char(c)
}

/// Keys of a text prompt: Enter submits, Esc cancels, Backspace deletes the
/// last character and a character key types itself.
pub open spec fn text_entry_command(
    press: KeyPress,
    submit: Command,
    cancel: Command,
    pop: Command,
    push: spec_fn(char) -> Command,
) -> Command {
    match press.key {
        Key::Enter => submit,
        Key::Esc => cancel,
        Key::Backspace => pop,
        Key::Char(c) => push(c),
        _ => Command::Nothing,
    }
}

/// The issue column a sort or filter prompt names: `i`dentifier, `t`itle,
/// `p`roject, `s`tatus, p`r`iority.
pub open spec fn issue_column(press: KeyPress) -> Option<SortColumn> {
    if is_char(press, 'i') {
        Some(SortColumn::Identifier)
    } else if is_char(press, 't') {
        Some(SortColumn::Title)
    } else if is_char(press, 'p') {
        Some(SortColumn::Project)
    } else if is_char(press, 's') {
        Some(SortColumn::Status)
    } else if is_char(press, 'r') {
        Some(SortColumn::Priority)
    } else {
        None
    }
}

/// The project column a sort prompt names: `n`ame, `s`tatus, `l`ead,
/// `p`rogress.
pub open spec fn project_column(press: KeyPress) -> Option<ProjectSortColumn> {
    if is_char(press, 'n') {
        Some(ProjectSortColumn::Name)
    } else if is_char(press, 's') {
        Some(ProjectSortColumn::Status)
    } else if is_char(press, 'l') {
        Some(ProjectSortColumn::Lead)
    } else if is_char(press, 'p') {
        Some(ProjectSortColumn::Progress)
    } else {
        None
    }
}

/// The command of a key binding on a plain screen. Quit and help work
/// everywhere; the rest depends on the screen and, in the detail view, on
/// the focused section.
pub open spec fn browse_command(
    view: View,
    section: DetailSection,
    has_search: bool,
    thread_has_output: bool,
    action: Action,
) -> Command {
    if action == Action::Quit {
        Command::ArmQuit
    } else if action == Action::Help {
        Command::ToggleHelp
    } else {
        match view {
            View::ProjectList => match action {
                Action::MoveDown => Command::ProjectDown,
                Action::MoveUp => Command::ProjectUp,
                Action::Top => Command::ProjectTop,
                Action::Bottom => Command::ProjectBottom,
                Action::Select => Command::OpenProject,
                Action::Back => Command::ShowMyIssues,
                Action::Refresh => Command::RefreshProjects,
                Action::OrderBy => Command::ArmSort,
                Action::OpenIn => Command::OpenProjectLink,
                _ => Command::Nothing,
            },
            View::ProjectDetail => match action {
                Action::MoveDown => Command::ProjectIssueDown,
                Action::MoveUp => Command::ProjectIssueUp,
                Action::Top => Command::ProjectIssueTop,
                Action::Bottom => Command::ProjectIssueBottom,
                Action::Select => Command::OpenProjectIssue,
                Action::Back => Command::LeaveProject,
                Action::Refresh => Command::ReloadProjectIssues,
                Action::OpenIn => Command::ArmOpen,
                Action::ChangeState => Command::StartStateChange,
                _ => Command::Nothing,
            },
            View::Detail => match section {
                DetailSection::Output => match action {
                    Action::Back => Command::OutputBack,
                    Action::MoveDown => Command::OutputDown,
                    Action::MoveUp => Command::OutputUp,
                    Action::Top => Command::OutputTop,
                    Action::Bottom => Command::OutputBottom,
                    Action::Select => Command::StartMessage,
                    _ => Command::Nothing,
                },
                DetailSection::Threads => match action {
                    Action::Back => Command::FocusBody,
                    Action::Tab => Command::FocusBody,
                    Action::MoveDown => Command::ThreadDown,
                    Action::MoveUp => Command::ThreadUp,
                    Action::Refresh => Command::RefreshAll,
                    Action::NewThread => Command::OpenWorkspacePicker,
                    Action::Select => Command::LaunchThread,
                    Action::OpenIn => if thread_has_output {
                        Command::FocusOutput
                    } else {
                        Command::ArmOpen
                    },
                    Action::OpenRunLog => Command::OpenRunLog,
                    Action::MarkRunStale => Command::MarkRunStale,
                    _ => Command::Nothing,
                },
                DetailSection::Body => match action {
                    Action::Back => Command::BackToList,
                    Action::MoveDown => Command::DetailDown,
                    Action::MoveUp => Command::DetailUp,
                    Action::Top => Command::DetailTop,
                    Action::Refresh => Command::RefreshAll,
                    Action::Tab => Command::FocusThreads,
                    Action::NewThread => Command::OpenWorkspacePicker,
                    Action::OpenIn => Command::ArmOpen,
                    Action::ChangeState => Command::StartStateChange,
                    _ => Command::Nothing,
                },
            },
            View::MyIssues => match action {
                Action::MoveDown => Command::IssueDown,
                Action::MoveUp => Command::IssueUp,
                Action::Top => Command::IssueTop,
                Action::Bottom => Command::IssueBottom,
                Action::Select => Command::OpenIssue,
                Action::Search => Command::StartSearch,
                Action::Back => if has_search {
                    Command::ClearSearch
                } else {
                    Command::ClearFilter
                },
                Action::OrderBy => Command::ArmSort,
                Action::FilterBy => Command::ArmFilter,
                Action::Refresh => Command::RefreshAll,
                Action::OpenIn => Command::ArmOpen,
                Action::Projects => Command::ShowProjects,
                Action::ChangeState => Command::StartStateChange,
                _ => Command::Nothing,
            },
        }
    }
}

/// The command of `press` in `mode`.
pub open spec fn key_command(mode: InputMode, press: KeyPress) -> Command {
    match mode {
        InputMode::Help => if press.key == Key::Esc || is_char(press, '?') {
            Command::DismissHelp
        } else {
            Command::Nothing
        },
        InputMode::Error => if press.key == Key::Esc {
            Command::DismissError
        } else if is_char(press, 'r') {
            Command::RetryAfterError
        } else if is_char(press, 'q') {
            Command::Exit
        } else {
            Command::Nothing
        },
        InputMode::MessageEntry => text_entry_command(
            press,
            Command::SubmitMessage,
            Command::CancelMessage,
            Command::PopMessageChar,
            |c: char| Command::PushMessageChar(c),
        ),
        InputMode::PathEntry => match press.key {
            Key::Enter => Command::ConfirmTypedPath,
            Key::Esc => Command::CancelPathEntry,
            Key::Tab => Command::CompletePath,
            Key::BackTab => Command::CompletePath,
            Key::Down => Command::PickerDown,
            Key::Up => Command::PickerUp,
            Key::Backspace => if press.modifiers & ALT != 0 {
                Command::DeletePathComponent
            } else {
                Command::PopPathChar
            },
            Key::Char(c) => Command::PushPathChar(c),
            _ => Command::Nothing,
        },
        InputMode::WorkspaceList => match press.key {
            Key::Enter => Command::PickWorkspace,
            Key::Esc => Command::ClosePicker,
            Key::Down => Command::PickerDown,
            Key::Up => Command::PickerUp,
            Key::Char(c) => if c == '/' {
                Command::StartPathEntry
            } else if c == 'j' {
                Command::PickerDown
            } else if c == 'k' {
                Command::PickerUp
            } else {
                Command::Nothing
            },
            _ => Command::Nothing,
        },
        InputMode::QuitPending => if is_char(press, 'q') {
            Command::ConfirmQuit
        } else {
            Command::DisarmQuit
        },
        InputMode::OpenPending => if is_char(press, 'l') {
            Command::OpenIssueLink
        } else if is_char(press, 'g') {
            Command::OpenPullRequest
        } else {
            Command::CancelOpen
        },
        InputMode::StatePicker => match press.key {
            Key::Enter => Command::ApplyStateChange,
            Key::Esc => Command::CancelStateChange,
            Key::Down => Command::StateDown,
            Key::Right => Command::StateDown,
            Key::Up => Command::StateUp,
            Key::Left => Command::StateUp,
            Key::Char(c) => if c == 'j' {
                Command::StateDown
            } else if c == 'k' {
                Command::StateUp
            } else {
                Command::Nothing
            },
            _ => Command::Nothing,
        },
        InputMode::SortPending => match issue_column(press) {
            Some(col) => Command::SortBy(col),
            None => Command::CancelSort,
        },
        InputMode::ProjectSortPending => match project_column(press) {
            Some(col) => Command::SortProjectsBy(col),
            None => Command::CancelSort,
        },
        InputMode::FilterPending => match issue_column(press) {
            Some(col) => Command::FilterOn(col),
            None => Command::CancelFilterPrompt,
        },
        InputMode::SearchEntry => text_entry_command(
            press,
            Command::ApplySearch,
            Command::CancelSearch,
            Command::PopSearchChar,
            |c: char| Command::PushSearchChar(c),
        ),
        InputMode::FilterEntry => text_entry_command(
            press,
            Command::ApplyFilter,
            Command::CancelFilter,
            Command::PopFilterChar,
            |c: char| Command::PushFilterChar(c),
        ),
        InputMode::Browse { view, section, has_search, thread_has_output } => match action_for(
            press,
        ) {
            Some(action) => browse_command(view, section, has_search, thread_has_output, action),
            None => Command::Nothing,
        },
    }
}

fn issue_column_of(press: KeyPress) -> (r: Option<SortColumn>)
    ensures
        r == issue_column(press),
{
    match press.key {
        Key::Char(c) => if c == 'i' {
            Some(SortColumn::Identifier)
        } else if c == 't' {
            Some(SortColumn::Title)
        } else if c == 'p' {
            Some(SortColumn::Project)
        } else if c == 's' {
            Some(SortColumn::Status)
        } else if c == 'r' {
            Some(SortColumn::Priority)
        } else {
            None
        },
        _ => None,
    }
}

fn project_column_of(press: KeyPress) -> (r: Option<ProjectSortColumn>)
    ensures
        r == project_column(press),
{
    match press.key {
        Key::Char(c) => if c == 'n' {
            Some(ProjectSortColumn::Name)
        } else if c == 's' {
            Some(ProjectSortColumn::Status)
        } else if c == 'l' {
            Some(ProjectSortColumn::Lead)
        } else if c == 'p' {
            Some(ProjectSortColumn::Progress)
        } else {
            None
        },
        _ => None,
    }
}

/// The command of a key binding on a plain screen.
pub fn browse_command_for(
    view: View,
    section: DetailSection,
    has_search: bool,
    thread_has_output: bool,
    action: Action,
) -> (r: Command)
    ensures
        r == browse_command(view, section, has_search, thread_has_output, action),
{
    if action == Action::Quit {
        return Command::ArmQuit;
    }
    if action == Action::Help {
        return Command::ToggleHelp;
    }
    match view {
        View::ProjectList => match action {
            Action::MoveDown => Command::ProjectDown,
            Action::MoveUp => Command::ProjectUp,
            Action::Top => Command::ProjectTop,
            Action::Bottom => Command::ProjectBottom,
            Action::Select => Command::OpenProject,
            Action::Back => Command::ShowMyIssues,
            Action::Refresh => Command::RefreshProjects,
            Action::OrderBy => Command::ArmSort,
            Action::OpenIn => Command::OpenProjectLink,
            _ => Command::Nothing,
        },
        View::ProjectDetail => match action {
            Action::MoveDown => Command::ProjectIssueDown,
            Action::MoveUp => Command::ProjectIssueUp,
            Action::Top => Command::ProjectIssueTop,
            Action::Bottom => Command::ProjectIssueBottom,
            Action::Select => Command::OpenProjectIssue,
            Action::Back => Command::LeaveProject,
            Action::Refresh => Command::ReloadProjectIssues,
            Action::OpenIn => Command::ArmOpen,
            Action::ChangeState => Command::StartStateChange,
            _ => Command::Nothing,
        },
        View::Detail => match section {
            DetailSection::Output => match action {
                Action::Back => Command::OutputBack,
                Action::MoveDown => Command::OutputDown,
                Action::MoveUp => Command::OutputUp,
                Action::Top => Command::OutputTop,
                Action::Bottom => Command::OutputBottom,
                Action::Select => Command::StartMessage,
                _ => Command::Nothing,
            },
            DetailSection::Threads => match action {
                Action::Back => Command::FocusBody,
                Action::Tab => Command::FocusBody,
                Action::MoveDown => Command::ThreadDown,
                Action::MoveUp => Command::ThreadUp,
                Action::Refresh => Command::RefreshAll,
                Action::NewThread => Command::OpenWorkspacePicker,
                Action::Select => Command::LaunchThread,
                Action::OpenIn => if thread_has_output {
                    Command::FocusOutput
                } else {
                    Command::ArmOpen
                },
                Action::OpenRunLog => Command::OpenRunLog,
                Action::MarkRunStale => Command::MarkRunStale,
                _ => Command::Nothing,
            },
            DetailSection::Body => match action {
                Action::Back => Command::BackToList,
                Action::MoveDown => Command::DetailDown,
                Action::MoveUp => Command::DetailUp,
                Action::Top => Command::DetailTop,
                Action::Refresh => Command::RefreshAll,
                Action::Tab => Command::FocusThreads,
                Action::NewThread => Command::OpenWorkspacePicker,
                Action::OpenIn => Command::ArmOpen,
                Action::ChangeState => Command::StartStateChange,
                _ => Command::Nothing,
            },
        },
        View::MyIssues => match action {
            Action::MoveDown => Command::IssueDown,
            Action::MoveUp => Command::IssueUp,
            Action::Top => Command::IssueTop,
            Action::Bottom => Command::IssueBottom,
            Action::Select => Command::OpenIssue,
            Action::Search => Command::StartSearch,
            Action::Back => if has_search {
                Command::ClearSearch
            } else {
                Command::ClearFilter
            },
            Action::OrderBy => Command::ArmSort,
            Action::FilterBy => Command::ArmFilter,
            Action::Refresh => Command::RefreshAll,
            Action::OpenIn => Command::ArmOpen,
            Action::Projects => Command::ShowProjects,
            Action::ChangeState => Command::StartStateChange,
            _ => Command::Nothing,
        },
    }
}

/// The command of `press` in `mode`.
pub fn command_for(mode: InputMode, press: KeyPress) -> (r: Command)
    ensures
        r == key_command(mode, press),
{
    match mode {
        InputMode::Help => if press.key == Key::Esc || press.key == Key::Char('?') {
            Command::DismissHelp
        } else {
            Command::Nothing
        },
        InputMode::Error => if press.key == Key::Esc {
            Command::DismissError
        } else if press.key == Key::Char('r') {
            Command::RetryAfterError
        } else if press.key == Key::Char('q') {
            Command::Exit
        } else {
            Command::Nothing
        },
        InputMode::MessageEntry => match press.key {
            Key::Enter => Command::SubmitMessage,
            Key::Esc => Command::CancelMessage,
            Key::Backspace => Command::PopMessageChar,
            Key::Char(c) => Command::PushMessageChar(c),
            _ => Command::Nothing,
        },
        InputMode::PathEntry => match press.key {
            Key::Enter => Command::ConfirmTypedPath,
            Key::Esc => Command::CancelPathEntry,
            Key::Tab => Command::CompletePath,
            Key::BackTab => Command::CompletePath,
            Key::Down => Command::PickerDown,
            Key::Up => Command::PickerUp,
            Key::Backspace => if press.modifiers & ALT != 0 {
                Command::DeletePathComponent
            } else {
                Command::PopPathChar
            },
            Key::Char(c) => Command::PushPathChar(c),
            _ => Command::Nothing,
        },
        InputMode::WorkspaceList => match press.key {
            Key::Enter => Command::PickWorkspace,
            Key::Esc => Command::ClosePicker,
            Key::Down => Command::PickerDown,
            Key::Up => Command::PickerUp,
            Key::Char(c) => if c == '/' {
                Command::StartPathEntry
            } else if c == 'j' {
                Command::PickerDown
            } else if c == 'k' {
                Command::PickerUp
            } else {
                Command::Nothing
            },
            _ => Command::Nothing,
        },
        InputMode::QuitPending => if press.key == Key::Char('q') {
            Command::ConfirmQuit
        } else {
            Command::DisarmQuit
        },
        InputMode::OpenPending => if press.key == Key::Char('l') {
            Command::OpenIssueLink
        } else if press.key == Key::Char('g') {
            Command::OpenPullRequest
        } else {
            Command::CancelOpen
        },
        InputMode::StatePicker => match press.key {
            Key::Enter => Command::ApplyStateChange,
            Key::Esc => Command::CancelStateChange,
            Key::Down => Command::StateDown,
            Key::Right => Command::StateDown,
            Key::Up => Command::StateUp,
            Key::Left => Command::StateUp,
            Key::Char(c) => if c == 'j' {
                Command::StateDown
            } else if c == 'k' {
                Command::StateUp
            } else {
                Command::Nothing
            },
            _ => Command::Nothing,
        },
        InputMode::SortPending => match issue_column_of(press) {
            Some(col) => Command::SortBy(col),
            None => Command::CancelSort,
        },
        InputMode::ProjectSortPending => match project_column_of(press) {
            Some(col) => Command::SortProjectsBy(col),
            None => Command::CancelSort,
        },
        InputMode::FilterPending => match issue_column_of(press) {
            Some(col) => Command::FilterOn(col),
            None => Command::CancelFilterPrompt,
        },
        InputMode::SearchEntry => match press.key {
            Key::Enter => Command::ApplySearch,
            Key::Esc => Command::CancelSearch,
            Key::Backspace => Command::PopSearchChar,
            Key::Char(c) => Command::PushSearchChar(c),
            _ => Command::Nothing,
        },
        InputMode::FilterEntry => match press.key {
            Key::Enter => Command::ApplyFilter,
            Key::Esc => Command::CancelFilter,
            Key::Backspace => Command::PopFilterChar,
            Key::Char(c) => Command::PushFilterChar(c),
            _ => Command::Nothing,
        },
        InputMode::Browse { view, section, has_search, thread_has_output } => match map_key(
            press,
        ) {
            Some(action) => browse_command_for(view, section, has_search, thread_has_output, action),
            None => Command::Nothing,
        },
    }
}

} // verus!
