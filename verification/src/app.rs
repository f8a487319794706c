//! Interface state that does not depend on the issue tracker: run summaries,
//! view identifiers, sort columns, the workspace picker and error messages.

use crate::amp::state::{runs_of, string_views, SessionRun, SessionRunStatus, State};
use crate::text::{
    chars_of, contains, contains_chars, last_index, owned, rfind_char, string_of,
    take_chars, trim, trim_str,
};
use vstd::prelude::*;
use vstd::view::View as _;

pub mod input;
pub mod model;

pub use model::App;

verus! {

/// Lightweight summary of a session run for display.
#[derive(Debug, Clone, PartialEq, Eq)]
pub struct SessionRunSummary {
    pub run_id: String,
    pub thread_id: String,
    pub status: SessionRunStatus,
    pub log_path: Option<String>,
    pub created_at_ms: u64,
}

/// How prominently a status is shown:
/// Running > Pending > Failed > Stale > Completed.
pub open spec fn display_rank(s: SessionRunStatus) -> int {
    match s {
        SessionRunStatus::Running => 4,
        SessionRunStatus::Pending => 3,
        SessionRunStatus::Failed => 2,
        SessionRunStatus::Stale => 1,
        SessionRunStatus::Completed => 0,
    }
}

fn rank(s: SessionRunStatus) -> (r: u8)
    ensures
        r == display_rank(s),
{
    match s {
        SessionRunStatus::Running => 4,
        SessionRunStatus::Pending => 3,
        SessionRunStatus::Failed => 2,
        SessionRunStatus::Stale => 1,
        SessionRunStatus::Completed => 0,
    }
}

/// The more prominent of two statuses; `a` when they rank the same.
pub open spec fn displayed_status(a: SessionRunStatus, b: SessionRunStatus) -> SessionRunStatus {
    if display_rank(b) > display_rank(a) {
        b
    } else {
        a
    }
}

/// The more prominent of two statuses; `a` when they rank the same.
pub fn pick_display_status(a: SessionRunStatus, b: SessionRunStatus) -> (r: SessionRunStatus)
    ensures
        r == displayed_status(a, b),
{
    if rank(b) > rank(a) {
        b
    } else {
        a
    }
}

/// Section of the detail view that has the focus.
#[derive(Debug, Clone, Copy, PartialEq, Eq, Structural)]
pub enum DetailSection {
    Body,
    Threads,
    Output,
}

/// Top-level screen.
#[derive(Debug, Clone, Copy, PartialEq, Eq, Structural)]
pub enum View {
    MyIssues,
    ProjectList,
    ProjectDetail,
    Detail,
}

/// Which list view the user came from when entering the detail view.
#[derive(Debug, Clone, Copy, PartialEq, Eq, Structural)]
pub enum DetailOrigin {
    MyIssues,
    ProjectDetail,
}

/// Column of the issue list used for sorting and filtering.
#[derive(Debug, Clone, Copy, PartialEq, Eq, Structural)]
pub enum SortColumn {
    Identifier,
    Title,
    Project,
    Status,
    Priority,
}

impl SortColumn {
    /// Column heading.
    pub fn label(&self) -> (r: &'static str)
        ensures
            r@ == (match *self {
                SortColumn::Identifier => "ID"@,
                SortColumn::Title => "Title"@,
                SortColumn::Project => "Project"@,
                SortColumn::Status => "Status"@,
                SortColumn::Priority => "Priority"@,
            }),
    {
        match self {
            SortColumn::Identifier => "ID",
            SortColumn::Title => "Title",
            SortColumn::Project => "Project",
            SortColumn::Status => "Status",
            SortColumn::Priority => "Priority",
        }
    }
}

/// Column of the project list used for sorting.
#[derive(Debug, Clone, Copy, PartialEq, Eq, Structural)]
pub enum ProjectSortColumn {
    Name,
    Status,
    Lead,
    Progress,
}

impl ProjectSortColumn {
    /// Column heading.
    pub fn label(&self) -> (r: &'static str)
        ensures
            r@ == (match *self {
                ProjectSortColumn::Name => "Name"@,
                ProjectSortColumn::Status => "Status"@,
                ProjectSortColumn::Lead => "Lead"@,
                ProjectSortColumn::Progress => "Progress"@,
            }),
    {
        match self {
            ProjectSortColumn::Name => "Name",
            ProjectSortColumn::Status => "Status",
            ProjectSortColumn::Lead => "Lead",
            ProjectSortColumn::Progress => "Progress",
        }
    }
}

/// Sort direction.
#[derive(Debug, Clone, Copy, PartialEq, Eq, Structural)]
pub enum SortDirection {
    Asc,
    Desc,
}

impl SortDirection {
    /// The other direction.
    pub open spec fn toggled(self) -> Self {
        match self {
            SortDirection::Asc => SortDirection::Desc,
            SortDirection::Desc => SortDirection::Asc,
        }
    }

    /// The other direction.
    pub fn toggle(self) -> (r: Self)
        ensures
            r == self.toggled(),
    {
        match self {
            SortDirection::Asc => SortDirection::Desc,
            SortDirection::Desc => SortDirection::Asc,
        }
    }
}

/// User-facing message for an error text: the first matching rule wins.
pub open spec fn error_message_for(msg: Seq<char>) -> Seq<char> {
    if contains(msg, "401"@) {
        "Authentication failed — check your API key"@
    } else if contains(msg, "403"@) {
        "Access denied — insufficient permissions"@
    } else if contains(msg, "429"@) {
        "Rate limited — please wait and try again"@
    } else if contains(msg, "dns error"@) || contains(msg, "connect error"@) || contains(
        msg,
        "No connection"@,
    ) || contains(msg, "error trying to connect"@) {
        "Network error — check your internet connection"@
    } else if contains(msg, "timed out"@) || contains(msg, "timeout"@) {
        "Request timed out — try again"@
    } else {
        "API error: "@ + msg
    }
}

/// The text an `anyhow::Error` displays: the message of the outermost
/// error of its chain, a function of the error value alone.
pub uninterp spec fn error_display(e: anyhow::Error) -> Seq<char>;

/// The text `err` displays (`format!("{err}")`).
#[verifier::external_body]
fn error_text(err: &anyhow::Error) -> (r: String)
    ensures
        r@ == error_display(*err),
{
    format!("{err}")
}

/// User-friendly error message displayed in the status bar.
#[derive(Debug, Clone)]
pub struct AppError {
    pub message: String,
}

impl AppError {
    /// An error showing `message` as it is.
    pub fn new(message: String) -> (r: Self)
        ensures
            r.message == message,
    {
        AppError { message }
    }

    /// Classifies an error text into a user-friendly message.
    pub fn from_message(msg: &str) -> (r: Self)
        ensures
            r.message@ == error_message_for(msg@),
    {
        let m = chars_of(msg);
        let s = m.as_slice();
        if contains_chars(s, chars_of("401").as_slice()) {
            AppError::new(owned("Authentication failed — check your API key"))
        } else if contains_chars(s, chars_of("403").as_slice()) {
            AppError::new(owned("Access denied — insufficient permissions"))
        } else if contains_chars(s, chars_of("429").as_slice()) {
            AppError::new(owned("Rate limited — please wait and try again"))
        } else if contains_chars(s, chars_of("dns error").as_slice()) || contains_chars(
            s,
            chars_of("connect error").as_slice(),
        ) || contains_chars(s, chars_of("No connection").as_slice()) || contains_chars(
            s,
            chars_of("error trying to connect").as_slice(),
        ) {
            AppError::new(owned("Network error — check your internet connection"))
        } else if contains_chars(s, chars_of("timed out").as_slice()) || contains_chars(
            s,
            chars_of("timeout").as_slice(),
        ) {
            AppError::new(owned("Request timed out — try again"))
        } else {
            let mut text = owned("API error: ");
            text.push_str(msg);
            AppError::new(text)
        }
    }

    /// Classifies an error into a user-friendly message by the text it
    /// displays.
    pub fn from_api_error(err: &anyhow::Error) -> (r: Self)
        ensures
            r.message@ == error_message_for(error_display(*err)),
    {
        let msg = error_text(err);
        let r = AppError::from_message(msg.as_str());
        assert(r.message@ == error_message_for(msg@));
        r
    }
}

} // verus!

verus! {

/// The path the picker's input starts from: the working directory with a
/// trailing `/`, or nothing when it is unknown.
pub open spec fn typing_seed(cwd: Option<Seq<char>>) -> Seq<char> {
    match cwd {
        Some(d) => if d.len() > 0 && d.last() == '/' {
            d
        } else {
            d.push('/')
        },
        None => Seq::empty(),
    }
}

/// `s` with its last path component removed: a trailing `/` is dropped,
/// then everything after the last remaining `/` goes; with no `/` left the
/// result is empty.
pub open spec fn without_last_component(s: Seq<char>) -> Seq<char> {
    let t = if s.len() > 0 && s.last() == '/' {
        s.drop_last()
    } else {
        s
    };
    match last_index(t, '/') {
        Some(p) => t.take(p + 1),
        None => Seq::empty(),
    }
}

/// The full paths of the directory entries whose name starts with `prefix`,
/// in the order of the entries; an entry is (name, full path).
pub open spec fn completion_matches(entries: Seq<(String, String)>, prefix: Seq<char>) -> Seq<
    String,
>
    decreases entries.len(),
{
    if entries.len() == 0 {
        Seq::empty()
    } else {
        let rest = completion_matches(entries.drop_last(), prefix);
        if crate::text::has_prefix(entries.last().0@, prefix) {
            rest.push(entries.last().1)
        } else {
            rest
        }
    }
}

/// The selection after moving down in a list of `len` options: one further
/// unless already on the last option (or the list is empty).
pub open spec fn selection_down(len: nat, selected: nat) -> nat {
    if len > 0 && selected < len - 1 {
        selected + 1
    } else {
        selected
    }
}

/// The selection after moving up: one back unless already on the first.
pub open spec fn selection_up(selected: nat) -> nat {
    if selected > 0 {
        (selected - 1) as nat
    } else {
        0
    }
}

/// `std::path::Path::parent` of a path, as text: the path less its last
/// component (`None` for a root or an empty path). A function of the text
/// alone.
pub uninterp spec fn path_parent(s: Seq<char>) -> Option<Seq<char>>;

/// `std::path::Path::file_name` of a path, as text: its last normal
/// component (`None` when it ends in `..` or has none). A function of the
/// text alone.
pub uninterp spec fn path_file_name(s: Seq<char>) -> Option<Seq<char>>;

/// `Path::parent` of `s`.
#[verifier::external_body]
fn parent_of(s: &str) -> (r: Option<String>)
    ensures
        crate::issue_context::opt_view(r) == path_parent(s@),
{
    std::path::Path::new(s).parent().map(|p| p.to_string_lossy().into_owned())
}

/// `Path::file_name` of `s`.
#[verifier::external_body]
fn file_name_of(s: &str) -> (r: Option<String>)
    ensures
        crate::issue_context::opt_view(r) == path_file_name(s@),
{
    std::path::Path::new(s).file_name().map(|f| f.to_string_lossy().into_owned())
}

/// Where tab completion of a typed path looks and what it matches: an empty
/// input lists `.`, an input ending in `/` lists that directory, with no
/// name prefix; otherwise the parent directory (`.` when there is none) is
/// listed for names starting with the last component (empty when there is
/// none).
pub open spec fn completion_target(input: Seq<char>) -> (Seq<char>, Seq<char>) {
    if input.len() == 0 {
        ("."@, Seq::empty())
    } else if input.last() == '/' {
        (input, Seq::empty())
    } else {
        (
            match path_parent(input) {
                Some(p) => p,
                None => "."@,
            },
            match path_file_name(input) {
                Some(f) => f,
                None => Seq::empty(),
            },
        )
    }
}

/// The directory to list and the name prefix to match when completing the
/// typed path `input`.
pub fn completion_dir_and_prefix(input: &str) -> (r: (String, String))
    ensures
        (r.0@, r.1@) == completion_target(input@),
{
    let v = chars_of(input);
    if v.len() == 0 {
        return (owned("."), String::new());
    }
    if v[v.len() - 1] == '/' {
        return (owned(input), String::new());
    }
    let dir = match parent_of(input) {
        Some(p) => p,
        None => owned("."),
    };
    let prefix = match file_name_of(input) {
        Some(f) => f,
        None => String::new(),
    };
    (dir, prefix)
}

/// State for the workspace picker shown when starting a new thread.
#[derive(Debug, Clone)]
pub struct WorkspacePicker {
    pub options: Vec<String>,
    pub selected: usize,
    /// When true, the user is typing a new workspace path.
    pub typing: bool,
    /// Buffer for the path being typed.
    pub input: String,
    /// The options before tab completion replaced them.
    pub original_options: Vec<String>,
}

impl WorkspacePicker {
    /// The options the picker was opened with.
    pub open spec fn original(&self) -> Seq<String> {
        self.original_options@
    }

    /// A picker over `options`, first option selected, not typing.
    pub fn new(options: Vec<String>) -> (r: Self)
        ensures
            r.options@ == options@,
            r.original() == options@,
            r.selected == 0,
            !r.typing,
            r.input@ == Seq::<char>::empty(),
    {
        let original_options = crate::text::copy_strings(options.as_slice());
        WorkspacePicker {
            options,
            selected: 0,
            typing: false,
            input: String::new(),
            original_options,
        }
    }

    /// Selects the next option, staying on the last one.
    pub fn move_down(&mut self)
        ensures
            final(self).selected == selection_down(old(self).options@.len(), old(self).selected as nat),
            final(self).options == old(self).options,
            final(self).typing == old(self).typing,
            final(self).input == old(self).input,
            final(self).original() == old(self).original(),
    {
        if self.options.len() > 0 && self.selected < self.options.len() - 1 {
            self.selected = self.selected + 1;
        }
    }

    /// Selects the previous option, staying on the first one.
    pub fn move_up(&mut self)
        ensures
            final(self).selected == selection_up(old(self).selected as nat),
            final(self).options == old(self).options,
            final(self).typing == old(self).typing,
            final(self).input == old(self).input,
            final(self).original() == old(self).original(),
    {
        if self.selected > 0 {
            self.selected = self.selected - 1;
        }
    }

    /// The selected option, if the selection is within the options.
    pub fn selected_workspace(&self) -> (r: Option<&str>)
        ensures
            r is Some == (self.selected < self.options@.len()),
            r matches Some(w) ==> w@ == self.options@[self.selected as int]@,
    {
        if self.selected < self.options.len() {
            Some(self.options[self.selected].as_str())
        } else {
            None
        }
    }

    /// Starts typing a path, seeded with the working directory `cwd` (when
    /// known) and a trailing `/`.
    pub fn start_typing_in(&mut self, cwd: Option<&str>)
        ensures
            final(self).typing,
            final(self).input@ == typing_seed(
                match cwd {
                    Some(d) => Some(d@),
                    None => None,
                },
            ),
            final(self).options == old(self).options,
            final(self).selected == old(self).selected,
            final(self).original() == old(self).original(),
    {
        self.typing = true;
        match cwd {
            Some(d) => {
                let mut s = owned(d);
                let dc = chars_of(d);
                if !(dc.len() > 0 && dc[dc.len() - 1] == '/') {
                    s.push('/');
                }
                self.input = s;
            },
            None => {
                self.input = String::new();
            },
        }
    }

    /// Leaves typing mode, dropping the input and restoring the original
    /// options with the first one selected.
    pub fn cancel_typing(&mut self)
        ensures
            !final(self).typing,
            final(self).input@ == Seq::<char>::empty(),
            final(self).options@ == old(self).original(),
            final(self).selected == 0,
            final(self).original() == old(self).original(),
    {
        self.typing = false;
        self.input = String::new();
        self.options = crate::text::copy_strings(self.original_options.as_slice());
        self.selected = 0;
    }

    /// Deletes one path component from the end of the input:
    /// `/Users/me/projects/` becomes `/Users/me/`.
    pub fn delete_path_component(&mut self)
        ensures
            final(self).input@ == without_last_component(old(self).input@),
            final(self).options == old(self).options,
            final(self).selected == old(self).selected,
            final(self).typing == old(self).typing,
            final(self).original() == old(self).original(),
    {
        let mut t = chars_of(self.input.as_str());
        if t.len() > 0 && t[t.len() - 1] == '/' {
            t.pop();
        }
        let kept = match rfind_char(t.as_slice(), '/') {
            Some(p) => take_chars(t.as_slice(), p + 1),
            None => Vec::new(),
        };
        self.input = string_of(kept.as_slice());
    }

    /// Applies the directories found for tab completion, given as (name,
    /// full path) pairs, to the picker: those whose name starts with
    /// `prefix` are sorted; a single match becomes the input, several
    /// become the options with the first selected, none change nothing.
    pub fn apply_completions(&mut self, entries: Vec<(String, String)>, prefix: &str)
        ensures
            ({
                let m = completion_matches(entries@, prefix@);
                &&& m.len() == 0 ==> *final(self) == *old(self)
                &&& m.len() == 1 ==> final(self).input == m[0] && final(self).options
                    == old(self).options && final(self).selected == old(self).selected
                &&& m.len() > 1 ==> final(self).input == old(self).input
                    && final(self).options@.to_multiset() == m.to_multiset()
                    && crate::text::lex_sorted(string_views(final(self).options@))
                    && final(self).selected == 0
                &&& final(self).typing == old(self).typing
                &&& final(self).original() == old(self).original()
            }),
    {
        let pc = chars_of(prefix);
        let mut found: Vec<String> = Vec::new();
        let mut i: usize = 0;
        while i < entries.len()
            invariant
                i <= entries@.len(),
                pc@ == prefix@,
                found@ == completion_matches(entries@.take(i as int), prefix@),
            decreases entries@.len() - i,
        {
            proof {
                assert(entries@.take(i + 1).drop_last() =~= entries@.take(i as int));
            }
            let nc = chars_of(entries[i].0.as_str());
            if crate::text::starts_with_chars(nc.as_slice(), pc.as_slice()) {
                found.push(entries[i].1.clone());
            }
            i = i + 1;
        }
        assert(entries@.take(entries@.len() as int) =~= entries@);
        let n = found.len();
        if n == 1 {
            self.input = found[0].clone();
        } else if n > 1 {
            let sorted = crate::text::sort_strings(found);
            self.options = sorted;
            self.selected = 0;
        }
    }

    /// Leaves typing mode and returns the typed path, trimmed, if it is not
    /// empty, else the selected option; then restores the original options.
    pub fn confirm_typed_path(&mut self) -> (r: Option<String>)
        ensures
            trim(old(self).input@).len() > 0 ==> r is Some && r->0@ == trim(old(self).input@),
            trim(old(self).input@).len() == 0 ==> (r is Some == (old(self).selected < old(
                self,
            ).options@.len())) && (r matches Some(p) ==> p == old(self).options@[old(
                self,
            ).selected as int]),
            !final(self).typing,
            final(self).input@ == Seq::<char>::empty(),
            final(self).options@ == old(self).original(),
            final(self).selected == 0,
            final(self).original() == old(self).original(),
    {
        self.typing = false;
        let path = trim_str(self.input.as_str());
        let result = if path.as_str().unicode_len() > 0 {
            Some(path)
        } else if self.selected < self.options.len() {
            Some(self.options[self.selected].clone())
        } else {
            None
        };
        self.input = String::new();
        self.options = crate::text::copy_strings(self.original_options.as_slice());
        self.selected = 0;
        result
    }
}

/// The summary of run `run_id`.
pub open spec fn summarizes(s: SessionRunSummary, run_id: Seq<char>, run: SessionRun) -> bool {
    &&& s.run_id@ == run_id
    &&& s.thread_id == run.thread_id
    &&& s.status == run.status
    &&& s.log_path == run.log_path
    &&& s.created_at_ms == run.created_at_ms
}

/// Summaries of the runs of `issue` recorded in `state`, in ascending order
/// of run ID.
pub fn run_summaries_for_issue(state: &State, issue: &str) -> (r: Vec<SessionRunSummary>)
    ensures
        r@.len() == runs_of(state.session_runs.keys(), state.session_runs.values(), issue@).len(),
        forall|i: int|
            0 <= i < r@.len() ==> summarizes(
                #[trigger] r@[i],
                runs_of(state.session_runs.keys(), state.session_runs.values(), issue@)[i].0,
                runs_of(state.session_runs.keys(), state.session_runs.values(), issue@)[i].1,
            ),
{
    let runs = state.runs_for_issue(issue);
    let ghost want = runs@.map_values(|e: (&str, &SessionRun)| (e.0@, *e.1));
    let mut r: Vec<SessionRunSummary> = Vec::new();
    let mut i: usize = 0;
    while i < runs.len()
        invariant
            want == runs@.map_values(|e: (&str, &SessionRun)| (e.0@, *e.1)),
            i <= runs@.len(),
            r@.len() == i,
            forall|k: int| 0 <= k < i ==> summarizes(#[trigger] r@[k], want[k].0, want[k].1),
        decreases runs@.len() - i,
    {
        let (run_id, run) = runs[i];
        r.push(
            SessionRunSummary {
                run_id: owned(run_id),
                thread_id: run.thread_id.clone(),
                status: run.status,
                log_path: crate::api::types::copy_opt(&run.log_path),
                created_at_ms: run.created_at_ms,
            },
        );
        i = i + 1;
    }
    r
}

} // verus!
