//! The whole interface state of the program and its transitions: lists,
//! filters, search, sorting, the detail view, projects, workflow-state
//! changes and the bookkeeping around loads from the issue tracker.

use crate::amp::output::{lines_view, OutputLine, OutputLineView, SessionOutputBuffer};
use crate::amp::state::{string_views, SessionRunStatus};
use crate::amp::thread::ThreadSummary;
use crate::api::cache::ResponseCache;
use crate::api::types::{
    copy_issues, copy_opt, copy_projects, same_issues, Issue, IssueState, Project,
};
use crate::app::input::{command_for, key_command, Command, InputMode};
use crate::keys::KeyPress;
use crate::app::{
    displayed_status, pick_display_status, selection_down, selection_up, AppError, DetailOrigin,
    DetailSection, ProjectSortColumn, SessionRunSummary, SortColumn, SortDirection, View,
    WorkspacePicker,
};
use crate::sorting::{
    is_stable_order, keys_view, rows_in_order, sorted_rows, stable_order, SortKey, SortKeyView,
};
use crate::text::{chars_of, contains, contains_chars, owned, str_eq, trim, trim_str};
use vstd::prelude::*;
use vstd::view::View as _;

verus! {

/// Time-to-live of cached responses: 300 seconds, in nanoseconds.
pub const CACHE_TTL_NANOS: u128 = 300_000_000_000;

/// Cache key of the user's issues.
pub const CACHE_KEY_MY_ISSUES: &'static str = "my_issues";

/// Cache key of the project list.
pub const CACHE_KEY_PROJECTS: &'static str = "projects";

/// `str::to_lowercase` of a text. It maps each character by Unicode's
/// lowercase tables, independent of locale, so it is a function of the
/// text alone.
pub uninterp spec fn lowercase(s: Seq<char>) -> Seq<char>;

/// `str::to_lowercase`.
#[verifier::external_body]
fn to_lowercase(s: &str) -> (r: String)
    ensures
        r@ == lowercase(s@),
{
    s.to_lowercase()
}

/// The text of an issue in a column.
pub open spec fn column_text(issue: Issue, col: SortColumn) -> Seq<char> {
    match col {
        SortColumn::Identifier => issue.identifier@,
        SortColumn::Title => issue.title@,
        SortColumn::Project => issue.project_text(),
        SortColumn::Status => issue.status_text(),
        SortColumn::Priority => issue.priority_text(),
    }
}

/// The issue's text in any column contains the lowercased query, compared
/// in lower case.
pub open spec fn matches_search(issue: Issue, lower_query: Seq<char>) -> bool {
    ||| contains(lowercase(issue.identifier@), lower_query)
    ||| contains(lowercase(issue.title@), lower_query)
    ||| contains(lowercase(issue.project_text()), lower_query)
    ||| contains(lowercase(issue.status_text()), lower_query)
    ||| contains(lowercase(issue.priority_text()), lower_query)
}

/// The issue passes the column filter and the search, both compared in
/// lower case.
pub open spec fn shown(issue: Issue, filter: Option<(SortColumn, String)>, search: Option<String>) -> bool {
    &&& match filter {
        Some((col, f)) => contains(lowercase(column_text(issue, col)), lowercase(f@)),
        None => true,
    }
    &&& match search {
        Some(q) => matches_search(issue, lowercase(q@)),
        None => true,
    }
}

/// The issues that pass the filter and the search, in their order.
pub open spec fn kept_issues(
    issues: Seq<Issue>,
    filter: Option<(SortColumn, String)>,
    search: Option<String>,
) -> Seq<Issue>
    decreases issues.len(),
{
    if issues.len() == 0 {
        Seq::empty()
    } else {
        let rest = kept_issues(issues.drop_last(), filter, search);
        if shown(issues.last(), filter, search) {
            rest.push(issues.last())
        } else {
            rest
        }
    }
}

/// The key an issue is sorted by in a column: the identifier, the title in
/// lower case, the project or state name, or the priority number.
pub open spec fn issue_key(issue: Issue, col: SortColumn) -> SortKeyView {
    match col {
        SortColumn::Identifier => SortKeyView::Text(issue.identifier@),
        SortColumn::Title => SortKeyView::Text(lowercase(issue.title@)),
        SortColumn::Project => SortKeyView::Text(issue.project_text()),
        SortColumn::Status => SortKeyView::Text(issue.status_text()),
        SortColumn::Priority => SortKeyView::Number(
            match issue.priority {
                Some(p) => Some(p as u64),
                None => None,
            },
        ),
    }
}

/// The keys of a list of issues in a column.
pub open spec fn issue_keys(issues: Seq<Issue>, col: SortColumn) -> Seq<SortKeyView> {
    issues.map_values(|i: Issue| issue_key(i, col))
}

/// `rows` is `items` rearranged as the sort asks: unchanged without a sort,
/// else in a stable order of the keys in the requested direction.
pub open spec fn arranged<T>(
    items: Seq<T>,
    keys: Seq<SortKeyView>,
    descending: Option<bool>,
    rows: Seq<T>,
) -> bool {
    match descending {
        None => rows == items,
        Some(d) => sorted_rows(items, keys, d, rows),
    }
}

/// The key a project is sorted by in a column: the name in lower case, the
/// state, the lead's name or the progress.
pub open spec fn project_key(p: Project, col: ProjectSortColumn) -> SortKeyView {
    match col {
        ProjectSortColumn::Name => SortKeyView::Text(lowercase(p.name@)),
        ProjectSortColumn::Status => SortKeyView::Text(p.status_text()),
        ProjectSortColumn::Lead => SortKeyView::Text(p.lead_text()),
        ProjectSortColumn::Progress => SortKeyView::Number(p.progress),
    }
}

/// The keys of a list of projects in a column.
pub open spec fn project_keys(ps: Seq<Project>, col: ProjectSortColumn) -> Seq<SortKeyView> {
    ps.map_values(|p: Project| project_key(p, col))
}

/// The sort after a sort column is chosen: the same column again flips the
/// direction, another column sorts ascending by it.
pub open spec fn next_sort<C>(current: Option<(C, SortDirection)>, col: C) -> Option<
    (C, SortDirection),
> {
    match current {
        Some((c, d)) => if c == col {
            Some((col, d.toggled()))
        } else {
            Some((col, SortDirection::Asc))
        },
        None => Some((col, SortDirection::Asc)),
    }
}

/// The workflow states offered when changing an issue's state.
pub open spec fn workflow_states() -> Seq<Seq<char>> {
    seq!["Backlog"@, "Todo"@, "In Progress"@, "In Review"@, "Done"@, "Canceled"@]
}

/// The position of `s` among the offered workflow states, or 0.
pub open spec fn state_position(s: Option<Seq<char>>) -> int {
    match s {
        Some(n) => match workflow_states().index_of_first(n) {
            Some(i) => i,
            None => 0,
        },
        None => 0,
    }
}

/// The whole interface state.
pub struct App {
    pub running: bool,
    pub view: View,
    pub issues: Vec<Issue>,
    pub selected: usize,
    pub filter: Option<(SortColumn, String)>,
    pub filter_input: String,
    pub filter_column: Option<SortColumn>,
    pub filtering: bool,
    pub awaiting_quit: bool,
    pub awaiting_filter: bool,
    pub awaiting_sort: bool,
    pub awaiting_open: bool,
    pub awaiting_state_change: bool,
    pub state_options: Vec<String>,
    pub state_selected: usize,
    pub sort: Option<(SortColumn, SortDirection)>,
    pub search: Option<String>,
    pub search_input: String,
    pub searching: bool,
    pub detail_scroll: u16,
    pub detail_scroll_max: u16,
    pub refreshing: bool,
    pub loading: bool,
    pub error: Option<AppError>,
    pub detail_section: DetailSection,
    pub detail_threads: Vec<ThreadSummary>,
    pub detail_thread_selected: usize,
    pub detail_session_runs: Vec<SessionRunSummary>,
    pub workspace_picker: Option<WorkspacePicker>,
    pub output_buffer: SessionOutputBuffer,
    pub detail_output_scroll: u16,
    pub detail_output_scroll_max: u16,
    pub message_input_active: bool,
    pub message_input: String,
    pub show_help: bool,
    pub cache: ResponseCache<Vec<Issue>>,
    pub projects: Vec<Project>,
    pub project_selected: usize,
    pub project_sort: Option<(ProjectSortColumn, SortDirection)>,
    pub project_cache: ResponseCache<Vec<Project>>,
    pub project_issues: Vec<Issue>,
    pub project_issue_selected: usize,
    pub detail_origin: DetailOrigin,
}

fn issue_sort_key(issue: &Issue, col: SortColumn) -> (r: SortKey)
    ensures
        r@ == issue_key(*issue, col),
{
    match col {
        SortColumn::Identifier => SortKey::Text(issue.identifier.clone()),
        SortColumn::Title => SortKey::Text(to_lowercase(issue.title.as_str())),
        SortColumn::Project => SortKey::Text(owned(issue.project_str())),
        SortColumn::Status => SortKey::Text(owned(issue.status_str())),
        SortColumn::Priority => SortKey::Number(
            match issue.priority {
                Some(p) => Some(p as u64),
                None => None,
            },
        ),
    }
}

fn project_sort_key(p: &Project, col: ProjectSortColumn) -> (r: SortKey)
    ensures
        r@ == project_key(*p, col),
{
    match col {
        ProjectSortColumn::Name => SortKey::Text(to_lowercase(p.name.as_str())),
        ProjectSortColumn::Status => SortKey::Text(owned(p.status_str())),
        ProjectSortColumn::Lead => SortKey::Text(owned(p.lead_str())),
        ProjectSortColumn::Progress => SortKey::Number(p.progress),
    }
}

fn lowered_contains(text: &str, lower_needle: &Vec<char>) -> (r: bool)
    ensures
        r == contains(lowercase(text@), lower_needle@),
{
    let l = to_lowercase(text);
    let lc = chars_of(l.as_str());
    contains_chars(lc.as_slice(), lower_needle.as_slice())
}

fn column_str(issue: &Issue, col: SortColumn) -> (r: &str)
    ensures
        r@ == column_text(*issue, col),
{
    match col {
        SortColumn::Identifier => issue.identifier.as_str(),
        SortColumn::Title => issue.title.as_str(),
        SortColumn::Project => issue.project_str(),
        SortColumn::Status => issue.status_str(),
        SortColumn::Priority => issue.priority_str(),
    }
}

fn issue_shown(
    issue: &Issue,
    filter: &Option<(SortColumn, String)>,
    lower_filter: &Vec<char>,
    search: &Option<String>,
    lower_search: &Vec<char>,
) -> (r: bool)
    requires
        filter matches Some((c, f)) ==> lower_filter@ == lowercase(f@),
        search matches Some(q) ==> lower_search@ == lowercase(q@),
    ensures
        r == shown(*issue, *filter, *search),
{
    let passes_filter = match filter {
        Some((col, _)) => lowered_contains(column_str(issue, *col), lower_filter),
        None => true,
    };
    if !passes_filter {
        return false;
    }
    match search {
        Some(_) => {
            lowered_contains(issue.identifier.as_str(), lower_search) || lowered_contains(
                issue.title.as_str(),
                lower_search,
            ) || lowered_contains(issue.project_str(), lower_search) || lowered_contains(
                issue.status_str(),
                lower_search,
            ) || lowered_contains(issue.priority_str(), lower_search)
        },
        None => true,
    }
}

/// The rows of `items` at the positions `order` lists.
fn pick_rows<'a, T>(items: &Vec<&'a T>, order: &Vec<usize>) -> (r: Vec<&'a T>)
    requires
        forall|k: int| 0 <= k < order@.len() ==> #[trigger] order@[k] < items@.len(),
    ensures
        r@.len() == order@.len(),
        forall|k: int| 0 <= k < r@.len() ==> r@[k] == items@[order@[k] as int],
{
    let mut r: Vec<&T> = Vec::new();
    let mut k: usize = 0;
    while k < order.len()
        invariant
            k <= order@.len(),
            forall|q: int| 0 <= q < order@.len() ==> #[trigger] order@[q] < items@.len(),
            r@.len() == k,
            forall|q: int| 0 <= q < k ==> r@[q] == items@[order@[q] as int],
        decreases order@.len() - k,
    {
        r.push(items[order[k]]);
        k = k + 1;
    }
    r
}

impl App {

    /// Whether the selected thread has session output to show.
    pub open spec fn thread_has_output(self) -> bool {
        &&& self.detail_section == DetailSection::Threads
        &&& self.detail_thread_selected < self.detail_threads@.len()
        &&& self.output_buffer.spec_lines_for(
            self.detail_threads@[self.detail_thread_selected as int].id@,
        ).len() > 0
    }

    /// How the next key press is read: the help overlay, an error, a typed
    /// message, the workspace picker, the pending prompts (quit, open, state,
    /// sort, filter) and the search and filter prompts take it in that
    /// order; otherwise the screen's own bindings do.
    pub open spec fn mode_of(self) -> InputMode {
        if self.show_help {
            InputMode::Help
        } else if self.error is Some {
            InputMode::Error
        } else if self.message_input_active {
            InputMode::MessageEntry
        } else if self.workspace_picker is Some {
            if self.workspace_picker->0.typing {
                InputMode::PathEntry
            } else {
                InputMode::WorkspaceList
            }
        } else if self.awaiting_quit {
            InputMode::QuitPending
        } else if self.awaiting_open {
            InputMode::OpenPending
        } else if self.awaiting_state_change {
            InputMode::StatePicker
        } else if self.awaiting_sort {
            if self.view == View::ProjectList {
                InputMode::ProjectSortPending
            } else {
                InputMode::SortPending
            }
        } else if self.awaiting_filter {
            InputMode::FilterPending
        } else if self.searching {
            InputMode::SearchEntry
        } else if self.filtering {
            InputMode::FilterEntry
        } else {
            InputMode::Browse {
                view: self.view,
                section: self.detail_section,
                has_search: self.search is Some,
                thread_has_output: self.thread_has_output(),
            }
        }
    }

    /// How the next key press is read.
    pub fn input_mode(&self) -> (r: InputMode)
        ensures
            r == self.mode_of(),
    {
        if self.show_help {
            InputMode::Help
        } else if self.error.is_some() {
            InputMode::Error
        } else if self.message_input_active {
            InputMode::MessageEntry
        } else if self.workspace_picker.is_some() {
            let typing = match &self.workspace_picker {
                Some(p) => p.typing,
                None => false,
            };
            if typing {
                InputMode::PathEntry
            } else {
                InputMode::WorkspaceList
            }
        } else if self.awaiting_quit {
            InputMode::QuitPending
        } else if self.awaiting_open {
            InputMode::OpenPending
        } else if self.awaiting_state_change {
            InputMode::StatePicker
        } else if self.awaiting_sort {
            if self.view == View::ProjectList {
                InputMode::ProjectSortPending
            } else {
                InputMode::SortPending
            }
        } else if self.awaiting_filter {
            InputMode::FilterPending
        } else if self.searching {
            InputMode::SearchEntry
        } else if self.filtering {
            InputMode::FilterEntry
        } else {
            let has_output = match self.selected_thread() {
                Some(t) => self.output_buffer.line_count(t.id.as_str()) > 0,
                None => false,
            };
            InputMode::Browse {
                view: self.view,
                section: self.detail_section,
                has_search: self.search.is_some(),
                thread_has_output: has_output,
            }
        }
    }

    /// What `press` does in the app's current input mode.
    pub fn command_for_key(&self, press: KeyPress) -> (r: Command)
        ensures
            r == key_command(self.mode_of(), press),
    {
        let mode = self.input_mode();
        command_for(mode, press)
    }
    /// The number of issues the list shows.
    pub open spec fn visible_count(&self) -> nat {
        kept_issues(self.issues@, self.filter, self.search).len()
    }

    /// A fresh interface: the user's issue list, nothing loaded, nothing
    /// selected, no filter, search or sort.
    pub fn new() -> (r: Self)
        ensures
            r.running,
            r.view == View::MyIssues,
            r.issues@.len() == 0,
            r.selected == 0,
            r.filter is None,
            r.sort is None,
            r.search is None,
            !r.loading,
            !r.refreshing,
            r.error is None,
            !r.show_help,
            !r.awaiting_open,
            r.detail_section == DetailSection::Body,
            r.detail_origin == DetailOrigin::MyIssues,
            r.workspace_picker is None,
            r.cache@ == Map::<Seq<char>, Vec<Issue>>::empty(),
            r.project_cache@ == Map::<Seq<char>, Vec<Project>>::empty(),
            r.projects@.len() == 0,
            r.project_issues@.len() == 0,
            r.detail_threads@.len() == 0,
            r.detail_session_runs@.len() == 0,
            r.filter_input@.len() == 0,
            r.filter_column is None,
            !r.filtering,
            !r.awaiting_quit,
            !r.awaiting_filter,
            !r.awaiting_sort,
            !r.awaiting_state_change,
            r.state_options@.len() == 0,
            r.state_selected == 0,
            r.search_input@.len() == 0,
            !r.searching,
            r.detail_scroll == 0,
            r.detail_scroll_max == 0,
            r.detail_thread_selected == 0,
            r.output_buffer.spec_lines() == Map::<Seq<char>, Seq<OutputLineView>>::empty(),
            r.detail_output_scroll == 0,
            r.detail_output_scroll_max == 0,
            !r.message_input_active,
            r.message_input@.len() == 0,
            r.project_selected == 0,
            r.project_sort is None,
            r.project_issue_selected == 0,
            r.cache.ttl_nanos() == CACHE_TTL_NANOS,
            r.project_cache.ttl_nanos() == CACHE_TTL_NANOS,
    {
        App {
            running: true,
            view: View::MyIssues,
            issues: Vec::new(),
            selected: 0,
            filter: None,
            filter_input: String::new(),
            filter_column: None,
            filtering: false,
            awaiting_quit: false,
            awaiting_filter: false,
            awaiting_sort: false,
            awaiting_open: false,
            awaiting_state_change: false,
            state_options: Vec::new(),
            state_selected: 0,
            sort: None,
            search: None,
            search_input: String::new(),
            searching: false,
            detail_scroll: 0,
            detail_scroll_max: 0,
            refreshing: false,
            loading: false,
            error: None,
            detail_section: DetailSection::Body,
            detail_threads: Vec::new(),
            detail_thread_selected: 0,
            detail_session_runs: Vec::new(),
            workspace_picker: None,
            output_buffer: SessionOutputBuffer::new(),
            detail_output_scroll: 0,
            detail_output_scroll_max: 0,
            message_input_active: false,
            message_input: String::new(),
            show_help: false,
            cache: ResponseCache::with_ttl_nanos(CACHE_TTL_NANOS),
            projects: Vec::new(),
            project_selected: 0,
            project_sort: None,
            project_cache: ResponseCache::with_ttl_nanos(CACHE_TTL_NANOS),
            project_issues: Vec::new(),
            project_issue_selected: 0,
            detail_origin: DetailOrigin::MyIssues,
        }
    }

    /// The issues the list shows: those passing the column filter and the
    /// search (both case-insensitive), in a stable order by the sort column
    /// when there is one.
    pub fn filtered_issues(&self) -> (r: Vec<&Issue>)
        ensures
            arranged(
                kept_issues(self.issues@, self.filter, self.search),
                match self.sort {
                    Some((col, _)) => issue_keys(kept_issues(self.issues@, self.filter, self.search), col),
                    None => Seq::empty(),
                },
                match self.sort {
                    Some((_, d)) => Some(d == SortDirection::Desc),
                    None => None,
                },
                r@.map_values(|i: &Issue| *i),
            ),
    {
        let ghost want = kept_issues(self.issues@, self.filter, self.search);
        let lower_filter = match &self.filter {
            Some((_, f)) => chars_of(to_lowercase(f.as_str()).as_str()),
            None => Vec::new(),
        };
        let lower_search = match &self.search {
            Some(q) => chars_of(to_lowercase(q.as_str()).as_str()),
            None => Vec::new(),
        };
        let mut kept: Vec<&Issue> = Vec::new();
        let mut i: usize = 0;
        while i < self.issues.len()
            invariant
                i <= self.issues@.len(),
                self.filter matches Some((c, f)) ==> lower_filter@ == lowercase(f@),
                self.search matches Some(q) ==> lower_search@ == lowercase(q@),
                kept@.map_values(|x: &Issue| *x) == kept_issues(
                    self.issues@.take(i as int),
                    self.filter,
                    self.search,
                ),
            decreases self.issues@.len() - i,
        {
            proof {
                assert(self.issues@.take(i + 1).drop_last() =~= self.issues@.take(i as int));
            }
            let issue = &self.issues[i];
            let ghost before = kept@;
            if issue_shown(issue, &self.filter, &lower_filter, &self.search, &lower_search) {
                kept.push(issue);
                proof {
                    assert(kept@.map_values(|x: &Issue| *x) =~= before.map_values(|x: &Issue| *x).push(
                        *issue,
                    ));
                }
            }
            i = i + 1;
        }
        assert(self.issues@.take(self.issues@.len() as int) =~= self.issues@);
        let ghost ks = kept@.map_values(|x: &Issue| *x);
        match self.sort {
            None => {
                assert(ks == want);
                kept
            },
            Some((col, dir)) => {
                let mut keys: Vec<SortKey> = Vec::new();
                let mut k: usize = 0;
                while k < kept.len()
                    invariant
                        k <= kept@.len(),
                        ks == kept@.map_values(|x: &Issue| *x),
                        keys_view(keys@) == issue_keys(ks.take(k as int), col),
                    decreases kept@.len() - k,
                {
                    let key = issue_sort_key(kept[k], col);
                    let ghost prev = keys@;
                    keys.push(key);
                    proof {
                        assert(ks[k as int] == *kept@[k as int]);
                        assert(keys@ =~= prev.push(key));
                        assert(ks.take(k + 1) =~= ks.take(k as int).push(ks[k as int]));
                        assert(keys_view(keys@) =~= keys_view(prev).push(key@));
                        assert(issue_keys(ks.take(k + 1), col) =~= issue_keys(ks.take(k as int), col).push(
                            issue_key(ks[k as int], col),
                        ));
                    }
                    k = k + 1;
                }
                assert(ks.take(kept@.len() as int) =~= ks);
                proof {
                    let kv = keys_view(keys@);
                    if col == SortColumn::Priority {
                        assert(forall|q: int| 0 <= q < kv.len() ==> #[trigger] kv[q] is Number);
                    } else {
                        assert(forall|q: int| 0 <= q < kv.len() ==> #[trigger] kv[q] is Text);
                    }
                }
                let descending = match dir {
                    SortDirection::Desc => true,
                    SortDirection::Asc => false,
                };
                let order = stable_order(keys.as_slice(), descending);
                let ghost o = order@.map_values(|q: usize| q as int);
                assert forall|q: int| 0 <= q < order@.len() implies #[trigger] order@[q]
                    < kept@.len() by {
                    assert(o[q] == order@[q] as int);
                }
                let rows = pick_rows(&kept, &order);
                proof {
                    let rs = rows@.map_values(|x: &Issue| *x);
                    assert forall|q: int| 0 <= q < rs.len() implies rs[q] == ks[o[q]] by {
                        assert(o[q] == order@[q] as int);
                    }
                    assert(is_stable_order(issue_keys(ks, col), descending, o));
                    assert(ks == want);
                    assert(rs.len() == ks.len());
                    assert(rows_in_order(ks, issue_keys(ks, col), descending, rs, o));
                    assert(sorted_rows(ks, issue_keys(ks, col), descending, rs));
                }
                rows
            },
        }
    }
}

impl App {
    /// Chooses the sort column: the same column again flips the direction,
    /// another sorts ascending by it. The cursor goes to the top.
    pub fn set_sort(&mut self, col: SortColumn)
        ensures
            *final(self) == (App { sort: next_sort(old(self).sort, col), selected: 0, ..*old(self) }),
    {
        self.sort = Some(
            match self.sort {
                Some((c, dir)) => if c == col {
                    (col, dir.toggle())
                } else {
                    (col, SortDirection::Asc)
                },
                None => (col, SortDirection::Asc),
            },
        );
        self.selected = 0;
    }

    /// Moves the cursor down the shown issues, stopping at the last one.
    pub fn move_down(&mut self)
        ensures
            *final(self) == (App {
                selected: selection_down(old(self).visible_count(), old(self).selected as nat) as usize,
                ..*old(self)
            }),
    {
        let len = self.filtered_issues().len();
        if len > 0 && self.selected < len - 1 {
            self.selected = self.selected + 1;
        }
    }

    /// Moves the cursor up, stopping at the first issue.
    pub fn move_up(&mut self)
        ensures
            *final(self) == (App {
                selected: selection_up(old(self).selected as nat) as usize,
                ..*old(self)
            }),
    {
        if self.selected > 0 {
            self.selected = self.selected - 1;
        }
    }

    /// Moves the cursor to the first issue.
    pub fn top(&mut self)
        ensures
            *final(self) == (App { selected: 0, ..*old(self) }),
    {
        self.selected = 0;
    }

    /// Moves the cursor to the last shown issue (when there is one).
    pub fn bottom(&mut self)
        ensures
            *final(self) == (App {
                selected: if old(self).visible_count() > 0 {
                    (old(self).visible_count() - 1) as usize
                } else {
                    old(self).selected
                },
                ..*old(self)
            }),
    {
        let len = self.filtered_issues().len();
        if len > 0 {
            self.selected = len - 1;
        }
    }

    /// Starts typing a search.
    pub fn start_search(&mut self)
        ensures
            *final(self) == (App { searching: true, search_input: final(self).search_input, ..*old(self) }),
            final(self).search_input@ == Seq::<char>::empty(),
    {
        self.searching = true;
        self.search_input = String::new();
    }

    /// Applies the typed search (an empty one clears it); the cursor goes
    /// to the top.
    pub fn apply_search(&mut self)
        ensures
            *final(self) == (App {
                searching: false,
                search: final(self).search,
                selected: 0,
                ..*old(self)
            }),
            old(self).search_input@.len() == 0 ==> final(self).search is None,
            old(self).search_input@.len() > 0 ==> final(self).search == Some(old(self).search_input),
    {
        self.searching = false;
        if self.search_input.as_str().unicode_len() == 0 {
            self.search = None;
        } else {
            self.search = Some(self.search_input.clone());
        }
        self.selected = 0;
    }

    /// Stops typing a search, discarding the input.
    pub fn cancel_search(&mut self)
        ensures
            *final(self) == (App { searching: false, search_input: final(self).search_input, ..*old(self) }),
            final(self).search_input@ == Seq::<char>::empty(),
    {
        self.searching = false;
        self.search_input = String::new();
    }

    /// Removes the search; the cursor goes to the top.
    pub fn clear_search(&mut self)
        ensures
            *final(self) == (App {
                search: None,
                search_input: final(self).search_input,
                selected: 0,
                ..*old(self)
            }),
            final(self).search_input@ == Seq::<char>::empty(),
    {
        self.search = None;
        self.search_input = String::new();
        self.selected = 0;
    }

    /// Starts typing a filter on the title column.
    pub fn start_filter(&mut self)
        ensures
            *final(self) == (App {
                filter_column: Some(SortColumn::Title),
                filtering: true,
                filter_input: final(self).filter_input,
                ..*old(self)
            }),
            final(self).filter_input@ == Seq::<char>::empty(),
    {
        self.start_column_filter(SortColumn::Title);
    }

    /// Starts typing a filter on `col`.
    pub fn start_column_filter(&mut self, col: SortColumn)
        ensures
            *final(self) == (App {
                filter_column: Some(col),
                filtering: true,
                filter_input: final(self).filter_input,
                ..*old(self)
            }),
            final(self).filter_input@ == Seq::<char>::empty(),
    {
        self.filter_column = Some(col);
        self.filtering = true;
        self.filter_input = String::new();
    }

    /// Applies the typed filter to the chosen column (an empty one clears
    /// the filter); the cursor goes to the top.
    #[verifier::rlimit(40)]
    pub fn apply_filter(&mut self)
        ensures
            *final(self) == (App {
                filtering: false,
                filter: final(self).filter,
                filter_column: None,
                selected: 0,
                ..*old(self)
            }),
            old(self).filter_input@.len() == 0 ==> final(self).filter is None,
            old(self).filter_input@.len() > 0 ==> final(self).filter == match old(self).filter_column {
                Some(col) => Some((col, old(self).filter_input)),
                None => old(self).filter,
            },
    {
        let empty = self.filter_input.as_str().unicode_len() == 0;
        self.filtering = false;
        if empty {
            self.filter = None;
        } else {
            match self.filter_column {
                Some(col) => {
                    let f = self.filter_input.clone();
                    self.filter = Some((col, f));
                },
                None => {},
            }
        }
        self.filter_column = None;
        self.selected = 0;
    }

    /// Stops typing a filter, discarding the input.
    pub fn cancel_filter(&mut self)
        ensures
            *final(self) == (App { filtering: false, filter_input: final(self).filter_input, ..*old(self) }),
            final(self).filter_input@ == Seq::<char>::empty(),
    {
        self.filtering = false;
        self.filter_input = String::new();
    }

    /// Removes the filter; the cursor goes to the top.
    pub fn clear_filter(&mut self)
        ensures
            *final(self) == (App {
                filter: None,
                filter_column: None,
                filter_input: final(self).filter_input,
                selected: 0,
                ..*old(self)
            }),
            final(self).filter_input@ == Seq::<char>::empty(),
    {
        self.filter = None;
        self.filter_column = None;
        self.filter_input = String::new();
        self.selected = 0;
    }

    /// Opens the issue under the cursor in the detail view (when the cursor
    /// is on a shown issue).
    pub fn select_issue(&mut self)
        ensures
            old(self).selected < old(self).visible_count() ==> *final(self) == (App {
                view: View::Detail,
                detail_scroll: 0,
                detail_section: DetailSection::Body,
                detail_thread_selected: 0,
                detail_origin: DetailOrigin::MyIssues,
                ..*old(self)
            }),
            old(self).selected >= old(self).visible_count() ==> *final(self) == *old(self),
    {
        let len = self.filtered_issues().len();
        if self.selected < len {
            self.view = View::Detail;
            self.detail_scroll = 0;
            self.detail_section = DetailSection::Body;
            self.detail_thread_selected = 0;
            self.detail_origin = DetailOrigin::MyIssues;
        }
    }

    /// Leaves the detail view for the list it was entered from, dropping
    /// the thread data and any message being typed.
    pub fn back_to_list(&mut self)
        ensures
            *final(self) == (App {
                view: match old(self).detail_origin {
                    DetailOrigin::MyIssues => View::MyIssues,
                    DetailOrigin::ProjectDetail => View::ProjectDetail,
                },
                detail_scroll: 0,
                detail_section: DetailSection::Body,
                detail_threads: final(self).detail_threads,
                detail_thread_selected: 0,
                detail_session_runs: final(self).detail_session_runs,
                detail_output_scroll: 0,
                detail_output_scroll_max: 0,
                message_input_active: false,
                message_input: final(self).message_input,
                ..*old(self)
            }),
            final(self).detail_threads@.len() == 0,
            final(self).detail_session_runs@.len() == 0,
            final(self).message_input@ == Seq::<char>::empty(),
    {
        self.view = match self.detail_origin {
            DetailOrigin::MyIssues => View::MyIssues,
            DetailOrigin::ProjectDetail => View::ProjectDetail,
        };
        self.detail_scroll = 0;
        self.detail_section = DetailSection::Body;
        self.detail_threads = Vec::new();
        self.detail_thread_selected = 0;
        self.detail_session_runs = Vec::new();
        self.detail_output_scroll = 0;
        self.detail_output_scroll_max = 0;
        self.message_input_active = false;
        self.message_input = String::new();
    }

    /// Scrolls the detail text down by a line, up to its maximum.
    pub fn scroll_detail_down(&mut self)
        ensures
            *final(self) == (App {
                detail_scroll: if old(self).detail_scroll < old(self).detail_scroll_max {
                    (old(self).detail_scroll + 1) as u16
                } else {
                    old(self).detail_scroll
                },
                ..*old(self)
            }),
    {
        if self.detail_scroll < self.detail_scroll_max {
            self.detail_scroll = self.detail_scroll + 1;
        }
    }

    /// Scrolls the detail text up by a line, stopping at the top.
    pub fn scroll_detail_up(&mut self)
        ensures
            *final(self) == (App {
                detail_scroll: if old(self).detail_scroll > 0 {
                    (old(self).detail_scroll - 1) as u16
                } else {
                    0
                },
                ..*old(self)
            }),
    {
        if self.detail_scroll > 0 {
            self.detail_scroll = self.detail_scroll - 1;
        }
    }

    /// Selects the next thread, stopping at the last one.
    pub fn thread_move_down(&mut self)
        ensures
            *final(self) == (App {
                detail_thread_selected: selection_down(
                    old(self).detail_threads@.len(),
                    old(self).detail_thread_selected as nat,
                ) as usize,
                ..*old(self)
            }),
    {
        let len = self.detail_threads.len();
        if len > 0 && self.detail_thread_selected < len - 1 {
            self.detail_thread_selected = self.detail_thread_selected + 1;
        }
    }

    /// Selects the previous thread, stopping at the first one.
    pub fn thread_move_up(&mut self)
        ensures
            *final(self) == (App {
                detail_thread_selected: selection_up(old(self).detail_thread_selected as nat) as usize,
                ..*old(self)
            }),
    {
        if self.detail_thread_selected > 0 {
            self.detail_thread_selected = self.detail_thread_selected - 1;
        }
    }

    /// The selected thread, when the threads section has the focus.
    pub fn selected_thread(&self) -> (r: Option<&ThreadSummary>)
        ensures
            r is Some == (self.detail_section == DetailSection::Threads
                && self.detail_thread_selected < self.detail_threads@.len()),
            r matches Some(t) ==> *t == self.detail_threads@[self.detail_thread_selected as int],
    {
        if self.detail_section == DetailSection::Threads
            && self.detail_thread_selected < self.detail_threads.len() {
            Some(&self.detail_threads[self.detail_thread_selected])
        } else {
            None
        }
    }
}

/// The newest run of thread `id`: of the runs with the greatest creation
/// time, the last one listed.
pub open spec fn latest_run_index(runs: Seq<SessionRunSummary>, id: Seq<char>) -> Option<int>
    decreases runs.len(),
{
    if runs.len() == 0 {
        None
    } else {
        let prev = latest_run_index(runs.drop_last(), id);
        if runs.last().thread_id@ == id {
            match prev {
                Some(p) => if runs.last().created_at_ms >= runs[p].created_at_ms {
                    Some(runs.len() - 1)
                } else {
                    Some(p)
                },
                None => Some(runs.len() - 1),
            }
        } else {
            prev
        }
    }
}

proof fn lemma_latest_run_index(runs: Seq<SessionRunSummary>, id: Seq<char>)
    ensures
        latest_run_index(runs, id) matches Some(p) ==> 0 <= p < runs.len(),
    decreases runs.len(),
{
    if runs.len() > 0 {
        lemma_latest_run_index(runs.drop_last(), id);
    }
}

/// The most prominent status among the runs of thread `id`, taken in list
/// order; none when it has no runs.
pub open spec fn best_status(runs: Seq<SessionRunSummary>, id: Seq<char>) -> Option<SessionRunStatus>
    decreases runs.len(),
{
    if runs.len() == 0 {
        None
    } else {
        let prev = best_status(runs.drop_last(), id);
        if runs.last().thread_id@ == id {
            Some(
                match prev {
                    Some(p) => displayed_status(p, runs.last().status),
                    None => runs.last().status,
                },
            )
        } else {
            prev
        }
    }
}

/// How many runs have status `s`.
pub open spec fn count_status(runs: Seq<SessionRunSummary>, s: SessionRunStatus) -> nat
    decreases runs.len(),
{
    if runs.len() == 0 {
        0
    } else {
        count_status(runs.drop_last(), s) + if runs.last().status == s {
            1nat
        } else {
            0nat
        }
    }
}

impl App {
    /// `r` is the issue the current view is about: the selected project
    /// issue in the project views, else the shown issue under the cursor.
    pub open spec fn is_context_issue(&self, r: Option<Issue>) -> bool {
        if self.view == View::ProjectDetail || (self.view == View::Detail && self.detail_origin
            == DetailOrigin::ProjectDetail) {
            r == if self.project_issue_selected < self.project_issues@.len() {
                Some(self.project_issues@[self.project_issue_selected as int])
            } else {
                None
            }
        } else {
            &&& r is Some == (self.selected < self.visible_count())
            &&& r matches Some(i) ==> exists|rows: Seq<Issue>|
                #[trigger] self.shown_rows(rows) && rows[self.selected as int] == i
        }
    }

    /// `rows` is the issue list as shown.
    pub open spec fn shown_rows(&self, rows: Seq<Issue>) -> bool {
        arranged(
            kept_issues(self.issues@, self.filter, self.search),
            match self.sort {
                Some((col, _)) => issue_keys(kept_issues(self.issues@, self.filter, self.search), col),
                None => Seq::empty(),
            },
            match self.sort {
                Some((_, d)) => Some(d == SortDirection::Desc),
                None => None,
            },
            rows,
        )
    }

    proof fn lemma_shown_rows_len(&self, rows: Seq<Issue>)
        requires
            self.shown_rows(rows),
        ensures
            rows.len() == self.visible_count(),
    {
        if let Some((col, d)) = self.sort {
            let kept = kept_issues(self.issues@, self.filter, self.search);
            let desc = d == SortDirection::Desc;
            let o = choose|o: Seq<int>| #[trigger] rows_in_order(kept, issue_keys(kept, col), desc, rows, o);
        }
    }

    /// The newest run of thread `thread_id` (the last listed of those
    /// created last).
    pub fn latest_run_for_thread(&self, thread_id: &str) -> (r: Option<&SessionRunSummary>)
        ensures
            match latest_run_index(self.detail_session_runs@, thread_id@) {
                Some(p) => r matches Some(x) && *x == self.detail_session_runs@[p],
                None => r is None,
            },
    {
        let ghost runs = self.detail_session_runs@;
        let mut best: Option<usize> = None;
        let mut i: usize = 0;
        while i < self.detail_session_runs.len()
            invariant
                runs == self.detail_session_runs@,
                i <= runs.len(),
                match best {
                    Some(b) => latest_run_index(runs.take(i as int), thread_id@) == Some(b as int),
                    None => latest_run_index(runs.take(i as int), thread_id@) is None,
                },
            decreases runs.len() - i,
        {
            proof {
                assert(runs.take(i + 1).drop_last() =~= runs.take(i as int));
                lemma_latest_run_index(runs.take(i as int), thread_id@);
            }
            let run = &self.detail_session_runs[i];
            if str_eq(run.thread_id.as_str(), thread_id) {
                best = match best {
                    Some(b) => if run.created_at_ms >= self.detail_session_runs[b].created_at_ms {
                        Some(i)
                    } else {
                        Some(b)
                    },
                    None => Some(i),
                };
            }
            i = i + 1;
        }
        proof {
            assert(runs.take(runs.len() as int) =~= runs);
            lemma_latest_run_index(runs, thread_id@);
        }
        match best {
            Some(b) => Some(&self.detail_session_runs[b]),
            None => None,
        }
    }

    /// The newest run of the selected thread.
    pub fn selected_thread_run(&self) -> (r: Option<&SessionRunSummary>)
        ensures
            !(self.detail_section == DetailSection::Threads && self.detail_thread_selected
                < self.detail_threads@.len()) ==> r is None,
            self.detail_section == DetailSection::Threads && self.detail_thread_selected
                < self.detail_threads@.len() ==> match latest_run_index(
                self.detail_session_runs@,
                self.detail_threads@[self.detail_thread_selected as int].id@,
            ) {
                Some(p) => r matches Some(x) && *x == self.detail_session_runs@[p],
                None => r is None,
            },
    {
        match self.selected_thread() {
            Some(thread) => self.latest_run_for_thread(thread.id.as_str()),
            None => None,
        }
    }

    /// The most prominent status among the runs of `thread_id`: running,
    /// then pending, failed, stale, completed.
    pub fn run_status_for_thread(&self, thread_id: &str) -> (r: Option<SessionRunStatus>)
        ensures
            r == best_status(self.detail_session_runs@, thread_id@),
    {
        let ghost runs = self.detail_session_runs@;
        let mut best: Option<SessionRunStatus> = None;
        let mut i: usize = 0;
        while i < self.detail_session_runs.len()
            invariant
                runs == self.detail_session_runs@,
                i <= runs.len(),
                best == best_status(runs.take(i as int), thread_id@),
            decreases runs.len() - i,
        {
            proof {
                assert(runs.take(i + 1).drop_last() =~= runs.take(i as int));
            }
            let run = &self.detail_session_runs[i];
            if str_eq(run.thread_id.as_str(), thread_id) {
                best = Some(
                    match best {
                        None => run.status,
                        Some(prev) => pick_display_status(prev, run.status),
                    },
                );
            }
            i = i + 1;
        }
        assert(runs.take(runs.len() as int) =~= runs);
        best
    }

    /// How many runs of the current issue are running and how many pending.
    pub fn active_run_counts(&self) -> (r: (usize, usize))
        ensures
            r.0 == count_status(self.detail_session_runs@, SessionRunStatus::Running),
            r.1 == count_status(self.detail_session_runs@, SessionRunStatus::Pending),
    {
        let ghost runs = self.detail_session_runs@;
        let mut running: usize = 0;
        let mut pending: usize = 0;
        let mut i: usize = 0;
        while i < self.detail_session_runs.len()
            invariant
                runs == self.detail_session_runs@,
                i <= runs.len(),
                running == count_status(runs.take(i as int), SessionRunStatus::Running),
                pending == count_status(runs.take(i as int), SessionRunStatus::Pending),
                running <= i,
                pending <= i,
            decreases runs.len() - i,
        {
            proof {
                assert(runs.take(i + 1).drop_last() =~= runs.take(i as int));
            }
            let status = self.detail_session_runs[i].status;
            if status == SessionRunStatus::Running {
                running = running + 1;
            }
            if status == SessionRunStatus::Pending {
                pending = pending + 1;
            }
            i = i + 1;
        }
        assert(runs.take(runs.len() as int) =~= runs);
        (running, pending)
    }

    /// Gives the threads section the focus, when there are threads.
    pub fn focus_threads(&mut self)
        ensures
            *final(self) == (App {
                detail_section: if old(self).detail_threads@.len() > 0 {
                    DetailSection::Threads
                } else {
                    old(self).detail_section
                },
                ..*old(self)
            }),
    {
        if self.detail_threads.len() > 0 {
            self.detail_section = DetailSection::Threads;
        }
    }

    /// Gives the issue body the focus.
    pub fn focus_body(&mut self)
        ensures
            *final(self) == (App { detail_section: DetailSection::Body, ..*old(self) }),
    {
        self.detail_section = DetailSection::Body;
    }

    /// Gives the output section the focus, when the selected thread has
    /// output; it starts scrolled to the top.
    pub fn focus_output(&mut self)
        ensures
            ({
                let with_output = old(self).detail_section == DetailSection::Threads
                    && old(self).detail_thread_selected < old(self).detail_threads@.len()
                    && old(self).output_buffer.spec_lines_for(
                    old(self).detail_threads@[old(self).detail_thread_selected as int].id@,
                ).len() > 0;
                &&& with_output ==> *final(self) == (App {
                    detail_section: DetailSection::Output,
                    detail_output_scroll: 0,
                    ..*old(self)
                })
                &&& !with_output ==> *final(self) == *old(self)
            }),
    {
        let show = match self.selected_thread() {
            Some(t) => self.output_buffer.line_count(t.id.as_str()) > 0,
            None => false,
        };
        if show {
            self.detail_section = DetailSection::Output;
            self.detail_output_scroll = 0;
        }
    }

    /// The output lines of the selected thread (none when no thread is
    /// selected).
    pub fn selected_thread_output(&self) -> (r: &[OutputLine])
        ensures
            lines_view(r@) == if self.detail_section == DetailSection::Threads
                && self.detail_thread_selected < self.detail_threads@.len() {
                self.output_buffer.spec_lines_for(
                    self.detail_threads@[self.detail_thread_selected as int].id@,
                )
            } else {
                Seq::<OutputLineView>::empty()
            },
    {
        match self.selected_thread() {
            Some(t) => self.output_buffer.lines_for(t.id.as_str()),
            None => {
                assert(lines_view(Seq::<OutputLine>::empty()) =~= Seq::<OutputLineView>::empty());
                &[]
            },
        }
    }

    /// Scrolls the output down by a line, up to its maximum.
    pub fn scroll_output_down(&mut self)
        ensures
            *final(self) == (App {
                detail_output_scroll: if old(self).detail_output_scroll
                    < old(self).detail_output_scroll_max {
                    (old(self).detail_output_scroll + 1) as u16
                } else {
                    old(self).detail_output_scroll
                },
                ..*old(self)
            }),
    {
        if self.detail_output_scroll < self.detail_output_scroll_max {
            self.detail_output_scroll = self.detail_output_scroll + 1;
        }
    }

    /// Scrolls the output up by a line, stopping at the top.
    pub fn scroll_output_up(&mut self)
        ensures
            *final(self) == (App {
                detail_output_scroll: if old(self).detail_output_scroll > 0 {
                    (old(self).detail_output_scroll - 1) as u16
                } else {
                    0
                },
                ..*old(self)
            }),
    {
        if self.detail_output_scroll > 0 {
            self.detail_output_scroll = self.detail_output_scroll - 1;
        }
    }

    /// Scrolls the output to its bottom.
    pub fn scroll_output_to_bottom(&mut self)
        ensures
            *final(self) == (App {
                detail_output_scroll: old(self).detail_output_scroll_max,
                ..*old(self)
            }),
    {
        self.detail_output_scroll = self.detail_output_scroll_max;
    }

    /// Opens the message input bar with an empty message.
    pub fn start_message_input(&mut self)
        ensures
            *final(self) == (App {
                message_input_active: true,
                message_input: final(self).message_input,
                ..*old(self)
            }),
            final(self).message_input@ == Seq::<char>::empty(),
    {
        self.message_input_active = true;
        self.message_input = String::new();
    }

    /// Closes the message input bar, discarding the message.
    pub fn cancel_message_input(&mut self)
        ensures
            *final(self) == (App {
                message_input_active: false,
                message_input: final(self).message_input,
                ..*old(self)
            }),
            final(self).message_input@ == Seq::<char>::empty(),
    {
        self.message_input_active = false;
        self.message_input = String::new();
    }

    /// Sends the typed message, trimmed, to the selected thread: it is
    /// added to the thread's output as a user message and returned with
    /// the thread's ID for the caller to forward. An empty message is
    /// dropped; without a selected thread the message stays typed.
    pub fn submit_message_input(&mut self) -> (r: Option<(String, String)>)
        ensures
            ({
                let text = trim(old(self).message_input@);
                let sel = old(self).detail_thread_selected as int;
                let has_thread = sel < old(self).detail_threads@.len();
                &&& text.len() == 0 ==> r is None && *final(self) == (App {
                    message_input_active: false,
                    message_input: final(self).message_input,
                    ..*old(self)
                }) && final(self).message_input@ == Seq::<char>::empty()
                &&& text.len() > 0 && !has_thread ==> r is None && *final(self) == (App {
                    message_input_active: false,
                    ..*old(self)
                })
                &&& text.len() > 0 && has_thread ==> {
                    let id = old(self).detail_threads@[sel].id@;
                    &&& r matches Some((t, m)) && t@ == id && m@ == text
                    &&& *final(self) == (App {
                        message_input_active: false,
                        message_input: final(self).message_input,
                        output_buffer: final(self).output_buffer,
                        ..*old(self)
                    })
                    &&& final(self).message_input@ == Seq::<char>::empty()
                    &&& final(self).output_buffer.spec_lines() == old(
                        self,
                    ).output_buffer.spec_lines().insert(
                        id,
                        old(self).output_buffer.spec_lines_for(id)
                            + crate::amp::output::user_message_lines(text),
                    )
                }
            }),
    {
        self.message_input_active = false;
        let text = trim_str(self.message_input.as_str());
        if text.as_str().unicode_len() == 0 {
            self.message_input = String::new();
            return None;
        }
        if self.detail_thread_selected >= self.detail_threads.len() {
            return None;
        }
        let thread_id = self.detail_threads[self.detail_thread_selected].id.clone();
        proof {
            crate::text::lemma_lines_nonempty(text@);
        }
        self.output_buffer.push_user_message(thread_id.as_str(), text.as_str());
        self.message_input = String::new();
        Some((thread_id, text))
    }

    /// Opens the workspace picker over `workspaces`.
    pub fn show_workspace_picker(&mut self, workspaces: Vec<String>)
        ensures
            *final(self) == (App { workspace_picker: final(self).workspace_picker, ..*old(self) }),
            final(self).workspace_picker matches Some(p) && p.options@ == workspaces@
                && p.original() == workspaces@ && p.selected == 0 && !p.typing && p.input@
                == Seq::<char>::empty(),
    {
        self.workspace_picker = Some(WorkspacePicker::new(workspaces));
    }

    /// Closes the workspace picker.
    pub fn cancel_workspace_picker(&mut self)
        ensures
            *final(self) == (App { workspace_picker: None, ..*old(self) }),
    {
        self.workspace_picker = None;
    }

    /// Shows or hides the help overlay.
    pub fn toggle_help(&mut self)
        ensures
            *final(self) == (App { show_help: !old(self).show_help, ..*old(self) }),
    {
        self.show_help = !self.show_help;
    }

    /// Hides the help overlay.
    pub fn dismiss_help(&mut self)
        ensures
            *final(self) == (App { show_help: false, ..*old(self) }),
    {
        self.show_help = false;
    }

    /// The issue the current view is about.
    pub fn context_issue(&self) -> (r: Option<&Issue>)
        ensures
            self.is_context_issue(
                match r {
                    Some(i) => Some(*i),
                    None => None,
                },
            ),
    {
        let from_project = match self.view {
            View::ProjectDetail => true,
            View::Detail => match self.detail_origin {
                DetailOrigin::ProjectDetail => true,
                DetailOrigin::MyIssues => false,
            },
            _ => false,
        };
        if from_project {
            self.selected_project_issue()
        } else {
            let issues = self.filtered_issues();
            let ghost rows = issues@.map_values(|i: &Issue| *i);
            proof {
                assert(self.shown_rows(rows));
                self.lemma_shown_rows_len(rows);
            }
            if self.selected < issues.len() {
                let r = issues[self.selected];
                assert(rows[self.selected as int] == *r);
                Some(r)
            } else {
                None
            }
        }
    }

    /// The issue the current view is about.
    pub fn selected_issue(&self) -> (r: Option<&Issue>)
        ensures
            self.is_context_issue(
                match r {
                    Some(i) => Some(*i),
                    None => None,
                },
            ),
    {
        self.context_issue()
    }

    /// The link of the issue the current view is about.
    pub fn selected_issue_url(&self) -> (r: Option<String>)
        ensures
            exists|c: Option<Issue>|
                #[trigger] self.is_context_issue(c) && r == match c {
                    Some(i) => i.url,
                    None => None,
                },
    {
        let c = self.context_issue();
        let r = match c {
            Some(i) => copy_opt(&i.url),
            None => None,
        };
        assert(self.is_context_issue(
            match c {
                Some(i) => Some(*i),
                None => None,
            },
        ));
        r
    }

    /// Shows the project list.
    pub fn switch_to_projects(&mut self)
        ensures
            *final(self) == (App { view: View::ProjectList, ..*old(self) }),
    {
        self.view = View::ProjectList;
    }

    /// Shows the user's issues.
    pub fn switch_to_my_issues(&mut self)
        ensures
            *final(self) == (App { view: View::MyIssues, ..*old(self) }),
    {
        self.view = View::MyIssues;
    }

    /// The selected project issue.
    pub fn selected_project_issue(&self) -> (r: Option<&Issue>)
        ensures
            r is Some == (self.project_issue_selected < self.project_issues@.len()),
            r matches Some(i) ==> *i == self.project_issues@[self.project_issue_selected as int],
    {
        if self.project_issue_selected < self.project_issues.len() {
            Some(&self.project_issues[self.project_issue_selected])
        } else {
            None
        }
    }
}

impl App {
    /// The projects as shown: in a stable order by the project sort column
    /// when there is one.
    pub fn sorted_projects(&self) -> (r: Vec<&Project>)
        ensures
            arranged(
                self.projects@,
                match self.project_sort {
                    Some((col, _)) => project_keys(self.projects@, col),
                    None => Seq::empty(),
                },
                match self.project_sort {
                    Some((_, d)) => Some(d == SortDirection::Desc),
                    None => None,
                },
                r@.map_values(|p: &Project| *p),
            ),
    {
        let ghost ps = self.projects@;
        let mut all: Vec<&Project> = Vec::new();
        let mut i: usize = 0;
        while i < self.projects.len()
            invariant
                ps == self.projects@,
                i <= ps.len(),
                all@.map_values(|p: &Project| *p) == ps.take(i as int),
            decreases ps.len() - i,
        {
            let ghost before = all@;
            all.push(&self.projects[i]);
            proof {
                assert(all@.map_values(|p: &Project| *p) =~= before.map_values(|p: &Project| *p).push(
                    ps[i as int],
                ));
                assert(ps.take(i + 1) =~= ps.take(i as int).push(ps[i as int]));
            }
            i = i + 1;
        }
        assert(ps.take(ps.len() as int) =~= ps);
        match self.project_sort {
            None => all,
            Some((col, dir)) => {
                let mut keys: Vec<SortKey> = Vec::new();
                let mut k: usize = 0;
                while k < self.projects.len()
                    invariant
                        ps == self.projects@,
                        k <= ps.len(),
                        keys_view(keys@) == project_keys(ps.take(k as int), col),
                    decreases ps.len() - k,
                {
                    let key = project_sort_key(&self.projects[k], col);
                    let ghost prev = keys@;
                    keys.push(key);
                    proof {
                        assert(keys@ =~= prev.push(key));
                        assert(ps.take(k + 1) =~= ps.take(k as int).push(ps[k as int]));
                        assert(keys_view(keys@) =~= keys_view(prev).push(key@));
                        assert(project_keys(ps.take(k + 1), col) =~= project_keys(
                            ps.take(k as int),
                            col,
                        ).push(project_key(ps[k as int], col)));
                    }
                    k = k + 1;
                }
                proof {
                    let kv = keys_view(keys@);
                    if col == ProjectSortColumn::Progress {
                        assert(forall|q: int| 0 <= q < kv.len() ==> #[trigger] kv[q] is Number);
                    } else {
                        assert(forall|q: int| 0 <= q < kv.len() ==> #[trigger] kv[q] is Text);
                    }
                }
                let descending = match dir {
                    SortDirection::Desc => true,
                    SortDirection::Asc => false,
                };
                let order = stable_order(keys.as_slice(), descending);
                let ghost o = order@.map_values(|q: usize| q as int);
                assert forall|q: int| 0 <= q < order@.len() implies #[trigger] order@[q]
                    < all@.len() by {
                    assert(o[q] == order@[q] as int);
                }
                let rows = pick_rows(&all, &order);
                proof {
                    let rs = rows@.map_values(|x: &Project| *x);
                    assert forall|q: int| 0 <= q < rs.len() implies rs[q] == ps[o[q]] by {
                        assert(o[q] == order@[q] as int);
                    }
                    assert(rows_in_order(ps, project_keys(ps, col), descending, rs, o));
                    assert(sorted_rows(ps, project_keys(ps, col), descending, rs));
                }
                rows
            },
        }
    }

    /// Chooses the project sort column: the same column again flips the
    /// direction, another sorts ascending by it. The cursor goes to the top.
    pub fn set_project_sort(&mut self, col: ProjectSortColumn)
        ensures
            *final(self) == (App {
                project_sort: next_sort(old(self).project_sort, col),
                project_selected: 0,
                ..*old(self)
            }),
    {
        self.project_sort = Some(
            match self.project_sort {
                Some((c, dir)) => if c == col {
                    (col, dir.toggle())
                } else {
                    (col, SortDirection::Asc)
                },
                None => (col, SortDirection::Asc),
            },
        );
        self.project_selected = 0;
    }

    /// Selects the next project, stopping at the last one.
    pub fn project_move_down(&mut self)
        ensures
            *final(self) == (App {
                project_selected: selection_down(
                    old(self).projects@.len(),
                    old(self).project_selected as nat,
                ) as usize,
                ..*old(self)
            }),
    {
        let len = self.projects.len();
        if len > 0 && self.project_selected < len - 1 {
            self.project_selected = self.project_selected + 1;
        }
    }

    /// Selects the previous project, stopping at the first one.
    pub fn project_move_up(&mut self)
        ensures
            *final(self) == (App {
                project_selected: selection_up(old(self).project_selected as nat) as usize,
                ..*old(self)
            }),
    {
        if self.project_selected > 0 {
            self.project_selected = self.project_selected - 1;
        }
    }

    /// Selects the first project.
    pub fn project_top(&mut self)
        ensures
            *final(self) == (App { project_selected: 0, ..*old(self) }),
    {
        self.project_selected = 0;
    }

    /// Selects the last project (when there is one).
    pub fn project_bottom(&mut self)
        ensures
            *final(self) == (App {
                project_selected: if old(self).projects@.len() > 0 {
                    (old(self).projects@.len() - 1) as usize
                } else {
                    old(self).project_selected
                },
                ..*old(self)
            }),
    {
        let len = self.projects.len();
        if len > 0 {
            self.project_selected = len - 1;
        }
    }

    /// The selected project.
    pub fn selected_project(&self) -> (r: Option<&Project>)
        ensures
            r is Some == (self.project_selected < self.projects@.len()),
            r matches Some(p) ==> *p == self.projects@[self.project_selected as int],
    {
        if self.project_selected < self.projects.len() {
            Some(&self.projects[self.project_selected])
        } else {
            None
        }
    }

    /// Opens the selected project's issues (when a project is selected).
    pub fn select_project(&mut self)
        ensures
            old(self).project_selected < old(self).projects@.len() ==> *final(self) == (App {
                view: View::ProjectDetail,
                project_issue_selected: 0,
                ..*old(self)
            }),
            old(self).project_selected >= old(self).projects@.len() ==> *final(self) == *old(self),
    {
        if self.project_selected < self.projects.len() {
            self.view = View::ProjectDetail;
            self.project_issue_selected = 0;
        }
    }

    /// Leaves a project's issues for the project list.
    pub fn back_from_project_detail(&mut self)
        ensures
            *final(self) == (App {
                view: View::ProjectList,
                project_issues: final(self).project_issues,
                project_issue_selected: 0,
                ..*old(self)
            }),
            final(self).project_issues@.len() == 0,
    {
        self.view = View::ProjectList;
        self.project_issues = Vec::new();
        self.project_issue_selected = 0;
    }

    /// Selects the next project issue, stopping at the last one.
    pub fn project_issue_move_down(&mut self)
        ensures
            *final(self) == (App {
                project_issue_selected: selection_down(
                    old(self).project_issues@.len(),
                    old(self).project_issue_selected as nat,
                ) as usize,
                ..*old(self)
            }),
    {
        let len = self.project_issues.len();
        if len > 0 && self.project_issue_selected < len - 1 {
            self.project_issue_selected = self.project_issue_selected + 1;
        }
    }

    /// Selects the previous project issue, stopping at the first one.
    pub fn project_issue_move_up(&mut self)
        ensures
            *final(self) == (App {
                project_issue_selected: selection_up(old(self).project_issue_selected as nat) as usize,
                ..*old(self)
            }),
    {
        if self.project_issue_selected > 0 {
            self.project_issue_selected = self.project_issue_selected - 1;
        }
    }

    /// Selects the first project issue.
    pub fn project_issue_top(&mut self)
        ensures
            *final(self) == (App { project_issue_selected: 0, ..*old(self) }),
    {
        self.project_issue_selected = 0;
    }

    /// Selects the last project issue (when there is one).
    pub fn project_issue_bottom(&mut self)
        ensures
            *final(self) == (App {
                project_issue_selected: if old(self).project_issues@.len() > 0 {
                    (old(self).project_issues@.len() - 1) as usize
                } else {
                    old(self).project_issue_selected
                },
                ..*old(self)
            }),
    {
        let len = self.project_issues.len();
        if len > 0 {
            self.project_issue_selected = len - 1;
        }
    }

    /// Opens the selected project issue in the detail view.
    pub fn select_project_issue(&mut self)
        ensures
            old(self).project_issue_selected < old(self).project_issues@.len() ==> *final(self)
                == (App {
                view: View::Detail,
                detail_scroll: 0,
                detail_section: DetailSection::Body,
                detail_thread_selected: 0,
                detail_origin: DetailOrigin::ProjectDetail,
                ..*old(self)
            }),
            old(self).project_issue_selected >= old(self).project_issues@.len() ==> *final(self)
                == *old(self),
    {
        if self.project_issue_selected < self.project_issues.len() {
            self.view = View::Detail;
            self.detail_scroll = 0;
            self.detail_section = DetailSection::Body;
            self.detail_thread_selected = 0;
            self.detail_origin = DetailOrigin::ProjectDetail;
        }
    }

    /// The link of the selected project.
    pub fn selected_project_url(&self) -> (r: Option<String>)
        ensures
            r == if self.project_selected < self.projects@.len() {
                self.projects@[self.project_selected as int].url
            } else {
                None
            },
    {
        match self.selected_project() {
            Some(p) => copy_opt(&p.url),
            None => None,
        }
    }

    /// Clears the error message.
    pub fn dismiss_error(&mut self)
        ensures
            *final(self) == (App { error: None, ..*old(self) }),
    {
        self.error = None;
    }

    /// Offers the workflow states, the issue's current state selected (the
    /// first when it is not among them).
    pub fn start_state_change(&mut self)
        ensures
            *final(self) == (App {
                state_options: final(self).state_options,
                state_selected: final(self).state_selected,
                awaiting_state_change: true,
                ..*old(self)
            }),
            string_views(final(self).state_options@) == workflow_states(),
            exists|c: Option<Issue>|
                #[trigger] old(self).is_context_issue(c) && final(self).state_selected
                    == state_position(
                    match c {
                        Some(i) => Some(i.status_text()),
                        None => None,
                    },
                ),
    {
        let mut options: Vec<String> = Vec::new();
        options.push(owned("Backlog"));
        options.push(owned("Todo"));
        options.push(owned("In Progress"));
        options.push(owned("In Review"));
        options.push(owned("Done"));
        options.push(owned("Canceled"));
        let ghost states = workflow_states();
        assert(string_views(options@) =~= states);
        let c = self.context_issue();
        let mut selected: usize = 0;
        match c {
            Some(issue) => {
                let current = issue.status_str();
                let mut k: usize = 0;
                let mut found = false;
                while k < options.len()
                    invariant
                        string_views(options@) == states,
                        states.len() == 6,
                        k <= 6,
                        !found ==> selected == 0 && forall|q: int| 0 <= q < k ==> states[q] != current@,
                        found ==> selected < 6 && states[selected as int] == current@ && forall|
                            q: int,
                        | 0 <= q < selected ==> states[q] != current@,
                    decreases 6 - k,
                {
                    if !found && str_eq(options[k].as_str(), current) {
                        found = true;
                        selected = k;
                    }
                    k = k + 1;
                }
                proof {
                    states.index_of_first_ensures(current@);
                    if found {
                        assert(states.contains(current@));
                        let f = states.index_of_first(current@)->0;
                        assert(f == selected as int);
                    } else {
                        assert(!states.contains(current@));
                        assert(selected == 0);
                    }
                    assert(selected == state_position(Some(issue.status_text())));
                }
            },
            None => {},
        }
        let ghost cv = match c {
            Some(i) => Some(*i),
            None => None,
        };
        assert(self.is_context_issue(cv));
        assert(selected == state_position(
            match cv {
                Some(i) => Some(i.status_text()),
                None => None,
            },
        ));
        self.state_options = options;
        self.state_selected = selected;
        self.awaiting_state_change = true;
        assert(old(self).is_context_issue(cv));
    }

    /// Closes the workflow-state chooser.
    pub fn cancel_state_change(&mut self)
        ensures
            *final(self) == (App {
                awaiting_state_change: false,
                state_options: final(self).state_options,
                state_selected: 0,
                ..*old(self)
            }),
            final(self).state_options@.len() == 0,
    {
        self.awaiting_state_change = false;
        self.state_options = Vec::new();
        self.state_selected = 0;
    }

    /// Selects the next workflow state, stopping at the last one.
    pub fn state_change_move_down(&mut self)
        ensures
            *final(self) == (App {
                state_selected: selection_down(
                    old(self).state_options@.len(),
                    old(self).state_selected as nat,
                ) as usize,
                ..*old(self)
            }),
    {
        if self.state_options.len() > 0 && self.state_selected < self.state_options.len() - 1 {
            self.state_selected = self.state_selected + 1;
        }
    }

    /// Selects the previous workflow state, stopping at the first one.
    pub fn state_change_move_up(&mut self)
        ensures
            *final(self) == (App {
                state_selected: selection_up(old(self).state_selected as nat) as usize,
                ..*old(self)
            }),
    {
        if self.state_selected > 0 {
            self.state_selected = self.state_selected - 1;
        }
    }

    /// The selected workflow state.
    pub fn selected_state_option(&self) -> (r: Option<&str>)
        ensures
            r is Some == (self.state_selected < self.state_options@.len()),
            r matches Some(s) ==> s@ == self.state_options@[self.state_selected as int]@,
    {
        if self.state_selected < self.state_options.len() {
            Some(self.state_options[self.state_selected].as_str())
        } else {
            None
        }
    }
}

/// The error shown is the message made from the text the failed request's
/// error `failure` displays.
pub open spec fn shows_api_error(e: Option<AppError>, failure: anyhow::Error) -> bool {
    match e {
        Some(err) => err.message@ == crate::app::error_message_for(
            crate::app::error_display(failure),
        ),
        None => false,
    }
}

/// The first issue of `issues` whose ID is `id`.
pub open spec fn first_with_id(issues: Seq<Issue>, id: Seq<char>) -> Option<int>
    decreases issues.len(),
{
    if issues.len() == 0 {
        None
    } else {
        match first_with_id(issues.drop_last(), id) {
            Some(p) => Some(p),
            None => if issues.last().id@ == id {
                Some(issues.len() - 1)
            } else {
                None
            },
        }
    }
}

proof fn lemma_first_with_id(issues: Seq<Issue>, id: Seq<char>)
    ensures
        first_with_id(issues, id) matches Some(p) ==> 0 <= p < issues.len() && issues[p].id@ == id
            && forall|k: int| 0 <= k < p ==> issues[k].id@ != id,
        first_with_id(issues, id) is None ==> forall|k: int|
            0 <= k < issues.len() ==> issues[k].id@ != id,
    decreases issues.len(),
{
    if issues.len() > 0 {
        let t = issues.drop_last();
        lemma_first_with_id(t, id);
        assert forall|k: int| 0 <= k < t.len() implies issues[k] == t[k] by {}
    }
}

/// `after` is `before` with the first issue of ID `id` (if any) moved to
/// the workflow state `name`.
pub open spec fn state_set(before: Seq<Issue>, after: Seq<Issue>, id: Seq<char>, name: Seq<char>) -> bool {
    match first_with_id(before, id) {
        None => after == before,
        Some(p) => {
            &&& after.len() == before.len()
            &&& forall|k: int| 0 <= k < before.len() && k != p ==> after[k] == before[k]
            &&& after[p] == (Issue { state: after[p].state, ..before[p] })
            &&& after[p].state matches Some(st) && st.name@ == name
        },
    }
}

/// The position of the first row with identifier `identifier`.
pub open spec fn row_of_identifier(rows: Seq<Issue>, identifier: Seq<char>) -> Option<int>
    decreases rows.len(),
{
    if rows.len() == 0 {
        None
    } else {
        match row_of_identifier(rows.drop_last(), identifier) {
            Some(p) => Some(p),
            None => if rows.last().identifier@ == identifier {
                Some(rows.len() - 1)
            } else {
                None
            },
        }
    }
}

fn set_first_state(issues: &mut Vec<Issue>, id: &str, name: &str)
    ensures
        state_set(old(issues)@, final(issues)@, id@, name@),
{
    let ghost before = issues@;
    proof {
        lemma_first_with_id(before, id@);
    }
    let mut found: Option<usize> = None;
    let mut i: usize = 0;
    while i < issues.len()
        invariant
            issues@ == before,
            i <= before.len(),
            found is None ==> forall|k: int| 0 <= k < i ==> before[k].id@ != id@,
            found matches Some(f) ==> first_with_id(before, id@) == Some(f as int),
        decreases before.len() - i,
    {
        if found.is_none() && str_eq(issues[i].id.as_str(), id) {
            proof {
                lemma_first_with_id(before, id@);
                if let Some(p) = first_with_id(before, id@) {
                    assert(p == i);
                }
            }
            found = Some(i);
        }
        i = i + 1;
    }
    match found {
        Some(f) => {
            let mut it = issues.remove(f);
            assert(it == before[f as int]);
            let ghost taken = it;
            it.state = Some(IssueState { name: owned(name) });
            assert(it == (Issue { state: it.state, ..taken }));
            issues.insert(f, it);
            assert(issues@ =~= before.update(f as int, it));
        },
        None => {
            proof {
                if let Some(p) = first_with_id(before, id@) {
                    assert(before[p].id@ == id@);
                }
            }
        },
    }
}

fn row_position(rows: &Vec<&Issue>, identifier: &str) -> (r: Option<usize>)
    ensures
        match row_of_identifier(rows@.map_values(|i: &Issue| *i), identifier@) {
            Some(p) => r == Some(p as usize),
            None => r is None,
        },
{
    let ghost rs = rows@.map_values(|i: &Issue| *i);
    let mut k: usize = 0;
    while k < rows.len()
        invariant
            rs == rows@.map_values(|i: &Issue| *i),
            k <= rs.len(),
            row_of_identifier(rs.take(k as int), identifier@) is None,
        decreases rs.len() - k,
    {
        proof {
            assert(rs.take(k + 1).drop_last() =~= rs.take(k as int));
        }
        if str_eq(rows[k].identifier.as_str(), identifier) {
            proof {
                lemma_row_of_identifier_prefix(rs, identifier@, k as int);
            }
            return Some(k);
        }
        k = k + 1;
    }
    assert(rs.take(rs.len() as int) =~= rs);
    None
}

proof fn lemma_row_of_identifier_prefix(rs: Seq<Issue>, identifier: Seq<char>, k: int)
    requires
        0 <= k < rs.len(),
        row_of_identifier(rs.take(k), identifier) is None,
        rs[k].identifier@ == identifier,
    ensures
        row_of_identifier(rs, identifier) == Some(k),
    decreases rs.len(),
{
    if rs.len() - 1 > k {
        assert(rs.drop_last().take(k) =~= rs.take(k));
        lemma_row_of_identifier_prefix(rs.drop_last(), identifier, k);
    } else {
        assert(rs.drop_last() =~= rs.take(k));
    }
}

impl App {
    /// Moves the issue the current view is about to the workflow state
    /// `new_state` in the local lists (the first issue of its ID in the
    /// user's issues and in the project issues) and drops both cached
    /// lists so the next load fetches fresh data.
    pub fn apply_local_state_change(&mut self, new_state: &str)
        ensures
            exists|c: Option<Issue>|
                #[trigger] old(self).is_context_issue(c) && match c {
                    None => *final(self) == *old(self),
                    Some(i) => {
                        &&& *final(self) == (App {
                            issues: final(self).issues,
                            project_issues: final(self).project_issues,
                            cache: final(self).cache,
                            project_cache: final(self).project_cache,
                            ..*old(self)
                        })
                        &&& state_set(old(self).issues@, final(self).issues@, i.id@, new_state@)
                        &&& state_set(
                            old(self).project_issues@,
                            final(self).project_issues@,
                            i.id@,
                            new_state@,
                        )
                        &&& final(self).cache@ == old(self).cache@.remove(CACHE_KEY_MY_ISSUES@)
                        &&& final(self).project_cache@ == old(self).project_cache@.remove(
                            CACHE_KEY_PROJECTS@,
                        )
                    },
                },
    {
        let c = self.context_issue();
        let ghost cv = match c {
            Some(i) => Some(*i),
            None => None,
        };
        assert(self.is_context_issue(cv));
        let issue_id = match c {
            Some(issue) => issue.id.clone(),
            None => {
                return;
            },
        };
        set_first_state(&mut self.issues, issue_id.as_str(), new_state);
        set_first_state(&mut self.project_issues, issue_id.as_str(), new_state);
        self.cache.invalidate(CACHE_KEY_MY_ISSUES);
        self.project_cache.invalidate(CACHE_KEY_PROJECTS);
        assert(old(self).is_context_issue(cv));
    }

    /// Starts loading the user's issues: a fresh cached list is used as it
    /// is (the result is false), otherwise the list must be fetched (the
    /// result is true) and the loading indicator shows while the list is
    /// empty.
    pub fn begin_load_issues(&mut self) -> (fetch: bool)
        ensures
            !fetch ==> old(self).cache@.contains_key(CACHE_KEY_MY_ISSUES@) && same_issues(
                final(self).issues@,
                old(self).cache@[CACHE_KEY_MY_ISSUES@]@,
            ) && *final(self) == (App { issues: final(self).issues, ..*old(self) }),
            fetch ==> *final(self) == (App { loading: old(self).issues@.len() == 0, ..*old(self) }),
    {
        match self.cache.get(CACHE_KEY_MY_ISSUES) {
            Some(cached) => {
                let copy = copy_issues(cached.as_slice());
                self.issues = copy;
                false
            },
            None => {
                self.loading = self.issues.len() == 0;
                true
            },
        }
    }

    /// Takes in the fetched issues: on success they replace the list and
    /// the cache entry, the error clears, and the cursor follows the issue
    /// that was under it (to the top when it is gone); on failure the error
    /// is shown and the list stays.
    #[verifier::rlimit(60)]
    pub fn issues_fetched(&mut self, result: Result<Vec<Issue>, anyhow::Error>)
        ensures
            exists|c: Option<Issue>|
                #[trigger] old(self).is_context_issue(c) && match result {
                    Ok(issues) => {
                        &&& *final(self) == (App {
                            error: None,
                            issues: final(self).issues,
                            cache: final(self).cache,
                            selected: final(self).selected,
                            ..*old(self)
                        })
                        &&& final(self).issues == issues
                        &&& final(self).cache@.dom() == old(self).cache@.dom().insert(
                            CACHE_KEY_MY_ISSUES@,
                        )
                        &&& same_issues(final(self).cache@[CACHE_KEY_MY_ISSUES@]@, issues@)
                        &&& forall|k: Seq<char>|
                            k != CACHE_KEY_MY_ISSUES@ && #[trigger] old(self).cache@.contains_key(k)
                                ==> final(self).cache@[k] == old(self).cache@[k]
                        &&& match c {
                            Some(i) => exists|rows: Seq<Issue>|
                                #[trigger] final(self).shown_rows(rows) && final(self).selected
                                    == match row_of_identifier(rows, i.identifier@) {
                                    Some(p) => p as usize,
                                    None => 0usize,
                                },
                            None => final(self).selected == old(self).selected,
                        }
                    },
                    Err(e) => *final(self) == (App { error: final(self).error, ..*old(self) })
                        && shows_api_error(final(self).error, e),
                },
    {
        let c = self.selected_issue();
        let ghost cv = match c {
            Some(i) => Some(*i),
            None => None,
        };
        assert(self.is_context_issue(cv));
        let selected_id = match c {
            Some(i) => Some(i.identifier.clone()),
            None => None,
        };
        match result {
            Ok(issues) => {
                self.error = None;
                let copy = copy_issues(issues.as_slice());
                self.cache.insert(CACHE_KEY_MY_ISSUES, copy);
                self.issues = issues;
                match selected_id {
                    Some(id) => {
                        let rows = self.filtered_issues();
                        let ghost rs = rows@.map_values(|i: &Issue| *i);
                        assert(self.shown_rows(rs));
                        let pos = row_position(&rows, id.as_str());
                        let sel = match pos {
                            Some(p) => p,
                            None => 0,
                        };
                        proof {
                            let want = match row_of_identifier(rs, id@) {
                                Some(p) => p as usize,
                                None => 0usize,
                            };
                            assert(sel == want);
                        }
                        self.selected = sel;
                        proof {
                            assert(self.shown_rows(rs));
                        }
                    },
                    None => {},
                }
            },
            Err(e) => {
                self.error = Some(AppError::from_api_error(&e));
            },
        }
        assert(old(self).is_context_issue(cv));
    }

    /// Ends a load: the loading indicator goes away.
    pub fn end_load(&mut self)
        ensures
            *final(self) == (App { loading: false, ..*old(self) }),
    {
        self.loading = false;
    }

    /// Starts loading the projects: a fresh cached list is used as it is
    /// (the result is false), otherwise the list must be fetched (the result
    /// is true) and the loading indicator shows while the list is empty.
    pub fn begin_load_projects(&mut self) -> (fetch: bool)
        ensures
            !fetch ==> old(self).project_cache@.contains_key(CACHE_KEY_PROJECTS@)
                && final(self).projects@ == old(self).project_cache@[CACHE_KEY_PROJECTS@]@
                && *final(self) == (App {
                projects: final(self).projects,
                ..*old(self)
            }),
            fetch ==> *final(self) == (App { loading: old(self).projects@.len() == 0, ..*old(self) }),
    {
        match self.project_cache.get(CACHE_KEY_PROJECTS) {
            Some(cached) => {
                let copy = copy_projects(cached.as_slice());
                self.projects = copy;
                false
            },
            None => {
                self.loading = self.projects.len() == 0;
                true
            },
        }
    }

    /// Takes in the fetched projects: on success they replace the list and
    /// the cache entry and the error clears; on failure the error is shown.
    pub fn projects_fetched(&mut self, result: Result<Vec<Project>, anyhow::Error>)
        ensures
            match result {
                Ok(ps) => {
                    &&& *final(self) == (App {
                        error: None,
                        projects: ps,
                        project_cache: final(self).project_cache,
                        ..*old(self)
                    })
                    &&& final(self).project_cache@.dom() == old(self).project_cache@.dom().insert(
                        CACHE_KEY_PROJECTS@,
                    )
                    &&& final(self).project_cache@[CACHE_KEY_PROJECTS@]@ == ps@
                    &&& forall|k: Seq<char>|
                        k != CACHE_KEY_PROJECTS@ && #[trigger] old(self).project_cache@.contains_key(k)
                            ==> final(self).project_cache@[k] == old(self).project_cache@[k]
                },
                Err(e) => *final(self) == (App { error: final(self).error, ..*old(self) })
                    && shows_api_error(final(self).error, e),
            },
    {
        match result {
            Ok(ps) => {
                self.error = None;
                let copy = copy_projects(ps.as_slice());
                self.project_cache.insert(CACHE_KEY_PROJECTS, copy);
                self.projects = ps;
            },
            Err(e) => {
                self.error = Some(AppError::from_api_error(&e));
            },
        }
    }

    /// Starts loading the selected project's issues: its ID is returned for
    /// the fetch (none without a selected project), and the loading
    /// indicator shows while the list is empty.
    pub fn begin_load_project_issues(&mut self) -> (r: Option<String>)
        ensures
            old(self).project_selected < old(self).projects@.len() ==> r == Some(
                old(self).projects@[old(self).project_selected as int].id,
            ) && *final(self) == (App {
                loading: old(self).project_issues@.len() == 0,
                ..*old(self)
            }),
            old(self).project_selected >= old(self).projects@.len() ==> r is None && *final(self)
                == *old(self),
    {
        match self.selected_project() {
            Some(p) => {
                let id = p.id.clone();
                self.loading = self.project_issues.len() == 0;
                Some(id)
            },
            None => None,
        }
    }

    /// Takes in a project's fetched issues: on success they replace the
    /// list with the first one selected and the error clears; on failure
    /// the error is shown. The loading indicator goes away either way.
    pub fn project_issues_fetched(&mut self, result: Result<Vec<Issue>, anyhow::Error>)
        ensures
            match result {
                Ok(issues) => *final(self) == (App {
                    error: None,
                    project_issues: issues,
                    project_issue_selected: 0,
                    loading: false,
                    ..*old(self)
                }),
                Err(e) => *final(self) == (App {
                    error: final(self).error,
                    loading: false,
                    ..*old(self)
                }) && shows_api_error(final(self).error, e),
            },
    {
        match result {
            Ok(issues) => {
                self.error = None;
                self.project_issues = issues;
                self.project_issue_selected = 0;
            },
            Err(e) => {
                self.error = Some(AppError::from_api_error(&e));
            },
        }
        self.loading = false;
    }

    /// Starts a full refresh: both cached lists are dropped so the fetches
    /// that follow bypass them.
    pub fn begin_refresh(&mut self)
        ensures
            *final(self) == (App {
                refreshing: true,
                cache: final(self).cache,
                project_cache: final(self).project_cache,
                ..*old(self)
            }),
            final(self).cache@ == old(self).cache@.remove(CACHE_KEY_MY_ISSUES@),
            final(self).project_cache@ == old(self).project_cache@.remove(CACHE_KEY_PROJECTS@),
    {
        self.refreshing = true;
        self.cache.invalidate(CACHE_KEY_MY_ISSUES);
        self.project_cache.invalidate(CACHE_KEY_PROJECTS);
    }

    /// Ends a full refresh and returns the identifier of the issue the view
    /// is about, for reloading its thread data.
    pub fn end_refresh(&mut self) -> (r: Option<String>)
        ensures
            *final(self) == (App { refreshing: false, ..*old(self) }),
            exists|c: Option<Issue>|
                #[trigger] final(self).is_context_issue(c) && r == match c {
                    Some(i) => Some(i.identifier),
                    None => None,
                },
    {
        self.refreshing = false;
        let c = self.context_issue();
        let ghost cv = match c {
            Some(i) => Some(*i),
            None => None,
        };
        assert(self.is_context_issue(cv));
        match c {
            Some(i) => Some(i.identifier.clone()),
            None => None,
        }
    }

    /// Starts refreshing the projects: their cached list is dropped.
    pub fn begin_refresh_projects(&mut self)
        ensures
            *final(self) == (App {
                refreshing: true,
                project_cache: final(self).project_cache,
                ..*old(self)
            }),
            final(self).project_cache@ == old(self).project_cache@.remove(CACHE_KEY_PROJECTS@),
    {
        self.refreshing = true;
        self.project_cache.invalidate(CACHE_KEY_PROJECTS);
    }

    /// Ends refreshing the projects.
    pub fn end_refresh_projects(&mut self)
        ensures
            *final(self) == (App { refreshing: false, ..*old(self) }),
    {
        self.refreshing = false;
    }
}

} // verus!
