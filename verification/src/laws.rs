//! Properties of the library that span several calls or hold of every
//! state, stated over the models its functions' contracts use.

use crate::amp::reconcile::{is_terminal, reconciled};
use crate::amp::run::{is_ascii_alphanumeric, sanitized};
use crate::amp::state::{
    history_after_use, marked_stale, no_repeats, without, SessionRun, SessionRunStatus,
};
use crate::amp::thread::relative_time_text;
use crate::app::{
    display_rank, displayed_status, selection_down, selection_up, without_last_component,
    SortDirection,
};
use crate::launch::shell_quoted;
use crate::app::input::{key_command, Command, InputMode};
use crate::keys::{Key, KeyPress};
use crate::app::{DetailSection, View, WorkspacePicker};
use crate::views::picker_start;
use crate::amp::session::{without_terminated, SessionEntry, SessionStatus};
use crate::api::cache::{fresh_age, ResponseCache};
use crate::suspend::{steps_from, suspend_sequence, SuspendStep};
use crate::text::{contains, has_prefix, has_suffix, last_index, lex_lt};
use crate::api::types::Issue;
use crate::app::model::{best_status, issue_keys, kept_issues, lowercase};
use crate::app::{SessionRunSummary, SortColumn};
use crate::sorting::{rows_in_order, sorted_rows};
use crate::api::anthropic::{draft_of, first_member_at, member_text, JsonDocView};
use crate::app::input::browse_command;
use crate::keys::Action;
use vstd::prelude::*;
use vstd::view::View as _;

verus! {

// ---------------------------------------------------------------------------
// Workspace history
// ---------------------------------------------------------------------------

proof fn lemma_without_len(h: Seq<Seq<char>>, w: Seq<char>)
    ensures
        without(h, w).len() <= h.len(),
        forall|i: int| 0 <= i < without(h, w).len() ==> #[trigger] without(h, w)[i] != w,
        forall|x: Seq<char>| x != w && h.contains(x) ==> #[trigger] without(h, w).contains(x),
        forall|x: Seq<char>| #[trigger] without(h, w).contains(x) ==> h.contains(x),
    decreases h.len(),
{
    if h.len() > 0 {
        lemma_without_len(h.drop_last(), w);
        let r = without(h.drop_last(), w);
        assert forall|x: Seq<char>| x != w && h.contains(x) implies #[trigger] without(
            h,
            w,
        ).contains(x) by {
            let k = choose|k: int| 0 <= k < h.len() && h[k] == x;
            if k < h.len() - 1 {
                assert(h.drop_last()[k] == x);
                assert(h.drop_last().contains(x));
                assert(r.contains(x));
                let j = choose|j: int| 0 <= j < r.len() && r[j] == x;
                if h.last() != w {
                    assert(without(h, w) == r.push(h.last()));
                    assert(without(h, w)[j] == x);
                } else {
                    assert(without(h, w) == r);
                }
            } else {
                assert(h.last() == x);
                assert(without(h, w) == r.push(x));
                assert(without(h, w)[r.len() as int] == x);
            }
        }
        assert forall|x: Seq<char>| #[trigger] without(h, w).contains(x) implies h.contains(x) by {
            let j = choose|j: int| 0 <= j < without(h, w).len() && without(h, w)[j] == x;
            if j < r.len() {
                assert(r[j] == x);
                assert(r.contains(x));
                let k = choose|k: int| 0 <= k < h.drop_last().len() && h.drop_last()[k] == x;
                assert(h[k] == x);
            } else {
                assert(h[h.len() - 1] == x);
            }
        }
    }
}

proof fn lemma_without_no_repeats(h: Seq<Seq<char>>, w: Seq<char>)
    requires
        no_repeats(h),
    ensures
        no_repeats(without(h, w)),
    decreases h.len(),
{
    if h.len() > 0 {
        let t = h.drop_last();
        assert(no_repeats(t));
        lemma_without_no_repeats(t, w);
        lemma_without_len(t, w);
        let r = without(t, w);
        if h.last() != w {
            assert forall|i: int, j: int| 0 <= i < j < r.push(h.last()).len() implies r.push(
                h.last(),
            )[i] != r.push(h.last())[j] by {
                if j == r.len() {
                    assert(r.contains(r[i]));
                    assert(t.contains(r[i]));
                    let k = choose|k: int| 0 <= k < t.len() && t[k] == r[i];
                    assert(h[k] != h[h.len() - 1]);
                }
            }
        }
    }
}

proof fn lemma_without_idempotent(h: Seq<Seq<char>>, w: Seq<char>)
    ensures
        without(without(h, w), w) == without(h, w),
    decreases h.len(),
{
    if h.len() > 0 {
        lemma_without_idempotent(h.drop_last(), w);
        let r = without(h.drop_last(), w);
        if h.last() != w {
            assert(r.push(h.last()).drop_last() =~= r);
        }
    }
}

/// After a workspace is used it stands first in the history.
pub proof fn law_used_workspace_first(h: Seq<Seq<char>>, w: Seq<char>)
    ensures
        history_after_use(h, w).len() >= 1,
        history_after_use(h, w)[0] == w,
{
}

/// Using a workspace keeps the history free of repeats.
pub proof fn law_history_stays_without_repeats(h: Seq<Seq<char>>, w: Seq<char>)
    requires
        no_repeats(h),
    ensures
        no_repeats(history_after_use(h, w)),
{
    lemma_without_no_repeats(h, w);
    lemma_without_len(h, w);
    let r = without(h, w);
    assert forall|i: int, j: int|
        0 <= i < j < history_after_use(h, w).len() implies history_after_use(h, w)[i]
        != history_after_use(h, w)[j] by {
        if i == 0 {
            assert(history_after_use(h, w)[j] == r[j - 1]);
        } else {
            assert(history_after_use(h, w)[i] == r[i - 1]);
            assert(history_after_use(h, w)[j] == r[j - 1]);
        }
    }
}

/// Using the same workspace twice in a row leaves the history as one use
/// does.
pub proof fn law_history_use_idempotent(h: Seq<Seq<char>>, w: Seq<char>)
    ensures
        history_after_use(history_after_use(h, w), w) == history_after_use(h, w),
{
    let r = without(h, w);
    lemma_without_idempotent(h, w);
    let s = seq![w] + r;
    assert(s.drop_first() =~= r);
    lemma_without_first(s, w);
}

proof fn lemma_without_first(s: Seq<Seq<char>>, w: Seq<char>)
    requires
        s.len() > 0,
        s[0] == w,
    ensures
        without(s, w) == without(s.drop_first(), w),
    decreases s.len(),
{
    if s.len() > 1 {
        lemma_without_first(s.drop_last(), w);
        assert(s.drop_last().drop_first() =~= s.drop_first().drop_last());
    } else {
        assert(s.drop_first() =~= s.drop_last());
    }
}

/// Using a workspace loses no other entry of the history, and adds none but
/// the workspace itself.
pub proof fn law_history_keeps_other_entries(h: Seq<Seq<char>>, w: Seq<char>, x: Seq<char>)
    ensures
        h.contains(x) ==> history_after_use(h, w).contains(x),
        history_after_use(h, w).contains(x) ==> x == w || h.contains(x),
{
    lemma_without_len(h, w);
    let r = without(h, w);
    if h.contains(x) && x != w {
        assert(r.contains(x));
        let j = choose|j: int| 0 <= j < r.len() && r[j] == x;
        assert(history_after_use(h, w)[j + 1] == x);
    }
    if h.contains(x) && x == w {
        assert(history_after_use(h, w)[0] == x);
    }
    if history_after_use(h, w).contains(x) && x != w {
        let j = choose|j: int|
            0 <= j < history_after_use(h, w).len() && history_after_use(h, w)[j] == x;
        assert(j > 0);
        assert(r[j - 1] == x);
        assert(r.contains(x));
    }
}

// ---------------------------------------------------------------------------
// Session-run reconciliation
// ---------------------------------------------------------------------------

/// The observation the probes give for a run: liveness exactly when it has
/// a process, and an exit code only when the process is not alive.
pub open spec fn possible_observation(run: SessionRun, alive: Option<bool>, code: Option<i32>) -> bool {
    &&& (alive is Some) == (run.pid is Some)
    &&& alive == Some(true) ==> code is None
}

/// Reconciling a run a second time, against the same findings (the same
/// liveness while it keeps a process, and the same exit code), changes
/// nothing: reconciliation settles in one step.
pub proof fn law_reconcile_settles(
    run: SessionRun,
    t1: u64,
    t2: u64,
    alive: Option<bool>,
    code: Option<i32>,
)
    requires
        possible_observation(run, alive, code),
    ensures
        ({
            let r1 = reconciled(run, t1, alive, code);
            let alive2 = if r1.pid is Some {
                alive
            } else {
                None
            };
            possible_observation(r1, alive2, code) && reconciled(r1, t2, alive2, code) == r1
        }),
{
}

/// Reconciliation changes only the lifecycle fields of a run: its thread,
/// issue, workspace, log path and creation time stay as they were.
pub proof fn law_reconcile_keeps_identity(
    run: SessionRun,
    now: u64,
    alive: Option<bool>,
    code: Option<i32>,
)
    ensures
        ({
            let r = reconciled(run, now, alive, code);
            &&& r.thread_id == run.thread_id
            &&& r.issue == run.issue
            &&& r.workspace == run.workspace
            &&& r.log_path == run.log_path
            &&& r.created_at_ms == run.created_at_ms
        }),
{
}

/// A run is shown as running only while its process is seen alive.
pub proof fn law_running_needs_live_process(
    run: SessionRun,
    now: u64,
    alive: Option<bool>,
    code: Option<i32>,
)
    ensures
        reconciled(run, now, alive, code).status == SessionRunStatus::Running <==> alive == Some(
            true,
        ),
{
}

/// Once a run has ended (completed, failed or stale) it stays ended until
/// its process is seen alive again; a recorded exit code decides between
/// completed and failed.
pub proof fn law_ended_runs_stay_ended(
    run: SessionRun,
    now: u64,
    alive: Option<bool>,
    code: Option<i32>,
)
    requires
        is_terminal(run.status),
        alive != Some(true),
    ensures
        is_terminal(reconciled(run, now, alive, code).status),
        code matches Some(c) ==> reconciled(run, now, alive, code).status == (if c == 0 {
            SessionRunStatus::Completed
        } else {
            SessionRunStatus::Failed
        }),
{
}

// ---------------------------------------------------------------------------
// File names and relative times
// ---------------------------------------------------------------------------

/// Sanitising keeps the length and leaves only ASCII letters, digits, `-`
/// and `_`; safe names are left as they are.
pub proof fn law_sanitized_is_safe(s: Seq<char>)
    ensures
        sanitized(s).len() == s.len(),
        forall|i: int|
            0 <= i < s.len() ==> is_ascii_alphanumeric(#[trigger] sanitized(s)[i]) || sanitized(
                s,
            )[i] == '-' || sanitized(s)[i] == '_',
        (forall|i: int|
            0 <= i < s.len() ==> is_ascii_alphanumeric(#[trigger] s[i]) || s[i] == '-' || s[i]
                == '_') ==> sanitized(s) == s,
{
    if forall|i: int|
        0 <= i < s.len() ==> is_ascii_alphanumeric(#[trigger] s[i]) || s[i] == '-' || s[i] == '_' {
        assert(sanitized(s) =~= s);
    }
}

/// Every relative time reads "… ago".
pub proof fn law_relative_time_reads_ago(now_ms: u64, then_ms: u64)
    ensures
        has_suffix(relative_time_text(now_ms, then_ms), " ago"@),
{
    reveal_strlit(" ago");
    reveal_strlit("s ago");
    reveal_strlit("m ago");
    reveal_strlit("h ago");
    reveal_strlit("d ago");
    let t = relative_time_text(now_ms, then_ms);
    assert(t.skip(t.len() - 4) =~= " ago"@);
}

// ---------------------------------------------------------------------------
// Interface state
// ---------------------------------------------------------------------------

/// Moving through a list keeps the selection on an option.
pub proof fn law_selection_stays_in_list(len: nat, selected: nat)
    requires
        selected < len,
    ensures
        selection_down(len, selected) < len,
        selection_up(selected) < len,
{
}

/// Moving down and then up returns to the same option, unless the
/// selection was already on the last one; moving up and then down returns
/// unless it was on the first.
pub proof fn law_selection_moves_undo(len: nat, selected: nat)
    ensures
        selected + 1 < len ==> selection_up(selection_down(len, selected)) == selected,
        0 < selected < len ==> selection_down(len, selection_up(selected)) == selected,
{
}

/// Deleting a path component keeps a prefix of the input that is empty or
/// ends with `/`, and shortens any non-empty input.
pub proof fn law_delete_component_shortens(s: Seq<char>)
    ensures
        has_prefix(s, without_last_component(s)),
        without_last_component(s).len() == 0 || without_last_component(s).last() == '/',
        s.len() > 0 ==> without_last_component(s).len() < s.len(),
{
    let t = if s.len() > 0 && s.last() == '/' {
        s.drop_last()
    } else {
        s
    };
    lemma_last_index(t, '/');
    match last_index(t, '/') {
        Some(p) => {
            assert(s.take(p + 1) =~= t.take(p + 1));
        },
        None => {
            assert(s.take(0) =~= Seq::<char>::empty());
        },
    }
}

proof fn lemma_last_index(s: Seq<char>, c: char)
    ensures
        last_index(s, c) matches Some(p) ==> 0 <= p < s.len() && s[p] == c && forall|k: int|
            p < k < s.len() ==> s[k] != c,
        last_index(s, c) is None ==> forall|k: int| 0 <= k < s.len() ==> s[k] != c,
    decreases s.len(),
{
    if s.len() > 0 && s.last() != c {
        let t = s.drop_last();
        lemma_last_index(t, c);
        assert forall|k: int| 0 <= k < t.len() implies s[k] == t[k] by {}
        if let Some(p) = last_index(t, c) {
            assert(s[p] == t[p]);
            assert forall|k: int| p < k < s.len() implies s[k] != c by {
                if k < t.len() {
                    assert(s[k] == t[k]);
                }
            }
        } else {
            assert forall|k: int| 0 <= k < s.len() implies s[k] != c by {
                if k < t.len() {
                    assert(s[k] == t[k]);
                }
            }
        }
    }
}

/// Toggling the sort direction twice restores it.
pub proof fn law_toggle_twice(d: SortDirection)
    ensures
        d.toggled().toggled() == d,
{
}

/// Of two statuses the more prominent is shown: the result is one of them
/// and ranks at least as high as both, whatever their order.
pub proof fn law_display_status_is_most_prominent(a: SessionRunStatus, b: SessionRunStatus)
    ensures
        displayed_status(a, b) == a || displayed_status(a, b) == b,
        display_rank(displayed_status(a, b)) >= display_rank(a),
        display_rank(displayed_status(a, b)) >= display_rank(b),
        displayed_status(a, b) == displayed_status(b, a),
{
}

/// A word that needs quoting comes out between single quotes.
pub proof fn law_quoted_words_are_wrapped(s: Seq<char>)
    ensures
        shell_quoted(s) == s || (shell_quoted(s).len() >= 2 && shell_quoted(s)[0] == '\''
            && shell_quoted(s).last() == '\''),
        s.len() == 0 ==> shell_quoted(s) == seq!['\'', '\''],
{
    if s.len() == 0 {
        assert(crate::launch::single_quoted_body(s) =~= Seq::<char>::empty());
        assert(shell_quoted(s) =~= seq!['\'', '\'']);
    }
}

// ---------------------------------------------------------------------------
// Stores keyed by string: state links, session runs, the response cache
// ---------------------------------------------------------------------------

/// Reading back a key just written gives the value written, and writing one
/// key leaves every other key as it was. The thread links, the session runs
/// and the response cache all store by key this way.
pub proof fn law_read_after_write<V>(
    m: Map<Seq<char>, V>,
    key: Seq<char>,
    value: V,
    other: Seq<char>,
)
    ensures
        m.insert(key, value).contains_key(key),
        m.insert(key, value)[key] == value,
        other != key ==> m.insert(key, value).contains_key(other) == m.contains_key(other),
        other != key && m.contains_key(other) ==> m.insert(key, value)[other] == m[other],
{
}

/// After a key is removed it reads as absent, and other keys stay.
pub proof fn law_removed_key_is_absent<V>(m: Map<Seq<char>, V>, key: Seq<char>, other: Seq<char>)
    ensures
        !m.remove(key).contains_key(key),
        other != key ==> m.remove(key).contains_key(other) == m.contains_key(other),
        other != key && m.contains_key(other) ==> m.remove(key)[other] == m[other],
{
}

// ---------------------------------------------------------------------------
// Session output
// ---------------------------------------------------------------------------

/// A message with no text adds no output line.
pub proof fn law_empty_message_adds_nothing()
    ensures
        crate::amp::output::user_message_lines(Seq::<char>::empty()).len() == 0,
{
    assert(crate::text::newline_pieces(Seq::<char>::empty()) == seq![Seq::<char>::empty()]);
}

/// Every line of a user message is shown after the "▶ " marker, one output
/// line per line of text.
pub proof fn law_message_lines_are_marked(text: Seq<char>)
    ensures
        crate::amp::output::user_message_lines(text).len() == crate::text::lines(text).len(),
        forall|i: int|
            0 <= i < crate::text::lines(text).len() ==> #[trigger] crate::amp::output::user_message_lines(
                text,
            )[i].text == seq!['\u{25B6}', ' '] + crate::text::lines(text)[i],
{
}


// ---------------------------------------------------------------------------
// Suspending the UI for an interactive command
// ---------------------------------------------------------------------------

/// Once the alternate screen was left and raw mode disabled, raw mode is
/// re-enabled after the command whatever the command's outcome, and the
/// alternate screen is re-entered unless re-enabling raw mode fails.
pub proof fn law_terminal_restored_after_command(outcomes: Seq<bool>)
    requires
        outcomes.len() >= 2,
        outcomes[0],
        outcomes[1],
    ensures
        suspend_sequence(outcomes).len() >= 4,
        suspend_sequence(outcomes).subrange(0, 4) == seq![
            SuspendStep::LeaveAlternateScreen,
            SuspendStep::DisableRawMode,
            SuspendStep::RunCommand,
            SuspendStep::EnableRawMode,
        ],
        (outcomes.len() <= 3 || outcomes[3]) ==> suspend_sequence(outcomes) == seq![
            SuspendStep::LeaveAlternateScreen,
            SuspendStep::DisableRawMode,
            SuspendStep::RunCommand,
            SuspendStep::EnableRawMode,
            SuspendStep::EnterAlternateScreen,
        ],
{
    reveal_with_fuel(steps_from, 6);
    let o1 = outcomes.drop_first();
    let o2 = o1.drop_first();
    if o2.len() > 0 {
        let o3 = o2.drop_first();
        if o3.len() > 0 {
            let o4 = o3.drop_first();
            assert(o4.len() > 0 ==> steps_from(Some(SuspendStep::EnterAlternateScreen), o4[0], o4.drop_first()) =~= Seq::empty());
        }
    }
    assert(suspend_sequence(outcomes).subrange(0, 4) =~= seq![
        SuspendStep::LeaveAlternateScreen,
        SuspendStep::DisableRawMode,
        SuspendStep::RunCommand,
        SuspendStep::EnableRawMode,
    ]);
}

/// A terminal operation that fails before the command ends the sequence:
/// the command does not run.
pub proof fn law_failed_suspend_skips_command(outcomes: Seq<bool>)
    requires
        outcomes.len() >= 2,
        !outcomes[0] || !outcomes[1],
    ensures
        !suspend_sequence(outcomes).contains(SuspendStep::RunCommand),
        suspend_sequence(outcomes).len() == if outcomes[0] { 2int } else { 1int },
{
    reveal_with_fuel(steps_from, 3);
    if outcomes[0] {
        assert(suspend_sequence(outcomes) =~= seq![
            SuspendStep::LeaveAlternateScreen,
            SuspendStep::DisableRawMode,
        ]);
    } else {
        assert(suspend_sequence(outcomes) =~= seq![SuspendStep::LeaveAlternateScreen]);
    }
}


// ---------------------------------------------------------------------------
// Key presses
// ---------------------------------------------------------------------------

/// While help is shown, only Esc and `?` do anything, and they close it.
pub proof fn law_help_overlay_takes_only_its_keys(press: KeyPress)
    ensures
        key_command(InputMode::Help, press) == if press.key == Key::Esc || press.key == Key::Char(
            '?',
        ) {
            Command::DismissHelp
        } else {
            Command::Nothing
        },
{
}

/// No single key press on a screen quits: `q` (or Control+c) only asks for
/// confirmation, which a second `q` gives and any other key withdraws.
pub proof fn law_quit_asks_for_confirmation(
    view: View,
    section: DetailSection,
    has_search: bool,
    thread_has_output: bool,
    press: KeyPress,
)
    ensures
        ({
            let c = key_command(
                InputMode::Browse { view, section, has_search, thread_has_output },
                press,
            );
            c != Command::Exit && c != Command::ConfirmQuit
        }),
        press.key == Key::Char('q') ==> key_command(
            InputMode::Browse { view, section, has_search, thread_has_output },
            press,
        ) == Command::ArmQuit,
        key_command(InputMode::QuitPending, press) == if press.key == Key::Char('q') {
            Command::ConfirmQuit
        } else {
            Command::DisarmQuit
        },
{
}

/// Esc leaves every prompt that takes typed text or a choice.
pub proof fn law_escape_leaves_prompts(press: KeyPress)
    requires
        press.key == Key::Esc,
    ensures
        key_command(InputMode::MessageEntry, press) == Command::CancelMessage,
        key_command(InputMode::SearchEntry, press) == Command::CancelSearch,
        key_command(InputMode::FilterEntry, press) == Command::CancelFilter,
        key_command(InputMode::PathEntry, press) == Command::CancelPathEntry,
        key_command(InputMode::WorkspaceList, press) == Command::ClosePicker,
        key_command(InputMode::StatePicker, press) == Command::CancelStateChange,
        key_command(InputMode::Help, press) == Command::DismissHelp,
        key_command(InputMode::Error, press) == Command::DismissError,
{
}

/// In a text prompt every character key types itself, so letters that are
/// bindings elsewhere (`q`, `j`, ...) are plain text there.
pub proof fn law_prompts_take_characters_as_text(press: KeyPress, c: char)
    requires
        press.key == Key::Char(c),
    ensures
        key_command(InputMode::MessageEntry, press) == Command::PushMessageChar(c),
        key_command(InputMode::SearchEntry, press) == Command::PushSearchChar(c),
        key_command(InputMode::FilterEntry, press) == Command::PushFilterChar(c),
        key_command(InputMode::PathEntry, press) == Command::PushPathChar(c),
{
}

/// A one-key prompt (quit, open, sort, filter) always ends with the next key:
/// no key press leaves it pending.
pub proof fn law_one_key_prompts_close(press: KeyPress)
    ensures
        key_command(InputMode::QuitPending, press) != Command::Nothing,
        key_command(InputMode::OpenPending, press) != Command::Nothing,
        key_command(InputMode::SortPending, press) != Command::Nothing,
        key_command(InputMode::ProjectSortPending, press) != Command::Nothing,
        key_command(InputMode::FilterPending, press) != Command::Nothing,
{
}


// ---------------------------------------------------------------------------
// Picker lists
// ---------------------------------------------------------------------------

/// A picker list always shows its selected entry, and as many rows as it
/// has room for.
pub proof fn law_picker_shows_selection(total: nat, selected_pos: nat, visible_rows: nat)
    requires
        selected_pos < total,
        visible_rows > 0,
    ensures
        ({
            let start = picker_start(total as int, selected_pos as int, visible_rows as int);
            let end = if start + visible_rows < total {
                start + visible_rows
            } else {
                total as int
            };
            &&& 0 <= start <= selected_pos < end <= total
            &&& end - start == if total < visible_rows {
                total as int
            } else {
                visible_rows as int
            }
        }),
{
}


/// A run marked stale has no process and the stale status, so marking it
/// again (as `State::mark_session_run_stale` does) reports no change, and
/// the time it finished is kept from the first marking.
pub proof fn law_marking_stale_twice_changes_nothing(run: SessionRun, first: u64, second: u64)
    ensures
        marked_stale(run, first).status == SessionRunStatus::Stale,
        marked_stale(run, first).pid is None,
        marked_stale(marked_stale(run, first), second).finished_at_ms == marked_stale(
            run,
            first,
        ).finished_at_ms,
        marked_stale(run, first).thread_id == run.thread_id,
        marked_stale(run, first).issue == run.issue,
        marked_stale(run, first).created_at_ms == run.created_at_ms,
{
}


// ---------------------------------------------------------------------------
// Live sessions
// ---------------------------------------------------------------------------

/// Cleaning up the sessions leaves no failed or idle session behind and keeps
/// every running session as it was; cleaning up again changes nothing.
pub proof fn law_cleanup_keeps_live_sessions(m: Map<Seq<char>, SessionEntry>, t: Seq<char>)
    ensures
        without_terminated(m).contains_key(t) ==> without_terminated(m)[t].status == SessionStatus::Running,
        m.contains_key(t) && m[t].status == SessionStatus::Running ==> without_terminated(m).contains_key(t)
            && without_terminated(m)[t] == m[t],
        without_terminated(without_terminated(m)) == without_terminated(m),
{
    assert(without_terminated(without_terminated(m)) =~= without_terminated(m));
}


// ---------------------------------------------------------------------------
// Response cache
// ---------------------------------------------------------------------------

/// A cache entry is fresh only while it is younger than the time-to-live:
/// once an age is too old, every greater age is too, and under a zero
/// time-to-live no age is fresh.
pub proof fn law_fresh_only_while_young(younger: u128, older: u128, ttl: u128)
    requires
        younger <= older,
    ensures
        fresh_age(older, ttl) ==> fresh_age(younger, ttl),
        fresh_age(younger, ttl) <==> younger < ttl,
        ttl == 0 ==> !fresh_age(younger, ttl),
{
}


// ---------------------------------------------------------------------------
// Workspace picker
// ---------------------------------------------------------------------------

proof fn lemma_original_kept(history: Seq<WorkspacePicker>, i: int)
    requires
        0 <= i < history.len(),
        forall|k: int|
            0 <= k < history.len() - 1 ==> #[trigger] history[k + 1].original()
                == history[k].original(),
    ensures
        history[i].original() == history[0].original(),
    decreases i,
{
    if i > 0 {
        lemma_original_kept(history, i - 1);
        assert(history[(i - 1) + 1].original() == history[i - 1].original());
    }
}

/// A picker keeps the options it was made with through any history of
/// changes that keep `original()` (moving, typing, completing, deleting path
/// components, confirming, and direct edits of its options, input,
/// selection or typing flag all do), so cancelling typing at the end brings
/// back exactly those options, with the first selected, typing off and the
/// input empty.
pub proof fn law_cancel_typing_restores_original(
    orig: Seq<String>,
    history: Seq<WorkspacePicker>,
    cancelled: WorkspacePicker,
)
    requires
        history.len() > 0,
        history[0].original() == orig,
        forall|k: int|
            0 <= k < history.len() - 1 ==> #[trigger] history[k + 1].original()
                == history[k].original(),
        cancelled.options@ == history.last().original(),
        !cancelled.typing,
        cancelled.selected == 0,
        cancelled.input@ == Seq::<char>::empty(),
    ensures
        cancelled.options@ == orig,
        !cancelled.typing,
        cancelled.selected == 0,
        cancelled.input@.len() == 0,
{
    lemma_original_kept(history, history.len() - 1);
}


/// The cache answers by the age of an entry: `get` and `is_fresh` each
/// answer as `fresh_at` does for the age their clock reading gives, so a
/// lookup finds a stored value exactly when the entry is present and younger
/// than the time-to-live, and at one age lookup and freshness agree. An
/// entry never stored, or removed since, is never found; under a zero
/// time-to-live nothing is.
pub proof fn law_lookup_answers_by_age<V>(c: ResponseCache<V>, key: Seq<char>, age: u128)
    ensures
        c.fresh_at(key, age) == (c@.contains_key(key) && age < c.ttl_nanos()),
        !c@.contains_key(key) ==> !c.fresh_at(key, age),
        c.ttl_nanos() == 0 ==> !c.fresh_at(key, age),
{
}


// ---------------------------------------------------------------------------
// Searching and sorting the issue list
// ---------------------------------------------------------------------------

/// The name of an issue's workflow state ("" without one).
pub open spec fn state_name(i: Issue) -> Seq<char> {
    match i.state {
        Some(st) => st.name@,
        None => Seq::empty(),
    }
}

proof fn lemma_kept_contains(
    issues: Seq<Issue>,
    filter: Option<(SortColumn, String)>,
    search: Option<String>,
    i: Issue,
)
    requires
        issues.contains(i),
        crate::app::model::shown(i, filter, search),
    ensures
        kept_issues(issues, filter, search).contains(i),
    decreases issues.len(),
{
    if issues.last() == i {
        assert(kept_issues(issues, filter, search).last() == i);
    } else {
        let k = choose|k: int| 0 <= k < issues.len() && issues[k] == i;
        assert(issues.drop_last()[k] == i);
        lemma_kept_contains(issues.drop_last(), filter, search, i);
        let rest = kept_issues(issues.drop_last(), filter, search);
        let j = choose|j: int| 0 <= j < rest.len() && rest[j] == i;
        if crate::app::model::shown(issues.last(), filter, search) {
            assert(kept_issues(issues, filter, search)[j] == i);
        }
    }
}

/// A search keeps every issue whose identifier, title, project name or
/// workflow-state name contains the query, compared in lower case: the
/// search runs across all the columns.
pub proof fn law_search_covers_every_column(issues: Seq<Issue>, q: String, i: Issue)
    requires
        issues.contains(i),
        contains(lowercase(i.identifier@), lowercase(q@)) || contains(lowercase(i.title@), lowercase(q@))
            || (i.project matches Some(p) && contains(lowercase(p.name@), lowercase(q@)))
            || (i.state matches Some(st) && contains(lowercase(st.name@), lowercase(q@))),
    ensures
        kept_issues(issues, None, Some(q)).contains(i),
{
    lemma_kept_contains(issues, None, Some(q), i);
}

/// Sorting by the Status column orders the rows by the name of their
/// workflow state: ascending, no row's state name comes lexicographically
/// before an earlier row's; descending, none comes after it.
pub proof fn law_status_sort_orders_by_state_name(
    items: Seq<Issue>,
    rows: Seq<Issue>,
    descending: bool,
    a: int,
    b: int,
)
    requires
        sorted_rows(items, issue_keys(items, SortColumn::Status), descending, rows),
        0 <= a < b < rows.len(),
    ensures
        !descending ==> !lex_lt(state_name(rows[b]), state_name(rows[a])),
        descending ==> !lex_lt(state_name(rows[a]), state_name(rows[b])),
{
    let keys = issue_keys(items, SortColumn::Status);
    let order = choose|order: Seq<int>| #[trigger] rows_in_order(items, keys, descending, rows, order);
    assert(rows_in_order(items, keys, descending, rows, order));
    let (x, y) = (order[a], order[b]);
    assert(0 <= x < items.len() && 0 <= y < items.len());
    assert(rows[a] == items[x] && rows[b] == items[y]);
    assert(!crate::sorting::comes_before(keys, descending, y, x));
    assert(keys[x] == crate::sorting::SortKeyView::Text(state_name(items[x])));
    assert(keys[y] == crate::sorting::SortKeyView::Text(state_name(items[y])));
}

/// The text of an issue in a column as the user sees it: the identifier,
/// the title, the project's name or the workflow state's name ("" when the
/// issue has no project or state).
pub open spec fn seen_text(i: Issue, col: SortColumn) -> Seq<char> {
    match col {
        SortColumn::Identifier => i.identifier@,
        SortColumn::Title => i.title@,
        SortColumn::Project => match i.project {
            Some(p) => p.name@,
            None => Seq::empty(),
        },
        SortColumn::Status => state_name(i),
        SortColumn::Priority => Seq::empty(),
    }
}

/// A column filter keeps every issue whose text in that column contains
/// the filter text, compared in lower case.
pub proof fn law_filter_keeps_matching_column(issues: Seq<Issue>, col: SortColumn, f: String, i: Issue)
    requires
        issues.contains(i),
        col != SortColumn::Priority,
        contains(lowercase(seen_text(i, col)), lowercase(f@)),
    ensures
        kept_issues(issues, Some((col, f)), None).contains(i),
{
    lemma_kept_contains(issues, Some((col, f)), None, i);
}

/// Sorting by the Title column orders the rows by title in lower case, and
/// by the Project column by project name.
pub proof fn law_title_and_project_sorts(
    items: Seq<Issue>,
    rows: Seq<Issue>,
    col: SortColumn,
    a: int,
    b: int,
)
    requires
        col == SortColumn::Title || col == SortColumn::Project,
        sorted_rows(items, issue_keys(items, col), false, rows),
        0 <= a < b < rows.len(),
    ensures
        col == SortColumn::Title ==> !lex_lt(lowercase(rows[b].title@), lowercase(rows[a].title@)),
        col == SortColumn::Project ==> !lex_lt(
            seen_text(rows[b], SortColumn::Project),
            seen_text(rows[a], SortColumn::Project),
        ),
{
    let keys = issue_keys(items, col);
    let order = choose|order: Seq<int>| #[trigger] rows_in_order(items, keys, false, rows, order);
    assert(rows_in_order(items, keys, false, rows, order));
    let (x, y) = (order[a], order[b]);
    assert(0 <= x < items.len() && 0 <= y < items.len());
    assert(!crate::sorting::comes_before(keys, false, y, x));
    if col == SortColumn::Title {
        assert(keys[x] == crate::sorting::SortKeyView::Text(lowercase(items[x].title@)));
        assert(keys[y] == crate::sorting::SortKeyView::Text(lowercase(items[y].title@)));
    } else {
        assert(keys[x] == crate::sorting::SortKeyView::Text(seen_text(items[x], SortColumn::Project)));
        assert(keys[y] == crate::sorting::SortKeyView::Text(seen_text(items[y], SortColumn::Project)));
    }
}

/// Sorting by the Identifier column orders the rows by identifier.
pub proof fn law_identifier_sort_orders_by_identifier(
    items: Seq<Issue>,
    rows: Seq<Issue>,
    a: int,
    b: int,
)
    requires
        sorted_rows(items, issue_keys(items, SortColumn::Identifier), false, rows),
        0 <= a < b < rows.len(),
    ensures
        !lex_lt(rows[b].identifier@, rows[a].identifier@),
{
    let keys = issue_keys(items, SortColumn::Identifier);
    let order = choose|order: Seq<int>| #[trigger] rows_in_order(items, keys, false, rows, order);
    assert(rows_in_order(items, keys, false, rows, order));
    let (x, y) = (order[a], order[b]);
    assert(0 <= x < items.len() && 0 <= y < items.len());
    assert(!crate::sorting::comes_before(keys, false, y, x));
    assert(keys[x] == crate::sorting::SortKeyView::Text(items[x].identifier@));
    assert(keys[y] == crate::sorting::SortKeyView::Text(items[y].identifier@));
}

// ---------------------------------------------------------------------------
// Run status shown for a thread
// ---------------------------------------------------------------------------

/// Run statuses are shown by prominence, Running over Pending over Failed
/// over Stale over Completed: of two statuses the one earlier in that list
/// is shown, whichever comes first.
pub proof fn law_status_prominence_order(x: SessionRunStatus)
    ensures
        displayed_status(SessionRunStatus::Running, x) == SessionRunStatus::Running,
        displayed_status(x, SessionRunStatus::Running) == SessionRunStatus::Running,
        x != SessionRunStatus::Running ==> displayed_status(SessionRunStatus::Pending, x)
            == SessionRunStatus::Pending && displayed_status(x, SessionRunStatus::Pending)
            == SessionRunStatus::Pending,
        (x == SessionRunStatus::Stale || x == SessionRunStatus::Completed
            || x == SessionRunStatus::Failed) ==> displayed_status(SessionRunStatus::Failed, x)
            == SessionRunStatus::Failed && displayed_status(x, SessionRunStatus::Failed)
            == SessionRunStatus::Failed,
        (x == SessionRunStatus::Stale || x == SessionRunStatus::Completed) ==> displayed_status(
            SessionRunStatus::Stale,
            x,
        ) == SessionRunStatus::Stale && displayed_status(x, SessionRunStatus::Stale)
            == SessionRunStatus::Stale,
{
}

/// A thread with a running run shows as running, whatever its other runs.
pub proof fn law_running_run_shows_running(runs: Seq<SessionRunSummary>, id: Seq<char>, k: int)
    requires
        0 <= k < runs.len(),
        runs[k].thread_id@ == id,
        runs[k].status == SessionRunStatus::Running,
    ensures
        best_status(runs, id) == Some(SessionRunStatus::Running),
    decreases runs.len(),
{
    if k < runs.len() - 1 {
        assert(runs.drop_last()[k] == runs[k]);
        law_running_run_shows_running(runs.drop_last(), id, k);
    }
    law_status_prominence_order(runs.last().status);
    match best_status(runs.drop_last(), id) {
        Some(p) => law_status_prominence_order(p),
        None => {},
    }
}

// ---------------------------------------------------------------------------
// The agent's issue draft
// ---------------------------------------------------------------------------

proof fn lemma_member_text_first(ms: Seq<(Seq<char>, Option<Seq<char>>)>, j: int)
    requires
        0 <= j < ms.len(),
        forall|k: int| 0 <= k < j ==> ms[k].0 != ms[j].0,
    ensures
        member_text(JsonDocView::Object(ms), ms[j].0) == ms[j].1,
{
    let key = ms[j].0;
    assert(first_member_at(ms, key, j));
    let c = choose|c: int| #[trigger] first_member_at(ms, key, c);
    if c < j {
        assert(ms[c].0 != key);
    }
    if c > j {
        assert(ms[j].0 != key);
    }
}

/// The draft takes each of its fields from the answer's member of that
/// name: the first member called `title`, `description`, `team`, `project`
/// or `priority` that is a string gives that field its text.
pub proof fn law_draft_takes_named_members(
    ms: Seq<(Seq<char>, Option<Seq<char>>)>,
    j: int,
    t: Seq<char>,
)
    requires
        0 <= j < ms.len(),
        ms[j].1 == Some(t),
        forall|k: int| 0 <= k < j ==> ms[k].0 != ms[j].0,
    ensures
        ms[j].0 == "title"@ ==> draft_of(JsonDocView::Object(ms)).title == t,
        ms[j].0 == "description"@ ==> draft_of(JsonDocView::Object(ms)).description == t,
        ms[j].0 == "team"@ ==> draft_of(JsonDocView::Object(ms)).team_name == Some(t),
        ms[j].0 == "project"@ ==> draft_of(JsonDocView::Object(ms)).project_name == Some(t),
        ms[j].0 == "priority"@ ==> draft_of(JsonDocView::Object(ms)).priority == Some(t),
{
    lemma_member_text_first(ms, j);
}

/// A draft field whose member is missing is empty (title, description) or
/// absent (team, project, priority).
pub proof fn law_draft_defaults_missing_members(ms: Seq<(Seq<char>, Option<Seq<char>>)>)
    ensures
        (forall|k: int| 0 <= k < ms.len() ==> ms[k].0 != "title"@) ==> draft_of(
            JsonDocView::Object(ms),
        ).title.len() == 0,
        (forall|k: int| 0 <= k < ms.len() ==> ms[k].0 != "description"@) ==> draft_of(
            JsonDocView::Object(ms),
        ).description.len() == 0,
        (forall|k: int| 0 <= k < ms.len() ==> ms[k].0 != "team"@) ==> draft_of(
            JsonDocView::Object(ms),
        ).team_name is None,
{
}

// ---------------------------------------------------------------------------
// Moving through lists
// ---------------------------------------------------------------------------

/// On every screen MoveDown (`j` or Down) moves that screen's selection
/// down and MoveUp (`k` or Up) moves it up: the issue list, the project
/// list, a project's issues, and the detail view's body, threads and output.
pub proof fn law_move_keys_move_the_right_way(
    view: View,
    section: DetailSection,
    has_search: bool,
    thread_has_output: bool,
)
    ensures
        ({
            let down = browse_command(view, section, has_search, thread_has_output, Action::MoveDown);
            let up = browse_command(view, section, has_search, thread_has_output, Action::MoveUp);
            &&& view == View::MyIssues ==> down == Command::IssueDown && up == Command::IssueUp
            &&& view == View::ProjectList ==> down == Command::ProjectDown && up == Command::ProjectUp
            &&& view == View::ProjectDetail ==> down == Command::ProjectIssueDown && up
                == Command::ProjectIssueUp
            &&& (view == View::Detail && section == DetailSection::Body) ==> down
                == Command::DetailDown && up == Command::DetailUp
            &&& (view == View::Detail && section == DetailSection::Threads) ==> down
                == Command::ThreadDown && up == Command::ThreadUp
            &&& (view == View::Detail && section == DetailSection::Output) ==> down
                == Command::OutputDown && up == Command::OutputUp
        }),
{
}

} // verus!
