//! Persistent state: thread links (thread → issue and workspace), the
//! workspace history (most recent first, no repeats) and the session-run
//! records keyed by run identifier.

use crate::ordered_map::{strictly_sorted, OrderedMap};
use crate::text::{lex_lt, owned, str_eq};
use vstd::prelude::*;

verus! {

/// A thread's link to an issue and the workspace it was started in.
#[derive(Debug, PartialEq, Eq)]
pub struct ThreadLink {
    pub issue: String,
    pub workspace: String,
}

/// The content of a thread link.
pub struct ThreadLinkView {
    pub issue: Seq<char>,
    pub workspace: Seq<char>,
}

impl View for ThreadLink {
    type V = ThreadLinkView;

    open spec fn view(&self) -> ThreadLinkView {
        ThreadLinkView { issue: self.issue@, workspace: self.workspace@ }
    }
}

/// Lifecycle state of a background session run.
#[derive(Debug, Clone, Copy, PartialEq, Eq, Structural)]
pub enum SessionRunStatus {
    Pending,
    Running,
    Completed,
    Failed,
    Stale,
}

impl Default for SessionRunStatus {
    fn default() -> (r: Self)
        ensures
            r == SessionRunStatus::Pending,
    {
        SessionRunStatus::Pending
    }
}

/// Metadata for one background session run.
#[derive(Debug, PartialEq, Eq)]
pub struct SessionRun {
    /// Thread this run targets.
    pub thread_id: String,
    /// Issue identifier this run is associated with.
    pub issue: String,
    /// Workspace where this run executes.
    pub workspace: String,
    /// Process ID while the run is active.
    pub pid: Option<u32>,
    /// Current lifecycle status.
    pub status: SessionRunStatus,
    /// Path to the run's log output, if recorded.
    pub log_path: Option<String>,
    /// Creation time of the record (milliseconds since the Unix epoch).
    pub created_at_ms: u64,
    /// Time of the last metadata update (milliseconds since the Unix epoch).
    pub updated_at_ms: u64,
    /// Time the process started (milliseconds since the Unix epoch).
    pub started_at_ms: Option<u64>,
    /// Time the run reached a terminal status (milliseconds since the Unix epoch).
    pub finished_at_ms: Option<u64>,
}

fn copy_opt_string(s: &Option<String>) -> (r: Option<String>)
    ensures
        r == *s,
{
    match s {
        Some(x) => Some(x.clone()),
        None => None,
    }
}

impl SessionRun {
    /// A field-for-field copy.
    pub fn duplicate(&self) -> (r: SessionRun)
        ensures
            r == *self,
    {
        SessionRun {
            thread_id: self.thread_id.clone(),
            issue: self.issue.clone(),
            workspace: self.workspace.clone(),
            pid: self.pid,
            status: self.status,
            log_path: copy_opt_string(&self.log_path),
            created_at_ms: self.created_at_ms,
            updated_at_ms: self.updated_at_ms,
            started_at_ms: self.started_at_ms,
            finished_at_ms: self.finished_at_ms,
        }
    }
}

/// The characters of each string in a sequence.
pub open spec fn string_views(s: Seq<String>) -> Seq<Seq<char>> {
    s.map_values(|x: String| x@)
}

/// `h` with every occurrence of `w` removed, order otherwise kept.
pub open spec fn without(h: Seq<Seq<char>>, w: Seq<char>) -> Seq<Seq<char>>
    decreases h.len(),
{
    if h.len() == 0 {
        h
    } else if h.last() == w {
        without(h.drop_last(), w)
    } else {
        without(h.drop_last(), w).push(h.last())
    }
}

/// The workspace history after `w` was used: `w` first, then the earlier
/// entries other than `w` in their previous order.
pub open spec fn history_after_use(h: Seq<Seq<char>>, w: Seq<char>) -> Seq<Seq<char>> {
    seq![w] + without(h, w)
}

/// No entry occurs twice.
pub open spec fn no_repeats(h: Seq<Seq<char>>) -> bool {
    forall|i: int, j: int| 0 <= i < j < h.len() ==> h[i] != h[j]
}

/// The thread IDs linked to `issue` in a link map.
pub open spec fn linked_to(links: Map<Seq<char>, ThreadLink>, issue: Seq<char>, t: Seq<char>) -> bool {
    links.contains_key(t) && links[t].issue@ == issue
}

/// Persistent state, stored by the program as a TOML file.
pub struct State {
    /// thread ID → link (issue identifier and workspace path)
    pub thread_links: OrderedMap<ThreadLink>,
    /// Workspace directory paths, most recent first.
    pub workspace_history: Vec<String>,
    /// run ID → session run metadata
    pub session_runs: OrderedMap<SessionRun>,
}

impl Default for State {
    fn default() -> (r: Self)
        ensures
            r.thread_links@ == Map::<Seq<char>, ThreadLink>::empty(),
            r.workspace_history@.len() == 0,
            r.session_runs@ == Map::<Seq<char>, SessionRun>::empty(),
    {
        State {
            thread_links: OrderedMap::new(),
            workspace_history: Vec::new(),
            session_runs: OrderedMap::new(),
        }
    }
}

impl State {
    /// The workspace history as character sequences.
    pub open spec fn history(&self) -> Seq<Seq<char>> {
        string_views(self.workspace_history@)
    }

    /// Records that `thread_id` belongs to `issue` and runs in `workspace`,
    /// replacing an earlier link of the same thread.
    pub fn add_thread_link(&mut self, thread_id: &str, issue: &str, workspace: &str)
        ensures
            final(self).thread_links@.dom() == old(self).thread_links@.dom().insert(thread_id@),
            final(self).thread_links@[thread_id@]@ == (ThreadLinkView {
                issue: issue@,
                workspace: workspace@,
            }),
            forall|t: Seq<char>|
                t != thread_id@ && #[trigger] old(self).thread_links@.contains_key(t)
                    ==> final(self).thread_links@[t] == old(self).thread_links@[t],
            final(self).workspace_history == old(self).workspace_history,
            final(self).session_runs == old(self).session_runs,
    {
        let link = ThreadLink { issue: owned(issue), workspace: owned(workspace) };
        self.thread_links.insert(thread_id, link);
    }

    /// The thread IDs linked to `issue`, in ascending order.
    pub fn threads_for_issue(&self, issue: &str) -> (r: Vec<&str>)
        ensures
            strictly_sorted(r@.map_values(|s: &str| s@)),
            forall|t: Seq<char>|
                r@.map_values(|s: &str| s@).contains(t) <==> linked_to(
                    self.thread_links@,
                    issue@,
                    t,
                ),
    {
        let n = self.thread_links.len();
        let ghost ks = self.thread_links.keys();
        let mut r: Vec<&str> = Vec::new();
        let mut i: usize = 0;
        while i < n
            invariant
                n == ks.len(),
                ks == self.thread_links.keys(),
                strictly_sorted(ks),
                i <= n,
                ks.len() == self.thread_links.values().len(),
                forall|k: int|
                    0 <= k < ks.len() ==> #[trigger] self.thread_links@[ks[k]]
                        == self.thread_links.values()[k],
                self.thread_links@.dom() == ks.to_set(),
                strictly_sorted(r@.map_values(|s: &str| s@)),
                forall|x: int|
                    0 <= x < r@.len() ==> exists|k: int|
                        0 <= k < i && #[trigger] ks[k] == (#[trigger] r@[x])@,
                forall|k: int|
                    0 <= k < i ==> (r@.map_values(|s: &str| s@).contains(#[trigger] ks[k])
                        <==> self.thread_links.values()[k].issue@ == issue@),
            decreases n - i,
        {
            let key = self.thread_links.key_at(i);
            let link = self.thread_links.value_at(i);
            let ghost old_r = r@;
            if str_eq(link.issue.as_str(), issue) {
                r.push(key.as_str());
                proof {
                    let rv = r@.map_values(|s: &str| s@);
                    let orv = old_r.map_values(|s: &str| s@);
                    assert(rv =~= orv.push(ks[i as int]));
                    assert forall|a: int, b: int| 0 <= a < b < rv.len() implies lex_lt(
                        #[trigger] rv[a],
                        #[trigger] rv[b],
                    ) by {
                        if b == rv.len() - 1 {
                            let k = choose|k: int| 0 <= k < i && #[trigger] ks[k] == old_r[a]@;
                            assert(lex_lt(ks[k], ks[i as int]));
                        } else {
                            assert(lex_lt(orv[a], orv[b]));
                        }
                    }
                    assert forall|k: int| 0 <= k < i + 1 implies (rv.contains(#[trigger] ks[k])
                        <==> self.thread_links.values()[k].issue@ == issue@) by {
                        if k < i {
                            if rv.contains(ks[k]) && !orv.contains(ks[k]) {
                                assert(rv.last() == ks[k]);
                                crate::ordered_map::lemma_sorted_distinct(ks, k, i as int);
                            }
                            if orv.contains(ks[k]) {
                                let x = choose|x: int| 0 <= x < orv.len() && orv[x] == ks[k];
                                assert(rv[x] == ks[k]);
                            }
                        } else {
                            assert(rv[rv.len() - 1] == ks[k]);
                        }
                    }
                    assert forall|x: int| 0 <= x < r@.len() implies exists|k: int|
                        0 <= k < i + 1 && #[trigger] ks[k] == (#[trigger] r@[x])@ by {
                        if x == r@.len() - 1 {
                            assert(ks[i as int] == r@[x]@);
                        } else {
                            assert(old_r[x] == r@[x]);
                        }
                    }
                }
            } else {
                proof {
                    let rv = r@.map_values(|s: &str| s@);
                    assert forall|k: int| 0 <= k < i + 1 implies (rv.contains(#[trigger] ks[k])
                        <==> self.thread_links.values()[k].issue@ == issue@) by {
                        if k == i && rv.contains(ks[k]) {
                            let x = choose|x: int| 0 <= x < rv.len() && rv[x] == ks[k];
                            let k2 = choose|k2: int| 0 <= k2 < i && #[trigger] ks[k2] == r@[x]@;
                            crate::ordered_map::lemma_sorted_distinct(ks, k2, i as int);
                        }
                    }
                }
            }
            i = i + 1;
        }
        proof {
            let rv = r@.map_values(|s: &str| s@);
            assert forall|t: Seq<char>| rv.contains(t) <==> linked_to(
                self.thread_links@,
                issue@,
                t,
            ) by {
                if rv.contains(t) {
                    let x = choose|x: int| 0 <= x < rv.len() && rv[x] == t;
                    let k = choose|k: int| 0 <= k < n && #[trigger] ks[k] == r@[x]@;
                    assert(ks.to_set().contains(t));
                }
                if linked_to(self.thread_links@, issue@, t) {
                    assert(ks.to_set().contains(t));
                    let k = choose|k: int| 0 <= k < ks.len() && ks[k] == t;
                    assert(rv.contains(ks[k]));
                }
            }
        }
        r
    }

    /// The workspace the thread was started in, if the thread is linked.
    pub fn workspace_for(&self, thread_id: &str) -> (r: Option<&str>)
        ensures
            r is Some == self.thread_links@.contains_key(thread_id@),
            r matches Some(w) ==> w@ == self.thread_links@[thread_id@].workspace@,
    {
        match self.thread_links.get(thread_id) {
            Some(link) => Some(link.workspace.as_str()),
            None => None,
        }
    }

    /// Puts `workspace` at the front of the history, removing any earlier
    /// occurrence of it.
    pub fn add_workspace(&mut self, workspace: &str)
        ensures
            final(self).history() == history_after_use(old(self).history(), workspace@),
            final(self).thread_links == old(self).thread_links,
            final(self).session_runs == old(self).session_runs,
    {
        let ghost h = self.history();
        let mut kept: Vec<String> = Vec::new();
        kept.push(owned(workspace));
        let mut i: usize = 0;
        let n = self.workspace_history.len();
        while i < n
            invariant
                n == self.workspace_history@.len(),
                h == self.history(),
                i <= n,
                string_views(kept@) == seq![workspace@] + without(h.take(i as int), workspace@),
            decreases n - i,
        {
            let w = &self.workspace_history[i];
            proof {
                assert(h.take(i + 1).drop_last() =~= h.take(i as int));
                assert(h.take(i + 1).last() == w@);
            }
            let ghost old_kept = kept@;
            if !str_eq(w.as_str(), workspace) {
                let c = w.clone();
                kept.push(c);
                proof {
                    assert(string_views(kept@) =~= string_views(old_kept).push(w@));
                    assert(without(h.take(i + 1), workspace@) == without(
                        h.take(i as int),
                        workspace@,
                    ).push(w@));
                    assert(string_views(kept@) =~= seq![workspace@] + without(
                        h.take(i + 1),
                        workspace@,
                    ));
                }
            } else {
                assert(without(h.take(i + 1), workspace@) == without(h.take(i as int), workspace@));
            }
            i = i + 1;
        }
        assert(h.take(n as int) =~= h);
        self.workspace_history = kept;
    }

    /// The workspace history, most recent first.
    pub fn workspaces(&self) -> (r: &[String])
        ensures
            r@ == self.workspace_history@,
    {
        self.workspace_history.as_slice()
    }

    /// Records run metadata under `run_id`, replacing an earlier record.
    pub fn add_session_run(&mut self, run_id: &str, run: SessionRun)
        ensures
            final(self).session_runs@ == old(self).session_runs@.insert(run_id@, run),
            final(self).thread_links == old(self).thread_links,
            final(self).workspace_history == old(self).workspace_history,
    {
        self.session_runs.insert(run_id, run);
    }

    /// The run recorded under `run_id`.
    pub fn session_run(&self, run_id: &str) -> (r: Option<&SessionRun>)
        ensures
            r is Some == self.session_runs@.contains_key(run_id@),
            r matches Some(v) ==> *v == self.session_runs@[run_id@],
    {
        self.session_runs.get(run_id)
    }

    /// All runs, in ascending order of run ID.
    pub fn session_runs(&self) -> (r: &OrderedMap<SessionRun>)
        ensures
            *r == self.session_runs,
    {
        &self.session_runs
    }
}

/// The runs of `issue` among the records (`keys[i]` is the run ID of
/// `runs[i]`), with their IDs, in record order.
pub open spec fn runs_of(keys: Seq<Seq<char>>, runs: Seq<SessionRun>, issue: Seq<char>) -> Seq<
    (Seq<char>, SessionRun),
>
    decreases runs.len(),
{
    if keys.len() == 0 || runs.len() == 0 {
        Seq::empty()
    } else {
        let rest = runs_of(keys.drop_last(), runs.drop_last(), issue);
        if runs.last().issue@ == issue {
            rest.push((keys.last(), runs.last()))
        } else {
            rest
        }
    }
}

/// A run marked stale by hand at `now_ms`: no process, status stale, a
/// finish time (kept when it had one) and `now_ms` as update time.
pub open spec fn marked_stale(run: SessionRun, now_ms: u64) -> SessionRun {
    SessionRun {
        status: SessionRunStatus::Stale,
        pid: None,
        finished_at_ms: if run.finished_at_ms is None {
            Some(now_ms)
        } else {
            run.finished_at_ms
        },
        updated_at_ms: now_ms,
        ..run
    }
}

impl State {
    /// The runs of `issue` with their run IDs, in ascending order of run ID.
    pub fn runs_for_issue(&self, issue: &str) -> (r: Vec<(&str, &SessionRun)>)
        ensures
            r@.map_values(|e: (&str, &SessionRun)| (e.0@, *e.1)) == runs_of(
                self.session_runs.keys(),
                self.session_runs.values(),
                issue@,
            ),
    {
        let n = self.session_runs.len();
        let ghost ks = self.session_runs.keys();
        let ghost vs = self.session_runs.values();
        let mut r: Vec<(&str, &SessionRun)> = Vec::new();
        let mut i: usize = 0;
        while i < n
            invariant
                n == ks.len(),
                ks.len() == vs.len(),
                ks == self.session_runs.keys(),
                vs == self.session_runs.values(),
                i <= n,
                r@.map_values(|e: (&str, &SessionRun)| (e.0@, *e.1)) == runs_of(
                    ks.take(i as int),
                    vs.take(i as int),
                    issue@,
                ),
            decreases n - i,
        {
            proof {
                assert(ks.take(i + 1).drop_last() =~= ks.take(i as int));
                assert(vs.take(i + 1).drop_last() =~= vs.take(i as int));
            }
            let key = self.session_runs.key_at(i);
            let run = self.session_runs.value_at(i);
            let ghost before = r@;
            if str_eq(run.issue.as_str(), issue) {
                r.push((key.as_str(), run));
                proof {
                    assert(r@.map_values(|e: (&str, &SessionRun)| (e.0@, *e.1)) =~= before.map_values(
                        |e: (&str, &SessionRun)| (e.0@, *e.1),
                    ).push((ks[i as int], vs[i as int])));
                }
            }
            i = i + 1;
        }
        proof {
            assert(ks.take(n as int) =~= ks);
            assert(vs.take(n as int) =~= vs);
        }
        r
    }

    /// Marks the run `run_id` stale at `now_ms` (no process, status stale);
    /// returns whether that changed anything: false for an unknown run or
    /// one already stale without a process.
    pub fn mark_session_run_stale(&mut self, run_id: &str, now_ms: u64) -> (changed: bool)
        ensures
            changed == (old(self).session_runs@.contains_key(run_id@) && !(old(
                self,
            ).session_runs@[run_id@].status == SessionRunStatus::Stale && old(
                self,
            ).session_runs@[run_id@].pid is None)),
            changed ==> final(self).session_runs@ == old(self).session_runs@.insert(
                run_id@,
                marked_stale(old(self).session_runs@[run_id@], now_ms),
            ),
            !changed ==> final(self).session_runs@ == old(self).session_runs@,
            final(self).thread_links == old(self).thread_links,
            final(self).workspace_history == old(self).workspace_history,
    {
        let updated = match self.session_runs.get(run_id) {
            None => None,
            Some(run) => {
                if run.status == SessionRunStatus::Stale && run.pid.is_none() {
                    None
                } else {
                    let mut m = run.duplicate();
                    m.status = SessionRunStatus::Stale;
                    m.pid = None;
                    if m.finished_at_ms.is_none() {
                        m.finished_at_ms = Some(now_ms);
                    }
                    m.updated_at_ms = now_ms;
                    Some(m)
                }
            },
        };
        match updated {
            Some(m) => {
                self.session_runs.insert(run_id, m);
                true
            },
            None => false,
        }
    }
}

} // verus!
