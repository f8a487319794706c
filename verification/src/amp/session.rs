//! Live agent sessions: their status and the command line that starts them.

use crate::amp::state::string_views;
use crate::ordered_map::OrderedMap;
use crate::text::{owned, str_eq};
use vstd::prelude::*;

verus! {

/// Status of a live agent session process.
#[derive(Debug, Clone, Copy, PartialEq, Eq, Structural)]
pub enum SessionStatus {
    /// The process is alive and waiting for input or producing output.
    Running,
    /// The session finished a turn and is idle.
    Idle,
    /// The process exited or failed.
    Failed,
}

impl SessionStatus {
    /// A session that has failed or gone idle is terminated: cleanup forgets
    /// it.
    pub open spec fn terminated(self) -> bool {
        self == SessionStatus::Failed || self == SessionStatus::Idle
    }

    /// A session that is neither failed nor idle.
    pub open spec fn live(self) -> bool {
        !self.terminated()
    }
}

/// The arguments that continue `thread_id` as a streaming JSON session.
pub open spec fn session_args(thread_id: Seq<char>) -> Seq<Seq<char>> {
    seq![
        "threads"@,
        "continue"@,
        thread_id,
        "-x"@,
        "--stream-json"@,
        "--stream-json-input"@,
        "--dangerously-allow-all"@,
        "--no-notifications"@,
    ]
}

/// Arguments for `amp` that continue a thread as a bidirectional session.
pub fn build_session_args(thread_id: &str) -> (r: Vec<String>)
    ensures
        r@.map_values(|s: String| s@) == session_args(thread_id@),
{
    let mut r: Vec<String> = Vec::new();
    r.push(owned("threads"));
    r.push(owned("continue"));
    r.push(owned(thread_id));
    r.push(owned("-x"));
    r.push(owned("--stream-json"));
    r.push(owned("--stream-json-input"));
    r.push(owned("--dangerously-allow-all"));
    r.push(owned("--no-notifications"));
    assert(r@.map_values(|s: String| s@) =~= session_args(thread_id@));
    r
}

/// What the program keeps of a live session besides its process: the issue
/// and workspace it was started for and its status.
#[derive(Debug, PartialEq, Eq)]
pub struct SessionEntry {
    pub issue: String,
    pub workspace: String,
    pub status: SessionStatus,
}

/// Why a message cannot be sent to a session.
#[derive(Debug, Clone, Copy, PartialEq, Eq, Structural)]
pub enum SendRefusal {
    /// No session is registered for the thread.
    NoSession,
    /// The session's process has failed.
    Failed,
}

/// The live sessions, keyed by thread ID.
pub struct SessionRegistry {
    sessions: OrderedMap<SessionEntry>,
}

/// The sessions of `m` except the terminated (failed or idle) ones.
pub open spec fn without_terminated(m: Map<Seq<char>, SessionEntry>) -> Map<Seq<char>, SessionEntry> {
    Map::new(|k: Seq<char>| m.contains_key(k) && m[k].status.live(), |k: Seq<char>| m[k])
}

/// The thread IDs among `keys` whose session (the value at the same
/// position) belongs to `issue`, in order.
pub open spec fn threads_of(keys: Seq<Seq<char>>, entries: Seq<SessionEntry>, issue: Seq<char>) -> Seq<
    Seq<char>,
>
    decreases entries.len(),
{
    if keys.len() == 0 || entries.len() == 0 {
        Seq::empty()
    } else {
        let rest = threads_of(keys.drop_last(), entries.drop_last(), issue);
        if entries.last().issue@ == issue {
            rest.push(keys.last())
        } else {
            rest
        }
    }
}

proof fn lemma_keep_step(m: Map<Seq<char>, SessionEntry>, ks: Seq<Seq<char>>, i: int)
    requires
        0 <= i < ks.len(),
        m.dom() == ks.to_set(),
    ensures
        without_terminated(m).restrict(ks.take(i + 1).to_set()) == if m[ks[i]].status.live() {
            without_terminated(m).restrict(ks.take(i).to_set()).insert(ks[i], m[ks[i]])
        } else {
            without_terminated(m).restrict(ks.take(i).to_set())
        },
{
    let a = ks.take(i + 1);
    let b = ks.take(i);
    assert(a =~= b.push(ks[i]));
    assert(a.to_set() =~= b.to_set().insert(ks[i])) by {
        assert forall|t: Seq<char>| a.to_set().contains(t) <==> b.to_set().insert(ks[i]).contains(
            t,
        ) by {
            if a.contains(t) {
                let k = choose|k: int| 0 <= k < a.len() && #[trigger] a[k] == t;
                if k < i {
                    assert(b[k] == t);
                }
            }
            if b.contains(t) {
                let k = choose|k: int| 0 <= k < b.len() && #[trigger] b[k] == t;
                assert(a[k] == t);
            }
            if t == ks[i] {
                assert(a[i] == t);
            }
        }
    }
    assert(ks.to_set().contains(ks[i])) by {
        assert(ks[i] == ks[i]);
    }
    let lhs = without_terminated(m).restrict(ks.take(i + 1).to_set());
    if m[ks[i]].status.live() {
        assert(lhs =~= without_terminated(m).restrict(ks.take(i).to_set()).insert(ks[i], m[ks[i]]));
    } else {
        assert(lhs =~= without_terminated(m).restrict(ks.take(i).to_set()));
    }
}

impl SessionRegistry {
    /// The sessions by thread ID.
    pub closed spec fn spec_sessions(&self) -> Map<Seq<char>, SessionEntry> {
        self.sessions@
    }

    /// The thread IDs in ascending order.
    pub closed spec fn spec_threads(&self) -> Seq<Seq<char>> {
        self.sessions.keys()
    }

    /// The sessions in ascending order of thread ID.
    pub closed spec fn spec_entries(&self) -> Seq<SessionEntry> {
        self.sessions.values()
    }

    /// No sessions.
    pub fn new() -> (r: Self)
        ensures
            r.spec_sessions() == Map::<Seq<char>, SessionEntry>::empty(),
    {
        SessionRegistry { sessions: OrderedMap::new() }
    }

    /// Registers a session just started for `thread_id`; it is running.
    pub fn register(&mut self, thread_id: &str, issue: &str, workspace: &str)
        ensures
            final(self).spec_sessions().dom() == old(self).spec_sessions().dom().insert(thread_id@),
            final(self).spec_sessions()[thread_id@].issue@ == issue@,
            final(self).spec_sessions()[thread_id@].workspace@ == workspace@,
            final(self).spec_sessions()[thread_id@].status == SessionStatus::Running,
            forall|t: Seq<char>|
                t != thread_id@ && #[trigger] old(self).spec_sessions().contains_key(t)
                    ==> final(self).spec_sessions()[t] == old(self).spec_sessions()[t],
    {
        let entry = SessionEntry {
            issue: owned(issue),
            workspace: owned(workspace),
            status: SessionStatus::Running,
        };
        self.sessions.insert(thread_id, entry);
    }

    /// Whether a session is registered for `thread_id`.
    pub fn has_session(&self, thread_id: &str) -> (r: bool)
        ensures
            r == self.spec_sessions().contains_key(thread_id@),
    {
        self.sessions.contains_key(thread_id)
    }

    /// The status of the session of `thread_id`.
    pub fn get(&self, thread_id: &str) -> (r: Option<SessionStatus>)
        ensures
            r is Some == self.spec_sessions().contains_key(thread_id@),
            r matches Some(s) ==> s == self.spec_sessions()[thread_id@].status,
    {
        match self.sessions.get(thread_id) {
            Some(e) => Some(e.status),
            None => None,
        }
    }

    /// Sets the status of the session of `thread_id` (when there is one).
    pub fn set_status(&mut self, thread_id: &str, status: SessionStatus)
        ensures
            old(self).spec_sessions().contains_key(thread_id@) ==> final(self).spec_sessions()
                == old(self).spec_sessions().insert(
                thread_id@,
                SessionEntry { status, ..old(self).spec_sessions()[thread_id@] },
            ),
            !old(self).spec_sessions().contains_key(thread_id@) ==> final(self).spec_sessions()
                == old(self).spec_sessions(),
    {
        let updated = match self.sessions.get(thread_id) {
            Some(e) => Some(
                SessionEntry { issue: e.issue.clone(), workspace: e.workspace.clone(), status },
            ),
            None => None,
        };
        if let Some(e) = updated {
            self.sessions.insert(thread_id, e);
        }
    }

    /// Whether a message may be sent to the session of `thread_id`: not
    /// without a session, nor to a failed one.
    pub fn check_send(&self, thread_id: &str) -> (r: Result<(), SendRefusal>)
        ensures
            !self.spec_sessions().contains_key(thread_id@) ==> r == Err::<(), SendRefusal>(
                SendRefusal::NoSession,
            ),
            self.spec_sessions().contains_key(thread_id@) ==> r == if self.spec_sessions()[thread_id@].status
                == SessionStatus::Failed {
                Err::<(), SendRefusal>(SendRefusal::Failed)
            } else {
                Ok::<(), SendRefusal>(())
            },
    {
        match self.sessions.get(thread_id) {
            None => Err(SendRefusal::NoSession),
            Some(e) => if e.status == SessionStatus::Failed {
                Err(SendRefusal::Failed)
            } else {
                Ok(())
            },
        }
    }

    /// Forgets the session of `thread_id`; returns whether there was one.
    pub fn remove(&mut self, thread_id: &str) -> (r: bool)
        ensures
            r == old(self).spec_sessions().contains_key(thread_id@),
            final(self).spec_sessions() == old(self).spec_sessions().remove(thread_id@),
    {
        self.sessions.remove(thread_id).is_some()
    }

    /// Forgets every terminated session, failed or idle; returns their
    /// thread IDs, in ascending order.
    pub fn cleanup_terminated(&mut self) -> (r: Vec<String>)
        ensures
            final(self).spec_sessions() == without_terminated(old(self).spec_sessions()),
            forall|t: Seq<char>|
                string_views(r@).contains(t) <==> (old(self).spec_sessions().contains_key(t)
                    && old(self).spec_sessions()[t].status.terminated()),
    {
        let n = self.sessions.len();
        let ghost ks = self.sessions.keys();
        let ghost old_m = self.sessions@;
        let mut kept: OrderedMap<SessionEntry> = OrderedMap::new();
        let mut gone: Vec<String> = Vec::new();
        let mut i: usize = 0;
        while i < n
            invariant
                n == ks.len(),
                ks == self.sessions.keys(),
                old_m == self.sessions@,
                old_m.dom() == ks.to_set(),
                ks.len() == self.sessions.values().len(),
                forall|k: int| 0 <= k < n ==> #[trigger] old_m[ks[k]] == self.sessions.values()[k],
                crate::ordered_map::strictly_sorted(ks),
                i <= n,
                kept@ == without_terminated(old_m).restrict(ks.take(i as int).to_set()),
                forall|t: Seq<char>|
                    string_views(gone@).contains(t) <==> (ks.take(i as int).contains(t)
                        && old_m[t].status.terminated()),
            decreases n - i,
        {
            let key = self.sessions.key_at(i);
            let e = self.sessions.value_at(i);
            let ghost old_kept = kept@;
            let ghost old_gone = gone@;
            proof {
                assert(ks.take(i + 1) =~= ks.take(i as int).push(ks[i as int]));
            }
            if e.status == SessionStatus::Failed || e.status == SessionStatus::Idle {
                gone.push(key.clone());
                proof {
                    assert(string_views(gone@) =~= string_views(old_gone).push(
                        ks[i as int],
                    ));
                    lemma_keep_step(old_m, ks, i as int);
                }
            } else {
                kept.insert(
                    key.as_str(),
                    SessionEntry {
                        issue: e.issue.clone(),
                        workspace: e.workspace.clone(),
                        status: e.status,
                    },
                );
                proof {
                    lemma_keep_step(old_m, ks, i as int);
                }
            }
            proof {
                let gv = string_views(gone@);
                let ogv = string_views(old_gone);
                assert(!ks.take(i as int).contains(ks[i as int])) by {
                    if ks.take(i as int).contains(ks[i as int]) {
                        let k = choose|k: int|
                            0 <= k < i && #[trigger] ks.take(i as int)[k] == ks[i as int];
                        crate::ordered_map::lemma_sorted_distinct(ks, k, i as int);
                    }
                }
                assert(e.status == old_m[ks[i as int]].status);
                if e.status.terminated() {
                    assert(gv =~= ogv.push(ks[i as int]));
                } else {
                    assert(gv =~= ogv);
                }
                assert forall|t: Seq<char>|
                    gv.contains(t) <==> (ks.take(i + 1).contains(t) && old_m[t].status.terminated()) by {
                    let in_old = ogv.contains(t);
                    assert(in_old <==> (ks.take(i as int).contains(t) && old_m[t].status.terminated()));
                    if ks.take(i + 1).contains(t) {
                        let k = choose|k: int| 0 <= k < i + 1 && #[trigger] ks.take(i + 1)[k] == t;
                        if k < i {
                            assert(ks.take(i as int)[k] == t);
                        } else {
                            assert(t == ks[i as int]);
                        }
                    }
                    if ks.take(i as int).contains(t) {
                        let k = choose|k: int| 0 <= k < i && #[trigger] ks.take(i as int)[k] == t;
                        assert(ks.take(i + 1)[k] == t);
                    }
                    if in_old {
                        let x = choose|x: int| 0 <= x < ogv.len() && #[trigger] ogv[x] == t;
                        assert(gv[x] == t);
                    }
                    if e.status.terminated() {
                        assert(gv[ogv.len() as int] == ks[i as int]);
                        assert(ks.take(i + 1)[i as int] == ks[i as int]);
                        if gv.contains(t) && !in_old {
                            let x = choose|x: int| 0 <= x < gv.len() && #[trigger] gv[x] == t;
                            if x < ogv.len() {
                                assert(ogv[x] == t);
                            }
                        }
                    }
                }
            }
            i = i + 1;
        }
        proof {
            assert(ks.take(n as int) =~= ks);
            assert(without_terminated(old_m).restrict(ks.to_set()) =~= without_terminated(old_m));
            assert forall|t: Seq<char>| ks.contains(t) <==> old_m.contains_key(t) by {
                assert(ks.to_set().contains(t) == ks.contains(t));
            }
            let gv = string_views(gone@);
            assert forall|t: Seq<char>|
                gv.contains(t) <==> (old_m.contains_key(t) && old_m[t].status.terminated()) by {
                assert(ks.take(n as int).contains(t) == ks.contains(t));
            }
        }
        self.sessions = kept;
        gone
    }

    /// The number of sessions.
    pub fn active_count(&self) -> (r: usize)
        ensures
            r == self.spec_sessions().len(),
    {
        self.sessions.len()
    }

    /// The thread IDs of all sessions, in ascending order.
    pub fn active_thread_ids(&self) -> (r: Vec<&str>)
        ensures
            r@.map_values(|s: &str| s@) == self.spec_threads(),
            crate::ordered_map::strictly_sorted(self.spec_threads()),
            self.spec_threads().to_set() == self.spec_sessions().dom(),
    {
        let n = self.sessions.len();
        let ghost ks = self.sessions.keys();
        let mut r: Vec<&str> = Vec::new();
        let mut i: usize = 0;
        while i < n
            invariant
                n == ks.len(),
                ks == self.sessions.keys(),
                i <= n,
                r@.map_values(|s: &str| s@) == ks.take(i as int),
            decreases n - i,
        {
            let ghost before = r@;
            r.push(self.sessions.key_at(i).as_str());
            proof {
                assert(r@.map_values(|s: &str| s@) =~= before.map_values(|s: &str| s@).push(ks[i as int]));
                assert(ks.take(i + 1) =~= ks.take(i as int).push(ks[i as int]));
            }
            i = i + 1;
        }
        assert(ks.take(n as int) =~= ks);
        r
    }

    /// The thread IDs of the sessions of `issue`, in ascending order.
    pub fn threads_for_issue(&self, issue: &str) -> (r: Vec<&str>)
        ensures
            r@.map_values(|s: &str| s@) == threads_of(self.spec_threads(), self.spec_entries(), issue@),
    {
        let n = self.sessions.len();
        let ghost ks = self.sessions.keys();
        let ghost vs = self.sessions.values();
        let mut r: Vec<&str> = Vec::new();
        let mut i: usize = 0;
        while i < n
            invariant
                n == ks.len(),
                ks.len() == vs.len(),
                ks == self.sessions.keys(),
                vs == self.sessions.values(),
                i <= n,
                r@.map_values(|s: &str| s@) == threads_of(ks.take(i as int), vs.take(i as int), issue@),
            decreases n - i,
        {
            proof {
                assert(ks.take(i + 1).drop_last() =~= ks.take(i as int));
                assert(vs.take(i + 1).drop_last() =~= vs.take(i as int));
            }
            let e = self.sessions.value_at(i);
            let ghost before = r@;
            if str_eq(e.issue.as_str(), issue) {
                r.push(self.sessions.key_at(i).as_str());
                proof {
                    assert(r@.map_values(|s: &str| s@) =~= before.map_values(|s: &str| s@).push(
                        ks[i as int],
                    ));
                }
            }
            i = i + 1;
        }
        proof {
            assert(ks.take(n as int) =~= ks);
            assert(vs.take(n as int) =~= vs);
        }
        r
    }
}

/// A lowercase hexadecimal digit.
pub open spec fn hex_digit(n: int) -> char {
    if n < 10 {
        (('0' as int) + n) as char
    } else {
        (('a' as int) + n - 10) as char
    }
}

/// How `serde_json` writes one character inside a JSON string: `"` and `\`
/// and the control characters backspace, tab, line feed, form feed and
/// carriage return get their two-character escapes, every other character
/// below U+0020 becomes `\u00` and two lowercase hex digits, and any other
/// character stands as it is.
pub open spec fn json_escaped_char(c: char) -> Seq<char> {
    if c == '"' {
        seq!['\\', '"']
    } else if c == '\\' {
        seq!['\\', '\\']
    } else if c == '\u{8}' {
        seq!['\\', 'b']
    } else if c == '\t' {
        seq!['\\', 't']
    } else if c == '\n' {
        seq!['\\', 'n']
    } else if c == '\u{c}' {
        seq!['\\', 'f']
    } else if c == '\r' {
        seq!['\\', 'r']
    } else if (c as int) < 0x20 {
        seq!['\\', 'u', '0', '0', hex_digit((c as int) / 16), hex_digit((c as int) % 16)]
    } else {
        seq![c]
    }
}

/// The characters of a text as escaped inside a JSON string.
pub open spec fn json_escaped(s: Seq<char>) -> Seq<char>
    decreases s.len(),
{
    if s.len() == 0 {
        Seq::empty()
    } else {
        json_escaped(s.drop_last()) + json_escaped_char(s.last())
    }
}

/// The JSON string literal `serde_json` writes for a text: the escaped text
/// between double quotes.
pub open spec fn json_quoted(s: Seq<char>) -> Seq<char> {
    seq!['"'] + json_escaped(s) + seq!['"']
}

/// `serde_json::to_string` on a string: its JSON string literal. The call
/// writes into a `Vec<u8>`, whose writes do not fail, and a string's
/// serialisation reports no error of its own, so the result is always
/// `Some`.
#[verifier::external_body]
fn to_json_string(s: &str) -> (r: Option<String>)
    ensures
        r is Some,
        r matches Some(t) ==> t@ == json_quoted(s@),
{
    serde_json::to_string(s).ok()
}

/// The input line that sends `text` as a user message to a session: the
/// JSON object `{"type":"user","message":{"role":"user","content":[{"type":
/// "text","text":...}]}}` with its keys in ascending order, and a newline.
pub open spec fn user_message_json(text: Seq<char>) -> Seq<char> {
    "{\"message\":{\"content\":[{\"text\":"@ + json_quoted(text)
        + ",\"type\":\"text\"}],\"role\":\"user\"},\"type\":\"user\"}\n"@
}

/// The line to write to a session's input to send `text` as a user message.
pub fn user_message_line(text: &str) -> (r: String)
    ensures
        r@ == user_message_json(text@),
{
    let quoted = to_json_string(text).unwrap();
    let mut line = owned("{\"message\":{\"content\":[{\"text\":");
    line.push_str(quoted.as_str());
    line.push_str(",\"type\":\"text\"}],\"role\":\"user\"},\"type\":\"user\"}\n");
    line
}

} // verus!
