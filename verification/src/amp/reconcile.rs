//! Reconciliation of persisted session-run records with what is observed of
//! their processes: whether the recorded process is alive, and the exit code
//! that its log records.

use crate::text::{chars_of, trim, trim_chars};
use crate::amp::state::{SessionRun, SessionRunStatus, State};
use vstd::prelude::*;

verus! {

/// The status a run should have given its current status, its recorded
/// process, whether that process is alive (known only when there is one) and
/// the exit code its log records.
pub open spec fn desired(
    current: SessionRunStatus,
    pid: Option<u32>,
    process_alive: Option<bool>,
    exit_code: Option<i32>,
) -> SessionRunStatus {
    if process_alive == Some(true) {
        SessionRunStatus::Running
    } else if exit_code is Some {
        if exit_code->0 == 0 {
            SessionRunStatus::Completed
        } else {
            SessionRunStatus::Failed
        }
    } else {
        match current {
            SessionRunStatus::Completed => SessionRunStatus::Completed,
            SessionRunStatus::Failed => SessionRunStatus::Failed,
            SessionRunStatus::Pending => if pid is None {
                SessionRunStatus::Pending
            } else {
                SessionRunStatus::Stale
            },
            _ => SessionRunStatus::Stale,
        }
    }
}

/// A terminal status: the run's process is gone for good.
pub open spec fn is_terminal(s: SessionRunStatus) -> bool {
    s == SessionRunStatus::Completed || s == SessionRunStatus::Failed || s == SessionRunStatus::Stale
}

/// The run record with its status brought in line with the observation and
/// its timestamps and process ID adjusted to the status, before the
/// update-time stamp.
pub open spec fn adjusted(
    run: SessionRun,
    now_ms: u64,
    process_alive: Option<bool>,
    exit_code: Option<i32>,
) -> SessionRun {
    let status = desired(run.status, run.pid, process_alive, exit_code);
    if status == SessionRunStatus::Pending {
        SessionRun { status, finished_at_ms: None, ..run }
    } else if status == SessionRunStatus::Running {
        SessionRun {
            status,
            started_at_ms: if run.started_at_ms is None {
                Some(now_ms)
            } else {
                run.started_at_ms
            },
            finished_at_ms: None,
            ..run
        }
    } else {
        let restamp = run.finished_at_ms is None || (status != run.status && (status
            == SessionRunStatus::Completed || status == SessionRunStatus::Failed));
        SessionRun {
            status,
            pid: None,
            finished_at_ms: if restamp {
                Some(now_ms)
            } else {
                run.finished_at_ms
            },
            ..run
        }
    }
}

/// The run record after reconciliation: the adjusted record, stamped with
/// `now_ms` as its update time when anything changed.
pub open spec fn reconciled(
    run: SessionRun,
    now_ms: u64,
    process_alive: Option<bool>,
    exit_code: Option<i32>,
) -> SessionRun {
    let a = adjusted(run, now_ms, process_alive, exit_code);
    if a == run {
        run
    } else {
        SessionRun { updated_at_ms: now_ms, ..a }
    }
}

/// The status to record for a run.
pub fn desired_status(
    current: SessionRunStatus,
    pid: Option<u32>,
    process_alive: Option<bool>,
    exit_code: Option<i32>,
) -> (r: SessionRunStatus)
    ensures
        r == desired(current, pid, process_alive, exit_code),
{
    if process_alive == Some(true) {
        return SessionRunStatus::Running;
    }
    if let Some(code) = exit_code {
        return if code == 0 {
            SessionRunStatus::Completed
        } else {
            SessionRunStatus::Failed
        };
    }
    match current {
        SessionRunStatus::Completed | SessionRunStatus::Failed => current,
        SessionRunStatus::Pending if pid.is_none() => SessionRunStatus::Pending,
        _ => SessionRunStatus::Stale,
    }
}

/// Whether the exit code in a run's log needs reading: not while the run's
/// process is known to be alive.
pub fn needs_exit_code(process_alive: Option<bool>) -> (r: bool)
    ensures
        r == (process_alive != Some(true)),
{
    process_alive != Some(true)
}

/// Brings one run record in line with an observation of its process and its
/// log; returns whether the record changed.
pub fn apply_observation(
    run: &mut SessionRun,
    now_ms: u64,
    process_alive: Option<bool>,
    exit_code: Option<i32>,
) -> (changed: bool)
    ensures
        *final(run) == reconciled(*old(run), now_ms, process_alive, exit_code),
        changed == (*final(run) != *old(run)),
        is_terminal(final(run).status) ==> final(run).pid is None
            && final(run).finished_at_ms is Some,
        final(run).status == SessionRunStatus::Running ==> final(run).started_at_ms is Some
            && final(run).finished_at_ms is None,
        final(run).status == SessionRunStatus::Pending ==> final(run).finished_at_ms is None,
{
    let ghost start = *run;
    let previous_status = run.status;
    let desired = desired_status(run.status, run.pid, process_alive, exit_code);
    let mut changed = false;
    if run.status != desired {
        run.status = desired;
        changed = true;
    }
    match run.status {
        SessionRunStatus::Pending => {
            if run.finished_at_ms.is_some() {
                run.finished_at_ms = None;
                changed = true;
            }
        },
        SessionRunStatus::Running => {
            if run.started_at_ms.is_none() {
                run.started_at_ms = Some(now_ms);
                changed = true;
            }
            if run.finished_at_ms.is_some() {
                run.finished_at_ms = None;
                changed = true;
            }
        },
        SessionRunStatus::Completed | SessionRunStatus::Failed | SessionRunStatus::Stale => {
            if run.pid.is_some() {
                run.pid = None;
                changed = true;
            }
            let should_set_finished_at = run.finished_at_ms.is_none() || (run.status
                != previous_status && (run.status == SessionRunStatus::Completed || run.status
                == SessionRunStatus::Failed));
            if should_set_finished_at {
                run.finished_at_ms = Some(now_ms);
                changed = true;
            }
        },
    }
    assert(*run == adjusted(start, now_ms, process_alive, exit_code));
    if changed {
        run.updated_at_ms = now_ms;
    }
    changed
}

/// The observations of a run are ones the two probes can give: liveness is
/// asked exactly when the run has a process, and the exit code exactly when
/// the process is not known to be alive.
pub open spec fn observed<P, X>(
    process_is_running: P,
    exit_code_for_run: X,
    run: SessionRun,
    process_alive: Option<bool>,
    exit_code: Option<i32>,
) -> bool where
    P: Fn(u32) -> Result<bool, anyhow::Error>,
    X: Fn(&SessionRun) -> Option<i32>,
 {
    &&& match run.pid {
        Some(pid) => process_alive is Some && process_is_running.ensures(
            (pid,),
            Ok(process_alive->0),
        ),
        None => process_alive is None,
    }
    &&& if process_alive == Some(true) {
        exit_code is None
    } else {
        exit_code_for_run.ensures((&run,), exit_code)
    }
}

/// `after` is `before` reconciled at `now_ms` against observations the probes
/// can give.
pub open spec fn reconciled_by<P, X>(
    process_is_running: P,
    exit_code_for_run: X,
    now_ms: u64,
    before: SessionRun,
    after: SessionRun,
) -> bool where
    P: Fn(u32) -> Result<bool, anyhow::Error>,
    X: Fn(&SessionRun) -> Option<i32>,
 {
    exists|alive: Option<bool>, code: Option<i32>|
        observed(process_is_running, exit_code_for_run, before, alive, code) && after
            == reconciled(before, now_ms, alive, code)
}

/// Reconciles one run using the two probes: liveness of its process (when it
/// has one) and the exit code in its log (unless the process is alive).
pub fn reconcile_run<P, X>(
    run: &mut SessionRun,
    now_ms: u64,
    process_is_running: &P,
    exit_code_for_run: &X,
) -> (r: Result<bool, anyhow::Error>) where
    P: Fn(u32) -> Result<bool, anyhow::Error>,
    X: Fn(&SessionRun) -> Option<i32>,

    requires
        forall|pid: u32| process_is_running.requires((pid,)),
        forall|s: &SessionRun| exit_code_for_run.requires((s,)),
    ensures
        match r {
            Ok(changed) => reconciled_by(
                *process_is_running,
                *exit_code_for_run,
                now_ms,
                *old(run),
                *final(run),
            ) && changed == (*final(run) != *old(run)),
            Err(e) => old(run).pid is Some && process_is_running.ensures(
                (old(run).pid->0,),
                Err(e),
            ) && *final(run) == *old(run),
        },
{
    let ghost start = *run;
    let process_alive = match run.pid {
        Some(pid) => match process_is_running(pid) {
            Ok(alive) => Some(alive),
            Err(e) => {
                return Err(e);
            },
        },
        None => None,
    };
    let exit_code = if needs_exit_code(process_alive) {
        exit_code_for_run(&*run)
    } else {
        None
    };
    let changed = apply_observation(run, now_ms, process_alive, exit_code);
    assert(observed(*process_is_running, *exit_code_for_run, start, process_alive, exit_code));
    Ok(changed)
}

/// `e` is an error the liveness probe can report for some process ID.
pub open spec fn liveness_error<P>(process_is_running: P, e: anyhow::Error) -> bool where
    P: Fn(u32) -> Result<bool, anyhow::Error>,
 {
    exists|pid: u32| process_is_running.ensures((pid,), Err(e))
}

/// The liveness probe failed with `e` on run `j` of `before` (a run with a
/// process): the runs before it were reconciled into `after`, and it and
/// every later run are left as they were.
pub open spec fn failed_at<P, X>(
    process_is_running: P,
    exit_code_for_run: X,
    now_ms: u64,
    before: Seq<SessionRun>,
    after: Seq<SessionRun>,
    j: int,
    e: anyhow::Error,
) -> bool where P: Fn(u32) -> Result<bool, anyhow::Error>, X: Fn(&SessionRun) -> Option<i32> {
    &&& 0 <= j < before.len()
    &&& after.len() == before.len()
    &&& before[j].pid is Some
    &&& process_is_running.ensures((before[j].pid->0,), Err(e))
    &&& forall|k: int|
        0 <= k < j ==> #[trigger] reconciled_by(
            process_is_running,
            exit_code_for_run,
            now_ms,
            before[k],
            after[k],
        )
    &&& forall|k: int| j <= k < before.len() ==> #[trigger] after[k] == before[k]
}

/// The number of positions at which two sequences of runs differ.
pub open spec fn count_changed(before: Seq<SessionRun>, after: Seq<SessionRun>) -> nat
    decreases before.len(),
{
    if before.len() == 0 || after.len() == 0 {
        0
    } else {
        count_changed(before.drop_last(), after.drop_last()) + if before.last() != after.last() {
            1nat
        } else {
            0nat
        }
    }
}

/// Reconciles every run record of `state` with the two probes, in ascending
/// order of run ID; returns how many records changed, or the first error of
/// the liveness probe, with the runs before the failing one reconciled and
/// the rest untouched.
#[verifier::spinoff_prover]
pub fn reconcile_state_with<P, X>(
    state: &mut State,
    now_ms: u64,
    process_is_running: P,
    exit_code_for_run: X,
) -> (r: Result<usize, anyhow::Error>) where
    P: Fn(u32) -> Result<bool, anyhow::Error>,
    X: Fn(&SessionRun) -> Option<i32>,

    requires
        forall|pid: u32| process_is_running.requires((pid,)),
        forall|s: &SessionRun| exit_code_for_run.requires((s,)),
    ensures
        final(state).thread_links == old(state).thread_links,
        final(state).workspace_history == old(state).workspace_history,
        final(state).session_runs.keys() == old(state).session_runs.keys(),
        r matches Ok(n) ==> {
            &&& n == count_changed(
                old(state).session_runs.values(),
                final(state).session_runs.values(),
            )
            &&& forall|i: int|
                0 <= i < old(state).session_runs.keys().len() ==> #[trigger] reconciled_by(
                    process_is_running,
                    exit_code_for_run,
                    now_ms,
                    old(state).session_runs.values()[i],
                    final(state).session_runs.values()[i],
                )
        },
        r matches Err(e) ==> liveness_error(process_is_running, e),
        r matches Err(e) ==> exists|j: int|
            #[trigger] failed_at(
                process_is_running,
                exit_code_for_run,
                now_ms,
                old(state).session_runs.values(),
                final(state).session_runs.values(),
                j,
                e,
            ),
{
    let n = state.session_runs.len();
    let ghost before = state.session_runs.values();
    let ghost ks = state.session_runs.keys();
    let mut updated: usize = 0;
    let mut i: usize = 0;
    while i < n
        invariant
            n == ks.len(),
            n == before.len(),
            i <= n,
            forall|pid: u32| process_is_running.requires((pid,)),
            forall|s: &SessionRun| exit_code_for_run.requires((s,)),
            state.session_runs.keys() == ks,
            state.session_runs.values().len() == n,
            state.thread_links == old(state).thread_links,
            state.workspace_history == old(state).workspace_history,
            before == old(state).session_runs.values(),
            ks == old(state).session_runs.keys(),
            updated <= i,
            updated == count_changed(before.take(i as int), state.session_runs.values().take(i as int)),
            forall|k: int| i <= k < n ==> #[trigger] state.session_runs.values()[k] == before[k],
            forall|k: int|
                0 <= k < i ==> #[trigger] reconciled_by(
                    process_is_running,
                    exit_code_for_run,
                    now_ms,
                    before[k],
                    state.session_runs.values()[k],
                ),
        decreases n - i,
    {
        let mut run = state.session_runs.value_at(i).duplicate();
        let ghost vals = state.session_runs.values();
        match reconcile_run(&mut run, now_ms, &process_is_running, &exit_code_for_run) {
            Ok(changed) => {
                state.session_runs.set_value_at(i, run);
                proof {
                    let nv = state.session_runs.values();
                    assert(nv.take(i + 1).drop_last() =~= vals.take(i as int));
                    assert(before.take(i + 1).drop_last() =~= before.take(i as int));
                    assert(vals.take(i as int) =~= nv.take(i as int));
                }
                if changed {
                    updated = updated + 1;
                }
            },
            Err(e) => {
                assert(process_is_running.ensures((vals[i as int].pid->0,), Err(e)));
                assert(liveness_error(process_is_running, e));
                assert(failed_at(
                    process_is_running,
                    exit_code_for_run,
                    now_ms,
                    before,
                    state.session_runs.values(),
                    i as int,
                    e,
                ));
                assert(exists|j: int|
                    #[trigger] failed_at(
                        process_is_running,
                        exit_code_for_run,
                        now_ms,
                        old(state).session_runs.values(),
                        state.session_runs.values(),
                        j,
                        e,
                    ));
                return Err(e);
            },
        }
        i = i + 1;
    }
    proof {
        assert(before.take(n as int) =~= before);
        assert(state.session_runs.values().take(n as int) =~= state.session_runs.values());
    }
    Ok(updated)
}

/// Every run of `before` became the run at the same position of `after`,
/// reconciled at `now_ms` with the two probes, and `n` of them changed.
pub open spec fn runs_reconciled_at<P, X>(
    process_is_running: P,
    exit_code_for_run: X,
    now_ms: u64,
    before: Seq<SessionRun>,
    after: Seq<SessionRun>,
    n: usize,
) -> bool where
    P: Fn(u32) -> Result<bool, anyhow::Error>,
    X: Fn(&SessionRun) -> Option<i32>,
 {
    &&& n == count_changed(before, after)
    &&& forall|i: int|
        0 <= i < before.len() ==> #[trigger] reconciled_by(
            process_is_running,
            exit_code_for_run,
            now_ms,
            before[i],
            after[i],
        )
}

/// Reconciles every run record of `state` with the two probes at the
/// current time by the wall clock; returns how many records changed, or
/// the first error of the liveness probe.
pub fn reconcile_state<P, X>(state: &mut State, process_is_running: P, exit_code_for_run: X) -> (r:
    Result<usize, anyhow::Error>) where
    P: Fn(u32) -> Result<bool, anyhow::Error>,
    X: Fn(&SessionRun) -> Option<i32>,

    requires
        forall|pid: u32| process_is_running.requires((pid,)),
        forall|s: &SessionRun| exit_code_for_run.requires((s,)),
    ensures
        final(state).thread_links == old(state).thread_links,
        final(state).workspace_history == old(state).workspace_history,
        final(state).session_runs.keys() == old(state).session_runs.keys(),
        r matches Ok(n) ==> exists|now: u64|
            #[trigger] runs_reconciled_at(
                process_is_running,
                exit_code_for_run,
                now,
                old(state).session_runs.values(),
                final(state).session_runs.values(),
                n,
            ),
        r matches Err(e) ==> liveness_error(process_is_running, e),
        r matches Err(e) ==> exists|now: u64, j: int|
            #[trigger] failed_at(
                process_is_running,
                exit_code_for_run,
                now,
                old(state).session_runs.values(),
                final(state).session_runs.values(),
                j,
                e,
            ),
{
    let now = crate::amp::thread::now_ms();
    let _ = state.session_runs.len();
    let ghost p = process_is_running;
    let ghost x = exit_code_for_run;
    let r = reconcile_state_with(state, now, process_is_running, exit_code_for_run);
    proof {
        if let Ok(n) = r {
            assert(runs_reconciled_at(
                p,
                x,
                now,
                old(state).session_runs.values(),
                state.session_runs.values(),
                n,
            ));
        }
        if r is Err {
            let e = r->Err_0;
            let j = choose|j: int|
                #[trigger] failed_at(p, x, now, old(state).session_runs.values(), state.session_runs.values(), j, e);
            assert(failed_at(p, x, now, old(state).session_runs.values(), state.session_runs.values(), j, e));
        }
    }
    r
}


/// Whether a `ps -p <pid> -o pid=` check shows the process alive: the
/// command succeeded and printed something besides white space.
pub fn ps_shows_process(exited_ok: bool, stdout: &str) -> (r: bool)
    ensures
        r == (exited_ok && trim(stdout@).len() > 0),
{
    if !exited_ok {
        return false;
    }
    let v = chars_of(stdout);
    trim_chars(v.as_slice()).len() > 0
}

} // verus!
