use ishi::amp::reconcile::{apply_observation, ps_shows_process, desired_status, reconcile_state, reconcile_state_with};
use ishi::amp::state::{SessionRun, SessionRunStatus, State};

fn sample_run(status: SessionRunStatus) -> SessionRun {
    SessionRun {
        thread_id: "T-abc".to_string(),
        issue: "JEM-101".to_string(),
        workspace: "/tmp/workspace".to_string(),
        pid: None,
        status,
        log_path: None,
        created_at_ms: 10,
        updated_at_ms: 10,
        started_at_ms: None,
        finished_at_ms: None,
    }
}

#[test]
fn pending_without_pid_stays_pending() {
    let mut state = State::default();
    state.add_session_run("run-1", sample_run(SessionRunStatus::Pending));

    let updated = reconcile_state_with(&mut state, 100, |_| Ok(false), |_| None).unwrap();

    assert_eq!(updated, 0);
    assert_eq!(
        state.session_runs.get("run-1").map(|r| r.status),
        Some(SessionRunStatus::Pending)
    );
}

#[test]
fn pending_with_live_pid_becomes_running() {
    let mut state = State::default();
    let mut run = sample_run(SessionRunStatus::Pending);
    run.pid = Some(123);
    state.add_session_run("run-1", run);

    let updated = reconcile_state_with(&mut state, 100, |pid| Ok(pid == 123), |_| None).unwrap();

    assert_eq!(updated, 1);
    let run = state.session_runs.get("run-1").unwrap();
    assert_eq!(run.status, SessionRunStatus::Running);
    assert_eq!(run.started_at_ms, Some(100));
    assert_eq!(run.finished_at_ms, None);
    assert_eq!(run.updated_at_ms, 100);
}

#[test]
fn running_with_live_pid_does_not_consult_exit_marker() {
    let mut state = State::default();
    let mut run = sample_run(SessionRunStatus::Running);
    run.pid = Some(123);
    run.started_at_ms = Some(10);
    state.add_session_run("run-1", run);

    let updated = reconcile_state_with(
        &mut state,
        100,
        |pid| Ok(pid == 123),
        |_| panic!("exit marker should not be read while pid is alive"),
    )
    .unwrap();

    assert_eq!(updated, 0);
    assert_eq!(
        state.session_runs.get("run-1").map(|r| r.status),
        Some(SessionRunStatus::Running)
    );
}

#[test]
fn running_with_dead_pid_and_success_exit_becomes_completed() {
    let mut state = State::default();
    let mut run = sample_run(SessionRunStatus::Running);
    run.pid = Some(456);
    run.started_at_ms = Some(50);
    state.add_session_run("run-1", run);

    let updated = reconcile_state_with(&mut state, 200, |_| Ok(false), |_| Some(0)).unwrap();

    assert_eq!(updated, 1);
    let run = state.session_runs.get("run-1").unwrap();
    assert_eq!(run.status, SessionRunStatus::Completed);
    assert_eq!(run.pid, None);
    assert_eq!(run.started_at_ms, Some(50));
    assert_eq!(run.finished_at_ms, Some(200));
}

#[test]
fn running_with_dead_pid_and_non_zero_exit_becomes_failed() {
    let mut state = State::default();
    let mut run = sample_run(SessionRunStatus::Running);
    run.pid = Some(789);
    state.add_session_run("run-1", run);

    let updated = reconcile_state_with(&mut state, 300, |_| Ok(false), |_| Some(17)).unwrap();

    assert_eq!(updated, 1);
    let run = state.session_runs.get("run-1").unwrap();
    assert_eq!(run.status, SessionRunStatus::Failed);
    assert_eq!(run.pid, None);
    assert_eq!(run.finished_at_ms, Some(300));
}

#[test]
fn running_with_dead_pid_and_no_exit_marker_becomes_stale() {
    let mut state = State::default();
    let mut run = sample_run(SessionRunStatus::Running);
    run.pid = Some(999);
    state.add_session_run("run-1", run);

    let updated = reconcile_state_with(&mut state, 400, |_| Ok(false), |_| None).unwrap();

    assert_eq!(updated, 1);
    let run = state.session_runs.get("run-1").unwrap();
    assert_eq!(run.status, SessionRunStatus::Stale);
    assert_eq!(run.pid, None);
    assert_eq!(run.finished_at_ms, Some(400));
}

#[test]
fn stale_with_later_exit_marker_becomes_terminal() {
    let mut state = State::default();
    state.add_session_run("run-1", sample_run(SessionRunStatus::Stale));

    let updated = reconcile_state_with(&mut state, 500, |_| Ok(false), |_| Some(0)).unwrap();

    assert_eq!(updated, 1);
    let run = state.session_runs.get("run-1").unwrap();
    assert_eq!(run.status, SessionRunStatus::Completed);
    assert_eq!(run.finished_at_ms, Some(500));
}

#[test]
fn completed_without_new_signal_stays_completed() {
    let mut state = State::default();
    let mut run = sample_run(SessionRunStatus::Completed);
    run.finished_at_ms = Some(150);
    run.updated_at_ms = 150;
    state.add_session_run("run-1", run);

    let updated = reconcile_state_with(&mut state, 500, |_| Ok(false), |_| None).unwrap();

    assert_eq!(updated, 0);
    let run = state.session_runs.get("run-1").unwrap();
    assert_eq!(run.status, SessionRunStatus::Completed);
    assert_eq!(run.finished_at_ms, Some(150));
    assert_eq!(run.updated_at_ms, 150);
}

#[test]
fn reconcile_state_returns_error_when_process_check_fails() {
    let mut state = State::default();
    let mut run = sample_run(SessionRunStatus::Running);
    run.pid = Some(123);
    state.add_session_run("run-1", run);

    let result = reconcile_state_with(
        &mut state,
        500,
        |_| Err(anyhow::Error::msg("ps failed")),
        |_| None,
    );

    assert!(result.is_err());
    assert!(result.unwrap_err().to_string().contains("ps failed"));
}

#[test]
fn second_reconciliation_changes_nothing() {
    let mut state = State::default();
    let mut run = sample_run(SessionRunStatus::Running);
    run.pid = Some(7);
    state.add_session_run("run-1", run);

    let first = reconcile_state_with(&mut state, 600, |_| Ok(false), |_| Some(3)).unwrap();
    assert_eq!(first, 1);
    let second = reconcile_state_with(&mut state, 900, |_| Ok(false), |_| Some(3)).unwrap();
    assert_eq!(second, 0);
    let run = state.session_runs.get("run-1").unwrap();
    assert_eq!(run.status, SessionRunStatus::Failed);
    assert_eq!(run.finished_at_ms, Some(600));
    assert_eq!(run.updated_at_ms, 600);
}

#[test]
fn reconcile_counts_each_changed_run() {
    let mut state = State::default();
    state.add_session_run("run-a", sample_run(SessionRunStatus::Pending));
    let mut b = sample_run(SessionRunStatus::Running);
    b.pid = Some(1);
    state.add_session_run("run-b", b);
    let mut c = sample_run(SessionRunStatus::Running);
    c.pid = Some(2);
    state.add_session_run("run-c", c);

    let updated = reconcile_state_with(&mut state, 50, |pid| Ok(pid == 2), |_| None).unwrap();
    // run-b goes stale; run-c gets its start time recorded; run-a stays pending.
    assert_eq!(updated, 2);
    assert_eq!(state.session_runs.get("run-b").map(|r| r.status), Some(SessionRunStatus::Stale));
    assert_eq!(state.session_runs.get("run-c").map(|r| r.status), Some(SessionRunStatus::Running));
    assert_eq!(state.session_runs.get("run-c").and_then(|r| r.started_at_ms), Some(50));
}

#[test]
fn reconcile_state_uses_the_clock() {
    let mut state = State::default();
    let mut run = sample_run(SessionRunStatus::Running);
    run.pid = Some(5);
    state.add_session_run("run-1", run);
    let updated = reconcile_state(&mut state, |_| Ok(false), |_| Some(0)).unwrap();
    assert_eq!(updated, 1);
    let run = state.session_runs.get("run-1").unwrap();
    assert_eq!(run.status, SessionRunStatus::Completed);
    assert!(run.finished_at_ms.unwrap() > 1_600_000_000_000);
}

#[test]
fn desired_status_rules() {
    let s = SessionRunStatus::Stale;
    assert_eq!(desired_status(s, None, None, None), SessionRunStatus::Stale);
    assert_eq!(
        desired_status(SessionRunStatus::Pending, Some(3), Some(false), None),
        SessionRunStatus::Stale
    );
    assert_eq!(
        desired_status(SessionRunStatus::Failed, None, None, None),
        SessionRunStatus::Failed
    );
    assert_eq!(
        desired_status(SessionRunStatus::Completed, Some(1), Some(true), None),
        SessionRunStatus::Running
    );
    assert_eq!(
        desired_status(SessionRunStatus::Running, None, None, Some(0)),
        SessionRunStatus::Completed
    );
    assert_eq!(
        desired_status(SessionRunStatus::Running, None, None, Some(-1)),
        SessionRunStatus::Failed
    );
}

#[test]
fn apply_observation_keeps_earlier_start_time() {
    let mut run = sample_run(SessionRunStatus::Pending);
    run.pid = Some(4);
    run.started_at_ms = Some(20);
    let changed = apply_observation(&mut run, 70, Some(true), None);
    assert!(changed);
    assert_eq!(run.status, SessionRunStatus::Running);
    assert_eq!(run.started_at_ms, Some(20));
    assert_eq!(run.updated_at_ms, 70);
}

#[test]
fn ps_output_decides_liveness() {
    assert!(ps_shows_process(true, "  4242\n"));
    assert!(!ps_shows_process(true, " \n\t"));
    assert!(!ps_shows_process(false, "4242"));
    assert!(!ps_shows_process(true, ""));
}
