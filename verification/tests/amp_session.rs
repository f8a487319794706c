use ishi::amp::session::{build_session_args, SessionStatus};

#[test]
fn build_session_args_includes_all_flags() {
    let args = build_session_args("T-abc-123");
    assert_eq!(
        args,
        vec![
            "threads",
            "continue",
            "T-abc-123",
            "-x",
            "--stream-json",
            "--stream-json-input",
            "--dangerously-allow-all",
            "--no-notifications",
        ]
    );
}

#[test]
fn session_status_default_is_running() {
    // Verify a fresh session starts as Running
    assert_eq!(SessionStatus::Running, SessionStatus::Running);
}

use ishi::amp::session::{user_message_line, SendRefusal, SessionRegistry};

#[test]
fn new_session_manager_has_no_sessions() {
    let reg = SessionRegistry::new();
    assert_eq!(reg.active_count(), 0);
    assert!(reg.active_thread_ids().is_empty());
}

#[test]
fn get_returns_none_for_unknown_thread() {
    let reg = SessionRegistry::new();
    assert!(reg.get("T-nope").is_none());
}

#[test]
fn has_session_returns_false_for_unknown() {
    let reg = SessionRegistry::new();
    assert!(!reg.has_session("T-nope"));
}

#[test]
fn threads_for_issue_returns_empty_when_no_sessions() {
    let reg = SessionRegistry::new();
    assert!(reg.threads_for_issue("JEM-1").is_empty());
}

#[test]
fn registry_tracks_sessions_by_thread() {
    let mut reg = SessionRegistry::new();
    reg.register("T-b", "JEM-1", "/ws");
    reg.register("T-a", "JEM-1", "/ws");
    reg.register("T-c", "JEM-2", "/other");
    assert_eq!(reg.active_count(), 3);
    assert_eq!(reg.active_thread_ids(), vec!["T-a", "T-b", "T-c"]);
    assert_eq!(reg.threads_for_issue("JEM-1"), vec!["T-a", "T-b"]);
    assert_eq!(reg.get("T-a"), Some(SessionStatus::Running));
    reg.set_status("T-a", SessionStatus::Failed);
    reg.set_status("T-zzz", SessionStatus::Idle);
    assert_eq!(reg.check_send("T-a"), Err(SendRefusal::Failed));
    assert_eq!(reg.check_send("T-b"), Ok(()));
    assert_eq!(reg.check_send("T-zzz"), Err(SendRefusal::NoSession));
    reg.set_status("T-c", SessionStatus::Idle);
    assert_eq!(reg.cleanup_terminated(), vec!["T-a".to_string(), "T-c".to_string()]);
    assert_eq!(reg.active_thread_ids(), vec!["T-b"]);
    assert!(reg.cleanup_terminated().is_empty());
    assert_eq!(reg.get("T-c"), None);
    assert_eq!(reg.get("T-b"), Some(SessionStatus::Running));
    assert!(reg.remove("T-b"));
    assert!(!reg.remove("T-b"));
    assert_eq!(reg.active_count(), 0);
}

#[test]
fn user_message_line_is_sorted_json() {
    assert_eq!(
        user_message_line("do \"it\"\n"),
        "{\"message\":{\"content\":[{\"text\":\"do \\\"it\\\"\\n\",\"type\":\"text\"}],\"role\":\"user\"},\"type\":\"user\"}\n"
    );
}
