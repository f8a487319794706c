use ishi::amp::state::{SessionRun, State};
use ishi::app::{completion_dir_and_prefix, run_summaries_for_issue};
use ishi::amp::state::SessionRunStatus;
use ishi::app::{
    pick_display_status, AppError, ProjectSortColumn, SortColumn, SortDirection, WorkspacePicker,
};

#[test]
fn workspace_picker_navigation() {
    let mut picker = WorkspacePicker::new(vec!["/a".into(), "/b".into(), "/c".into()]);
    assert_eq!(picker.selected, 0);
    assert_eq!(picker.selected_workspace(), Some("/a"));

    picker.move_down();
    assert_eq!(picker.selected, 1);
    assert_eq!(picker.selected_workspace(), Some("/b"));

    picker.move_down();
    assert_eq!(picker.selected, 2);

    picker.move_down(); // should not exceed
    assert_eq!(picker.selected, 2);

    picker.move_up();
    assert_eq!(picker.selected, 1);

    picker.move_up();
    assert_eq!(picker.selected, 0);

    picker.move_up(); // should not underflow
    assert_eq!(picker.selected, 0);
}

#[test]
fn workspace_picker_empty_options() {
    let picker = WorkspacePicker::new(vec![]);
    assert_eq!(picker.selected, 0);
    assert!(picker.selected_workspace().is_none());
}

#[test]
fn workspace_picker_single_option() {
    let mut picker = WorkspacePicker::new(vec!["/only".into()]);
    assert_eq!(picker.selected_workspace(), Some("/only"));
    picker.move_down();
    assert_eq!(picker.selected, 0);
    picker.move_up();
    assert_eq!(picker.selected, 0);
}

#[test]
fn workspace_picker_confirm_empty_path_returns_none() {
    let mut picker = WorkspacePicker::new(vec![]);
    picker.typing = true;
    picker.input.clear();

    let result = picker.confirm_typed_path();
    assert!(result.is_none());
    assert!(!picker.typing);
}

#[test]
fn workspace_picker_confirm_whitespace_only_returns_none() {
    let mut picker = WorkspacePicker::new(vec![]);
    picker.typing = true;
    picker.input = "   ".to_string();

    let result = picker.confirm_typed_path();
    assert!(result.is_none());
}

#[test]
fn workspace_picker_delete_path_component() {
    let mut picker = WorkspacePicker::new(vec![]);
    picker.typing = true;

    // Trailing slash: removes the last directory.
    picker.input = "/Users/me/projects/".to_string();
    picker.delete_path_component();
    assert_eq!(picker.input, "/Users/me/");

    // No trailing slash: removes partial text back to previous slash.
    picker.input = "/Users/me/pro".to_string();
    picker.delete_path_component();
    assert_eq!(picker.input, "/Users/me/");

    // Down to root.
    picker.input = "/Users/".to_string();
    picker.delete_path_component();
    assert_eq!(picker.input, "/");

    // At root slash — clears entirely.
    picker.delete_path_component();
    assert_eq!(picker.input, "");
}

#[test]
fn workspace_picker_start_typing() {
    let mut picker = WorkspacePicker::new(vec!["/a".into()]);
    assert!(!picker.typing);

    picker.start_typing_in(Some("/home/me/work"));
    assert!(picker.typing);
    assert!(picker.input.starts_with("/home/me/work"));
    assert!(picker.input.ends_with('/'));
}

#[test]
fn workspace_picker_start_typing_keeps_trailing_slash_and_unknown_dir() {
    let mut picker = WorkspacePicker::new(vec![]);
    picker.start_typing_in(Some("/srv/"));
    assert_eq!(picker.input, "/srv/");
    picker.start_typing_in(None);
    assert_eq!(picker.input, "");
    assert!(picker.typing);
}

#[test]
fn workspace_picker_cancel_typing() {
    let mut picker = WorkspacePicker::new(vec!["/a".into()]);
    picker.start_typing_in(Some("/tmp"));
    picker.input.push_str("some/path");
    picker.cancel_typing();

    assert!(!picker.typing);
    assert!(picker.input.is_empty());
}

#[test]
fn workspace_picker_confirm_typed_path_returns_path() {
    let mut picker = WorkspacePicker::new(vec![]);
    picker.start_typing_in(Some("/tmp"));
    picker.input = "/my/workspace".to_string();

    let result = picker.confirm_typed_path();
    assert_eq!(result, Some("/my/workspace".to_string()));
    assert!(!picker.typing);
    assert!(picker.input.is_empty());
}

#[test]
fn workspace_picker_confirm_typed_path_trims_whitespace() {
    let mut picker = WorkspacePicker::new(vec![]);
    picker.start_typing_in(Some("/tmp"));
    picker.input = "  /my/workspace  ".to_string();

    let result = picker.confirm_typed_path();
    assert_eq!(result, Some("/my/workspace".to_string()));
}

#[test]
fn workspace_picker_confirm_empty_input_takes_selected_option() {
    let mut picker = WorkspacePicker::new(vec!["/a".into(), "/b".into()]);
    picker.move_down();
    picker.typing = true;
    let result = picker.confirm_typed_path();
    assert_eq!(result, Some("/b".to_string()));
    assert_eq!(picker.selected, 0);
}

#[test]
fn workspace_picker_cancel_typing_restores_original_options() {
    let original = vec!["/ws1".to_string(), "/ws2".to_string()];
    let mut picker = WorkspacePicker::new(original.clone());
    picker.start_typing_in(Some("/tmp"));

    // Simulate tab completion replacing options.
    picker.options = vec!["/some/dir/".into()];
    picker.cancel_typing();

    assert!(!picker.typing);
    assert_eq!(picker.options, original);
}

#[test]
fn workspace_picker_completions_populate_options() {
    let mut picker = WorkspacePicker::new(vec!["/original".into()]);
    picker.start_typing_in(Some("/tmp/x"));
    picker.apply_completions(
        vec![
            ("beta".to_string(), "/tmp/x/beta/".to_string()),
            ("alpha".to_string(), "/tmp/x/alpha/".to_string()),
        ],
        "",
    );
    assert_eq!(picker.options.len(), 2);
    assert!(picker.options[0].ends_with("alpha/"));
    assert!(picker.options[1].ends_with("beta/"));
    assert_eq!(picker.selected, 0);
}

#[test]
fn workspace_picker_single_completion_auto_completes() {
    let mut picker = WorkspacePicker::new(vec!["/original".into()]);
    picker.input = "/tmp/x/o".to_string();
    picker.apply_completions(
        vec![
            ("only_dir".to_string(), "/tmp/x/only_dir/".to_string()),
            ("target".to_string(), "/tmp/x/target/".to_string()),
        ],
        "o",
    );
    assert_eq!(picker.input, "/tmp/x/only_dir/");
    assert_eq!(picker.options, vec!["/original"]);
}

#[test]
fn workspace_picker_no_completion_changes_nothing() {
    let mut picker = WorkspacePicker::new(vec!["/original".into()]);
    picker.input = "/tmp/x/q".to_string();
    picker.apply_completions(vec![("src".to_string(), "/tmp/x/src/".to_string())], "q");
    assert_eq!(picker.input, "/tmp/x/q");
    assert_eq!(picker.options, vec!["/original"]);
}

#[test]
fn app_error_classifies_401_as_auth() {
    let err = anyhow::Error::msg("HTTP status client error (401 Unauthorized)");
    let app_err = AppError::from_api_error(&err);
    assert!(app_err.message.contains("Authentication"));
}

#[test]
fn app_error_classifies_403_as_access_denied() {
    let err = anyhow::Error::msg("HTTP status client error (403 Forbidden)");
    let app_err = AppError::from_api_error(&err);
    assert!(app_err.message.contains("Access denied"));
}

#[test]
fn app_error_classifies_429_as_rate_limit() {
    let err = anyhow::Error::msg("HTTP status client error (429 Too Many Requests)");
    let app_err = AppError::from_api_error(&err);
    assert!(app_err.message.contains("Rate limited"));
}

#[test]
fn app_error_classifies_dns_error_as_network() {
    let err = anyhow::Error::msg("dns error: failed to lookup address");
    let app_err = AppError::from_api_error(&err);
    assert!(app_err.message.contains("Network error"));
}

#[test]
fn app_error_classifies_connect_error_as_network() {
    let err = anyhow::Error::msg("error trying to connect: connection refused");
    let app_err = AppError::from_api_error(&err);
    assert!(app_err.message.contains("Network error"));
}

#[test]
fn app_error_classifies_timeout() {
    let err = anyhow::Error::msg("request timed out");
    let app_err = AppError::from_api_error(&err);
    assert!(app_err.message.contains("timed out"));
}

#[test]
fn app_error_fallback_includes_original_message() {
    let err = anyhow::Error::msg("unexpected server error");
    let app_err = AppError::from_api_error(&err);
    assert!(app_err.message.contains("unexpected server error"));
}

#[test]
fn app_error_messages_are_exact() {
    assert_eq!(
        AppError::from_message("got 401").message,
        "Authentication failed — check your API key"
    );
    assert_eq!(
        AppError::from_message("No connection here").message,
        "Network error — check your internet connection"
    );
    assert_eq!(
        AppError::from_message("read timeout").message,
        "Request timed out — try again"
    );
    assert_eq!(AppError::from_message("boom").message, "API error: boom");
    assert_eq!(AppError::new("as is".to_string()).message, "as is");
}

#[test]
fn app_error_uses_outermost_context_text() {
    let err = anyhow::Error::msg("inner 401").context("outer failure");
    assert_eq!(AppError::from_api_error(&err).message, "API error: outer failure");
}

#[test]
fn pick_display_status_prefers_running() {
    assert_eq!(
        pick_display_status(SessionRunStatus::Completed, SessionRunStatus::Running),
        SessionRunStatus::Running
    );
    assert_eq!(
        pick_display_status(SessionRunStatus::Running, SessionRunStatus::Failed),
        SessionRunStatus::Running
    );
}

#[test]
fn pick_display_status_prefers_pending_over_terminal() {
    assert_eq!(
        pick_display_status(SessionRunStatus::Completed, SessionRunStatus::Pending),
        SessionRunStatus::Pending
    );
    assert_eq!(
        pick_display_status(SessionRunStatus::Failed, SessionRunStatus::Pending),
        SessionRunStatus::Pending
    );
}

#[test]
fn pick_display_status_orders_terminal_states() {
    assert_eq!(
        pick_display_status(SessionRunStatus::Completed, SessionRunStatus::Stale),
        SessionRunStatus::Stale
    );
    assert_eq!(
        pick_display_status(SessionRunStatus::Stale, SessionRunStatus::Failed),
        SessionRunStatus::Failed
    );
}

#[test]
fn sort_labels_and_toggle() {
    assert_eq!(SortColumn::Identifier.label(), "ID");
    assert_eq!(SortColumn::Priority.label(), "Priority");
    assert_eq!(ProjectSortColumn::Lead.label(), "Lead");
    assert_eq!(ProjectSortColumn::Progress.label(), "Progress");
    assert_eq!(SortDirection::Asc.toggle(), SortDirection::Desc);
    assert_eq!(SortDirection::Desc.toggle().toggle(), SortDirection::Desc);
}

#[test]
fn run_summaries_follow_the_issue_runs() {
    let mut state = State::default();
    state.add_session_run(
        "run-2",
        SessionRun {
            thread_id: "T-x".to_string(),
            issue: "JEM-7".to_string(),
            workspace: "/ws".to_string(),
            pid: Some(3),
            status: SessionRunStatus::Running,
            log_path: Some("/tmp/run-2.log".to_string()),
            created_at_ms: 20,
            updated_at_ms: 20,
            started_at_ms: Some(20),
            finished_at_ms: None,
        },
    );
    let s = run_summaries_for_issue(&state, "JEM-7");
    assert_eq!(s.len(), 1);
    assert_eq!(s[0].run_id, "run-2");
    assert_eq!(s[0].thread_id, "T-x");
    assert_eq!(s[0].status, SessionRunStatus::Running);
    assert_eq!(s[0].log_path.as_deref(), Some("/tmp/run-2.log"));
    assert_eq!(s[0].created_at_ms, 20);
    assert!(run_summaries_for_issue(&state, "JEM-8").is_empty());
}

#[test]
fn completion_target_splits_the_typed_path() {
    let pair = |a: &str, b: &str| (a.to_string(), b.to_string());
    assert_eq!(completion_dir_and_prefix(""), pair(".", ""));
    assert_eq!(completion_dir_and_prefix("/tmp/"), pair("/tmp/", ""));
    assert_eq!(completion_dir_and_prefix("/tmp/fo"), pair("/tmp", "fo"));
    assert_eq!(completion_dir_and_prefix("foo"), pair("", "foo"));
    assert_eq!(completion_dir_and_prefix("/"), pair("/", ""));
}
