use ishi::amp::state::SessionRunStatus;
use ishi::views::{
    clamp_scroll, keybindings, picker_window, priority_style, scroll_limit, project_status_style, run_status_style,
    status_style, Tint,
};

#[test]
fn clamp_scroll_handles_follow_bottom_sentinel() {
    assert_eq!(clamp_scroll(u16::MAX, 42), 42);
}

#[test]
fn clamp_scroll_caps_regular_scroll_to_max() {
    assert_eq!(clamp_scroll(99, 5), 5);
    assert_eq!(clamp_scroll(3, 5), 3);
}

#[test]
fn keybindings_is_non_empty() {
    assert!(!keybindings().is_empty());
}

#[test]
fn keybindings_contains_help_toggle() {
    assert!(keybindings().iter().any(|(key, _)| *key == "?"));
}

#[test]
fn keybindings_contains_quit() {
    assert!(keybindings().iter().any(|(key, _)| *key == "q"));
}

#[test]
fn keybindings_have_descriptions() {
    for (key, desc) in keybindings() {
        assert!(!key.is_empty(), "key should not be empty");
        assert!(
            !desc.is_empty(),
            "description should not be empty for key '{}'",
            key
        );
    }
}

#[test]
fn run_status_style_projects_each_lifecycle_state() {
    assert_eq!(run_status_style(SessionRunStatus::Running).fg, Some(Tint::Green));
    assert_eq!(run_status_style(SessionRunStatus::Pending).fg, Some(Tint::Yellow));
    assert_eq!(run_status_style(SessionRunStatus::Failed).fg, Some(Tint::Red));
    assert_eq!(run_status_style(SessionRunStatus::Stale).fg, Some(Tint::DarkGray));
    assert_eq!(run_status_style(SessionRunStatus::Completed).fg, Some(Tint::Cyan));
}

#[test]
fn status_and_priority_styles() {
    assert_eq!(status_style("In Progress").fg, Some(Tint::Yellow));
    assert_eq!(status_style("Cancelled").fg, Some(Tint::DarkGray));
    assert_eq!(status_style("Triage").fg, Some(Tint::DarkGray));
    assert_eq!(status_style("Whatever").fg, None);
    assert!(priority_style("Urgent").bold);
    assert_eq!(priority_style("Urgent").fg, Some(Tint::Red));
    assert!(!priority_style("High").bold);
    assert_eq!(priority_style("Low").fg, Some(Tint::DarkGray));
    assert_eq!(priority_style("none").fg, None);
    assert_eq!(project_status_style("started").fg, Some(Tint::Yellow));
    assert_eq!(project_status_style("completed").fg, Some(Tint::Green));
    assert_eq!(project_status_style("Completed").fg, None);
}

#[test]
fn keybindings_table_order() {
    let k = keybindings();
    assert_eq!(k.len(), 20);
    assert_eq!(k[0], ("?", "Toggle this help"));
    assert_eq!(k[19], ("m", "Change issue state"));
}

#[test]
fn picker_window_keeps_the_selection_in_view() {
    assert_eq!(picker_window(2, 1, 3), (0, 2));
    assert_eq!(picker_window(10, 0, 3), (0, 3));
    assert_eq!(picker_window(10, 5, 3), (4, 7));
    assert_eq!(picker_window(10, 9, 3), (7, 10));
    assert_eq!(picker_window(10, 8, 4), (6, 10));
}

#[test]
fn scroll_limit_counts_lines_past_the_box() {
    assert_eq!(scroll_limit(10, 6), 6);
    assert_eq!(scroll_limit(3, 6), 0);
    assert_eq!(scroll_limit(5, 1), 5);
    assert_eq!(scroll_limit(100_000, 12), 0xffff - 10);
}
