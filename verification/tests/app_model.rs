use ishi::amp::state::SessionRunStatus;
use ishi::amp::thread::ThreadSummary;
use ishi::api::types::{Issue, Project};
use ishi::app::{
    AppError, App, DetailOrigin, DetailSection, SessionRunSummary, SortColumn, View,
    WorkspacePicker,
};

fn app_with_issues() -> App {
    let mut app = App::new();
    app.issues = vec![
        Issue {
            id: "1".into(),
            identifier: "JEM-1".into(),
            title: "Alpha task".into(),
            url: Some("https://linear.app/test/issue/JEM-1".into()),
            state: None,
            priority: Some(2),
            project: None,
            description: None,
            assignee: None,
            labels: None,
            parent: None,
        },
        Issue {
            id: "2".into(),
            identifier: "JEM-2".into(),
            title: "Beta task".into(),
            url: Some("https://linear.app/test/issue/JEM-2".into()),
            state: None,
            priority: Some(3),
            project: None,
            description: None,
            assignee: None,
            labels: None,
            parent: None,
        },
        Issue {
            id: "3".into(),
            identifier: "JEM-3".into(),
            title: "Gamma task".into(),
            url: Some("https://linear.app/test/issue/JEM-3".into()),
            state: None,
            priority: None,
            project: None,
            description: None,
            assignee: None,
            labels: None,
            parent: None,
        },
    ];
    app
}

#[test]
fn navigation_wraps_at_bounds() {
    let mut app = app_with_issues();
    assert_eq!(app.selected, 0);

    app.move_down();
    assert_eq!(app.selected, 1);
    app.move_down();
    assert_eq!(app.selected, 2);
    app.move_down(); // at bottom, stays
    assert_eq!(app.selected, 2);

    app.move_up();
    assert_eq!(app.selected, 1);
    app.top();
    assert_eq!(app.selected, 0);
    app.move_up(); // at top, stays
    assert_eq!(app.selected, 0);
}

#[test]
fn bottom_goes_to_last() {
    let mut app = app_with_issues();
    app.bottom();
    assert_eq!(app.selected, 2);
}

#[test]
fn filter_narrows_results() {
    let mut app = app_with_issues();
    app.filter = Some((SortColumn::Title, "beta".into()));
    let filtered = app.filtered_issues();
    assert_eq!(filtered.len(), 1);
    assert_eq!(filtered[0].identifier, "JEM-2");
}

#[test]
fn filter_is_case_insensitive() {
    let mut app = app_with_issues();
    app.filter = Some((SortColumn::Title, "ALPHA".into()));
    assert_eq!(app.filtered_issues().len(), 1);
}

#[test]
fn apply_empty_filter_clears() {
    let mut app = app_with_issues();
    app.start_filter();
    app.apply_filter();
    assert!(app.filter.is_none());
    assert!(!app.filtering);
}

#[test]
fn apply_filter_sets_and_resets_cursor() {
    let mut app = app_with_issues();
    app.selected = 2;
    app.start_filter();
    app.filter_input = "gamma".into();
    app.apply_filter();
    assert_eq!(app.filter.as_ref().map(|(_, f)| f.as_str()), Some("gamma"));
    assert_eq!(app.selected, 0);
}

#[test]
fn cancel_filter_discards_input() {
    let mut app = app_with_issues();
    app.start_filter();
    app.filter_input = "something".into();
    app.cancel_filter();
    assert!(!app.filtering);
    assert!(app.filter_input.is_empty());
}

#[test]
fn select_issue_enters_detail_view() {
    let mut app = app_with_issues();
    app.selected = 1;
    app.select_issue();
    assert!(matches!(app.view, View::Detail));
    assert_eq!(app.detail_scroll, 0);
}

#[test]
fn back_to_list_returns_to_my_issues() {
    let mut app = app_with_issues();
    app.select_issue();
    app.back_to_list();
    assert!(matches!(app.view, View::MyIssues));
}

#[test]
fn selected_issue_returns_correct_issue() {
    let mut app = app_with_issues();
    app.selected = 1;
    let issue = app.selected_issue().unwrap();
    assert_eq!(issue.identifier, "JEM-2");
}

#[test]
fn detail_scroll_up_down() {
    let mut app = app_with_issues();
    app.select_issue();
    app.detail_scroll_max = 5;
    assert_eq!(app.detail_scroll, 0);
    app.scroll_detail_down();
    app.scroll_detail_down();
    assert_eq!(app.detail_scroll, 2);
    app.scroll_detail_up();
    assert_eq!(app.detail_scroll, 1);
    app.scroll_detail_up();
    app.scroll_detail_up(); // should not underflow
    assert_eq!(app.detail_scroll, 0);
}

#[test]
fn detail_scroll_clamped_to_max() {
    let mut app = app_with_issues();
    app.select_issue();
    app.detail_scroll_max = 2;
    app.scroll_detail_down();
    app.scroll_detail_down();
    assert_eq!(app.detail_scroll, 2);
    app.scroll_detail_down(); // should not exceed max
    assert_eq!(app.detail_scroll, 2);
}

#[test]
fn detail_scroll_blocked_when_content_fits() {
    let mut app = app_with_issues();
    app.select_issue();
    app.detail_scroll_max = 0; // content fits in box
    app.scroll_detail_down();
    assert_eq!(app.detail_scroll, 0);
}

#[test]
fn search_filters_across_all_columns() {
    let mut app = app_with_issues();
    app.search = Some("jem-2".into());
    let results = app.filtered_issues();
    assert_eq!(results.len(), 1);
    assert_eq!(results[0].identifier, "JEM-2");
}

#[test]
fn search_is_case_insensitive() {
    let mut app = app_with_issues();
    app.search = Some("ALPHA".into());
    assert_eq!(app.filtered_issues().len(), 1);
}

#[test]
fn search_matches_priority() {
    let mut app = app_with_issues();
    app.search = Some("high".into());
    let results = app.filtered_issues();
    assert_eq!(results.len(), 1);
    assert_eq!(results[0].identifier, "JEM-1");
}

#[test]
fn apply_empty_search_clears() {
    let mut app = app_with_issues();
    app.start_search();
    app.apply_search();
    assert!(app.search.is_none());
    assert!(!app.searching);
}

#[test]
fn apply_search_sets_and_resets_cursor() {
    let mut app = app_with_issues();
    app.selected = 2;
    app.start_search();
    app.search_input = "beta".into();
    app.apply_search();
    assert_eq!(app.search.as_deref(), Some("beta"));
    assert_eq!(app.selected, 0);
}

#[test]
fn cancel_search_discards_input() {
    let mut app = app_with_issues();
    app.start_search();
    app.search_input = "something".into();
    app.cancel_search();
    assert!(!app.searching);
    assert!(app.search_input.is_empty());
}

#[test]
fn search_and_filter_combine() {
    let mut app = app_with_issues();
    app.search = Some("task".into());
    assert_eq!(app.filtered_issues().len(), 3);
    app.filter = Some((SortColumn::Title, "alpha".into()));
    assert_eq!(app.filtered_issues().len(), 1);
    assert_eq!(app.filtered_issues()[0].identifier, "JEM-1");
}

#[test]
fn select_issue_resets_thread_state() {
    let mut app = app_with_issues();
    app.detail_section = DetailSection::Threads;
    app.detail_thread_selected = 2;
    app.select_issue();
    assert!(matches!(app.detail_section, DetailSection::Body));
    assert_eq!(app.detail_thread_selected, 0);
}

#[test]
fn back_to_list_clears_threads() {
    let mut app = app_with_issues();
    app.select_issue();
    app.detail_threads = vec![ThreadSummary {
        id: "T-1".into(),
        title: "Thread".into(),
        message_count: 5,
        last_activity_ms: 1700000000000,
    }];
    app.detail_section = DetailSection::Threads;
    app.back_to_list();
    assert!(matches!(app.detail_section, DetailSection::Body));
    assert!(app.detail_threads.is_empty());
    assert_eq!(app.detail_thread_selected, 0);
}

#[test]
fn thread_move_down_and_up() {
    let mut app = app_with_issues();
    app.detail_threads = vec![
        ThreadSummary {
            id: "T-1".into(),
            title: "A".into(),
            message_count: 1,
            last_activity_ms: 0,
        },
        ThreadSummary {
            id: "T-2".into(),
            title: "B".into(),
            message_count: 2,
            last_activity_ms: 0,
        },
        ThreadSummary {
            id: "T-3".into(),
            title: "C".into(),
            message_count: 3,
            last_activity_ms: 0,
        },
    ];
    assert_eq!(app.detail_thread_selected, 0);
    app.thread_move_down();
    assert_eq!(app.detail_thread_selected, 1);
    app.thread_move_down();
    assert_eq!(app.detail_thread_selected, 2);
    app.thread_move_down(); // should not exceed
    assert_eq!(app.detail_thread_selected, 2);
    app.thread_move_up();
    assert_eq!(app.detail_thread_selected, 1);
    app.thread_move_up();
    assert_eq!(app.detail_thread_selected, 0);
    app.thread_move_up(); // should not underflow
    assert_eq!(app.detail_thread_selected, 0);
}

#[test]
fn focus_threads_requires_threads() {
    let mut app = app_with_issues();
    app.focus_threads();
    assert!(matches!(app.detail_section, DetailSection::Body));

    app.detail_threads = vec![ThreadSummary {
        id: "T-1".into(),
        title: "A".into(),
        message_count: 1,
        last_activity_ms: 0,
    }];
    app.focus_threads();
    assert!(matches!(app.detail_section, DetailSection::Threads));
}

#[test]
fn focus_body_returns_to_body() {
    let mut app = app_with_issues();
    app.detail_section = DetailSection::Threads;
    app.focus_body();
    assert!(matches!(app.detail_section, DetailSection::Body));
}

#[test]
fn selected_thread_returns_none_when_body_focused() {
    let mut app = app_with_issues();
    app.detail_threads = vec![ThreadSummary {
        id: "T-1".into(),
        title: "A".into(),
        message_count: 1,
        last_activity_ms: 0,
    }];
    app.detail_section = DetailSection::Body;
    assert!(app.selected_thread().is_none());
}

#[test]
fn selected_thread_returns_current_when_threads_focused() {
    let mut app = app_with_issues();
    app.detail_threads = vec![
        ThreadSummary {
            id: "T-1".into(),
            title: "A".into(),
            message_count: 1,
            last_activity_ms: 0,
        },
        ThreadSummary {
            id: "T-2".into(),
            title: "B".into(),
            message_count: 2,
            last_activity_ms: 0,
        },
    ];
    app.detail_section = DetailSection::Threads;
    app.detail_thread_selected = 0;
    assert_eq!(app.selected_thread().unwrap().id, "T-1");

    app.detail_thread_selected = 1;
    assert_eq!(app.selected_thread().unwrap().id, "T-2");
}

#[test]
fn selected_thread_returns_none_when_no_threads() {
    let mut app = app_with_issues();
    app.detail_section = DetailSection::Threads;
    assert!(app.selected_thread().is_none());
}

#[test]
fn show_workspace_picker_sets_state() {
    let mut app = app_with_issues();
    assert!(app.workspace_picker.is_none());

    app.show_workspace_picker(vec!["/ws1".into(), "/ws2".into()]);
    assert!(app.workspace_picker.is_some());

    let picker = app.workspace_picker.as_ref().unwrap();
    assert_eq!(picker.options.len(), 2);
    assert_eq!(picker.selected, 0);
}

#[test]
fn show_workspace_picker_with_empty_list_opens_picker() {
    let mut app = app_with_issues();
    app.show_workspace_picker(vec![]);
    assert!(app.workspace_picker.is_some());
    let picker = app.workspace_picker.as_ref().unwrap();
    assert!(picker.options.is_empty());
}

#[test]
fn cancel_workspace_picker_clears_state() {
    let mut app = app_with_issues();
    app.show_workspace_picker(vec!["/ws".into()]);
    assert!(app.workspace_picker.is_some());

    app.cancel_workspace_picker();
    assert!(app.workspace_picker.is_none());
}

fn app_with_projects() -> App {
    let mut app = App::new();
    app.projects = vec![
        Project {
            id: "p1".into(),
            name: "Alpha Project".into(),
            state: Some("started".into()),
            progress: Some(0.5f64.to_bits()),
            lead: Some(ishi::api::types::IssueUser {
                name: "Alice".into(),
            }),
            url: Some("https://linear.app/test/project/alpha".into()),
        },
        Project {
            id: "p2".into(),
            name: "Beta Project".into(),
            state: Some("planned".into()),
            progress: Some(0.0f64.to_bits()),
            lead: None,
            url: None,
        },
        Project {
            id: "p3".into(),
            name: "Gamma Project".into(),
            state: None,
            progress: None,
            lead: None,
            url: Some("https://linear.app/test/project/gamma".into()),
        },
    ];
    app
}

#[test]
fn switch_to_projects_changes_view() {
    let mut app = app_with_issues();
    assert!(matches!(app.view, View::MyIssues));
    app.switch_to_projects();
    assert!(matches!(app.view, View::ProjectList));
}

#[test]
fn switch_to_my_issues_changes_view() {
    let mut app = app_with_issues();
    app.switch_to_projects();
    app.switch_to_my_issues();
    assert!(matches!(app.view, View::MyIssues));
}

#[test]
fn project_navigation_wraps_at_bounds() {
    let mut app = app_with_projects();
    assert_eq!(app.project_selected, 0);

    app.project_move_down();
    assert_eq!(app.project_selected, 1);
    app.project_move_down();
    assert_eq!(app.project_selected, 2);
    app.project_move_down(); // at bottom, stays
    assert_eq!(app.project_selected, 2);

    app.project_move_up();
    assert_eq!(app.project_selected, 1);
    app.project_top();
    assert_eq!(app.project_selected, 0);
    app.project_move_up(); // at top, stays
    assert_eq!(app.project_selected, 0);
}

#[test]
fn project_bottom_goes_to_last() {
    let mut app = app_with_projects();
    app.project_bottom();
    assert_eq!(app.project_selected, 2);
}

#[test]
fn project_top_goes_to_first() {
    let mut app = app_with_projects();
    app.project_selected = 2;
    app.project_top();
    assert_eq!(app.project_selected, 0);
}

#[test]
fn selected_project_returns_correct_project() {
    let mut app = app_with_projects();
    app.project_selected = 1;
    let project = app.selected_project().unwrap();
    assert_eq!(project.name, "Beta Project");
}

#[test]
fn selected_project_returns_none_when_empty() {
    let app = App::new();
    assert!(app.selected_project().is_none());
}

#[test]
fn select_project_enters_project_detail_view() {
    let mut app = app_with_projects();
    app.project_selected = 0;
    app.select_project();
    assert!(matches!(app.view, View::ProjectDetail));
    assert_eq!(app.project_issue_selected, 0);
}

#[test]
fn select_project_on_empty_does_nothing() {
    let mut app = App::new();
    app.view = View::ProjectList;
    app.select_project();
    assert!(matches!(app.view, View::ProjectList));
}

#[test]
fn back_from_project_detail_returns_to_project_list() {
    let mut app = app_with_projects();
    app.select_project();
    app.project_issues = vec![Issue {
        id: "1".into(),
        identifier: "JEM-1".into(),
        title: "Test".into(),
        url: None,
        state: None,
        priority: None,
        project: None,
        description: None,
        assignee: None,
        labels: None,
        parent: None,
    }];
    app.back_from_project_detail();
    assert!(matches!(app.view, View::ProjectList));
    assert!(app.project_issues.is_empty());
    assert_eq!(app.project_issue_selected, 0);
}

#[test]
fn project_issue_navigation() {
    let mut app = app_with_projects();
    app.project_issues = vec![
        Issue {
            id: "1".into(),
            identifier: "JEM-1".into(),
            title: "A".into(),
            url: None,
            state: None,
            priority: None,
            project: None,
            description: None,
            assignee: None,
            labels: None,
            parent: None,
        },
        Issue {
            id: "2".into(),
            identifier: "JEM-2".into(),
            title: "B".into(),
            url: None,
            state: None,
            priority: None,
            project: None,
            description: None,
            assignee: None,
            labels: None,
            parent: None,
        },
    ];
    assert_eq!(app.project_issue_selected, 0);
    app.project_issue_move_down();
    assert_eq!(app.project_issue_selected, 1);
    app.project_issue_move_down(); // at end
    assert_eq!(app.project_issue_selected, 1);
    app.project_issue_move_up();
    assert_eq!(app.project_issue_selected, 0);
    app.project_issue_move_up(); // at start
    assert_eq!(app.project_issue_selected, 0);
}

#[test]
fn project_issue_top_and_bottom() {
    let mut app = app_with_projects();
    app.project_issues = vec![
        Issue {
            id: "1".into(),
            identifier: "JEM-1".into(),
            title: "A".into(),
            url: None,
            state: None,
            priority: None,
            project: None,
            description: None,
            assignee: None,
            labels: None,
            parent: None,
        },
        Issue {
            id: "2".into(),
            identifier: "JEM-2".into(),
            title: "B".into(),
            url: None,
            state: None,
            priority: None,
            project: None,
            description: None,
            assignee: None,
            labels: None,
            parent: None,
        },
        Issue {
            id: "3".into(),
            identifier: "JEM-3".into(),
            title: "C".into(),
            url: None,
            state: None,
            priority: None,
            project: None,
            description: None,
            assignee: None,
            labels: None,
            parent: None,
        },
    ];
    app.project_issue_bottom();
    assert_eq!(app.project_issue_selected, 2);
    app.project_issue_top();
    assert_eq!(app.project_issue_selected, 0);
}

#[test]
fn selected_project_issue_returns_correct_issue() {
    let mut app = app_with_projects();
    app.project_issues = vec![
        Issue {
            id: "1".into(),
            identifier: "JEM-1".into(),
            title: "A".into(),
            url: None,
            state: None,
            priority: None,
            project: None,
            description: None,
            assignee: None,
            labels: None,
            parent: None,
        },
        Issue {
            id: "2".into(),
            identifier: "JEM-2".into(),
            title: "B".into(),
            url: None,
            state: None,
            priority: None,
            project: None,
            description: None,
            assignee: None,
            labels: None,
            parent: None,
        },
    ];
    app.project_issue_selected = 1;
    let issue = app.selected_project_issue().unwrap();
    assert_eq!(issue.identifier, "JEM-2");
}

#[test]
fn selected_project_url_returns_url() {
    let app = app_with_projects();
    assert_eq!(
        app.selected_project_url(),
        Some("https://linear.app/test/project/alpha".into())
    );
}

#[test]
fn selected_project_url_returns_none_when_no_url() {
    let mut app = app_with_projects();
    app.project_selected = 1;
    assert!(app.selected_project_url().is_none());
}

fn app_with_project_issues() -> App {
    let mut app = app_with_projects();
    app.view = View::ProjectDetail;
    app.project_selected = 0;
    app.project_issues = vec![
        Issue {
            id: "10".into(),
            identifier: "JEM-10".into(),
            title: "Project Alpha".into(),
            url: Some("https://linear.app/test/issue/JEM-10".into()),
            state: None,
            priority: Some(2),
            project: None,
            description: Some("Description 10".into()),
            assignee: None,
            labels: None,
            parent: None,
        },
        Issue {
            id: "11".into(),
            identifier: "JEM-11".into(),
            title: "Project Beta".into(),
            url: Some("https://linear.app/test/issue/JEM-11".into()),
            state: None,
            priority: Some(3),
            project: None,
            description: None,
            assignee: None,
            labels: None,
            parent: None,
        },
    ];
    app
}

#[test]
fn select_project_issue_enters_detail_view() {
    let mut app = app_with_project_issues();
    app.project_issue_selected = 0;
    app.select_project_issue();
    assert!(matches!(app.view, View::Detail));
    assert_eq!(app.detail_origin, DetailOrigin::ProjectDetail);
    assert_eq!(app.detail_scroll, 0);
    assert!(matches!(app.detail_section, DetailSection::Body));
    assert_eq!(app.detail_thread_selected, 0);
}

#[test]
fn select_project_issue_on_empty_does_nothing() {
    let mut app = app_with_projects();
    app.view = View::ProjectDetail;
    app.select_project_issue();
    assert!(matches!(app.view, View::ProjectDetail));
}

#[test]
fn select_project_issue_at_second_item() {
    let mut app = app_with_project_issues();
    app.project_issue_selected = 1;
    app.select_project_issue();
    assert!(matches!(app.view, View::Detail));
    assert_eq!(app.detail_origin, DetailOrigin::ProjectDetail);
}

#[test]
fn back_to_list_from_project_issue_returns_to_project_detail() {
    let mut app = app_with_project_issues();
    app.select_project_issue();
    assert!(matches!(app.view, View::Detail));
    app.back_to_list();
    assert!(matches!(app.view, View::ProjectDetail));
}

#[test]
fn back_to_list_from_my_issue_returns_to_my_issues() {
    let mut app = app_with_issues();
    app.select_issue();
    assert!(matches!(app.view, View::Detail));
    app.back_to_list();
    assert!(matches!(app.view, View::MyIssues));
}

#[test]
fn selected_issue_in_detail_from_project_returns_project_issue() {
    let mut app = app_with_project_issues();
    app.project_issue_selected = 1;
    app.select_project_issue();
    let issue = app.selected_issue().unwrap();
    assert_eq!(issue.identifier, "JEM-11");
}

#[test]
fn selected_issue_in_detail_from_my_issues_returns_my_issue() {
    let mut app = app_with_issues();
    app.selected = 1;
    app.select_issue();
    let issue = app.selected_issue().unwrap();
    assert_eq!(issue.identifier, "JEM-2");
}

#[test]
fn selected_issue_url_from_project_detail_view() {
    let mut app = app_with_project_issues();
    app.project_issue_selected = 0;
    assert_eq!(
        app.selected_issue_url(),
        Some("https://linear.app/test/issue/JEM-10".into())
    );
}

#[test]
fn selected_issue_url_from_project_issue_detail() {
    let mut app = app_with_project_issues();
    app.project_issue_selected = 0;
    app.select_project_issue();
    assert_eq!(
        app.selected_issue_url(),
        Some("https://linear.app/test/issue/JEM-10".into())
    );
}

#[test]
fn context_issue_in_my_issues_view() {
    let mut app = app_with_issues();
    app.selected = 0;
    let issue = app.context_issue().unwrap();
    assert_eq!(issue.identifier, "JEM-1");
}

#[test]
fn context_issue_in_project_detail_view() {
    let mut app = app_with_project_issues();
    app.project_issue_selected = 1;
    let issue = app.context_issue().unwrap();
    assert_eq!(issue.identifier, "JEM-11");
}

#[test]
fn context_issue_in_detail_from_project() {
    let mut app = app_with_project_issues();
    app.project_issue_selected = 0;
    app.select_project_issue();
    let issue = app.context_issue().unwrap();
    assert_eq!(issue.identifier, "JEM-10");
}

#[test]
fn detail_origin_defaults_to_my_issues() {
    let app = App::new();
    assert_eq!(app.detail_origin, DetailOrigin::MyIssues);
}

#[test]
fn select_issue_sets_origin_to_my_issues() {
    let mut app = app_with_issues();
    // Even if origin was previously ProjectDetail, selecting from MyIssues resets it
    app.detail_origin = DetailOrigin::ProjectDetail;
    app.select_issue();
    assert_eq!(app.detail_origin, DetailOrigin::MyIssues);
}

#[test]
fn workspace_picker_typing_highlights_selected() {
    let mut picker = WorkspacePicker::new(vec!["/a".into(), "/b".into()]);
    assert!(!picker.typing);
    assert_eq!(picker.selected_workspace(), Some("/a"));

    picker.start_typing_in(Some("/tmp"));
    assert!(picker.typing);
    assert_eq!(picker.selected, 0);
}

#[test]
fn workspace_picker_typing_input_editable() {
    let mut picker = WorkspacePicker::new(vec![]);
    picker.start_typing_in(Some("/tmp"));
    let initial = picker.input.clone();

    // User can append characters.
    picker.input.push_str("subdir");
    assert!(picker.input.ends_with("subdir"));

    // User can delete characters.
    picker.input.pop();
    assert!(picker.input.ends_with("subdi"));

    // User can clear and type a completely different absolute path.
    picker.input = "/other/path".to_string();
    assert_eq!(picker.input, "/other/path");
    assert_ne!(picker.input, initial);
}

#[test]
fn selected_issue_url_returns_url() {
    let app = app_with_issues();
    assert_eq!(
        app.selected_issue_url(),
        Some("https://linear.app/test/issue/JEM-1".into())
    );
}

#[test]
fn selected_issue_url_returns_none_when_no_issues() {
    let app = App::new();
    assert!(app.selected_issue_url().is_none());
}

#[test]
fn selected_issue_url_returns_none_when_url_missing() {
    let mut app = App::new();
    app.issues = vec![Issue {
        id: "1".into(),
        identifier: "JEM-1".into(),
        title: "No URL".into(),
        url: None,
        state: None,
        priority: None,
        project: None,
        description: None,
        assignee: None,
        labels: None,
        parent: None,
    }];
    assert!(app.selected_issue_url().is_none());
}

#[test]
fn awaiting_open_defaults_to_false() {
    let app = app_with_issues();
    assert!(!app.awaiting_open);
}

#[test]
fn show_help_defaults_to_false() {
    let app = app_with_issues();
    assert!(!app.show_help);
}

#[test]
fn toggle_help_shows_and_hides() {
    let mut app = app_with_issues();
    assert!(!app.show_help);

    app.toggle_help();
    assert!(app.show_help);

    app.toggle_help();
    assert!(!app.show_help);
}

#[test]
fn dismiss_help_hides_overlay() {
    let mut app = app_with_issues();
    app.toggle_help();
    assert!(app.show_help);

    app.dismiss_help();
    assert!(!app.show_help);
}

#[test]
fn dismiss_help_is_idempotent() {
    let mut app = app_with_issues();
    app.dismiss_help();
    assert!(!app.show_help);
}

#[test]
fn loading_defaults_to_false() {
    let app = App::new();
    assert!(!app.loading);
}

#[test]
fn error_defaults_to_none() {
    let app = App::new();
    assert!(app.error.is_none());
}

#[test]
fn dismiss_error_clears_error() {
    let mut app = App::new();
    app.error = Some(AppError::new("test error".to_string()));
    app.dismiss_error();
    assert!(app.error.is_none());
}

#[test]
fn dismiss_error_is_idempotent() {
    let mut app = App::new();
    app.dismiss_error();
    assert!(app.error.is_none());
}

#[test]
fn run_status_for_thread_returns_most_prominent() {
    let mut app = App::new();
    app.detail_session_runs = vec![
        SessionRunSummary {
            run_id: "run-1".to_string(),
            thread_id: "T-abc".to_string(),
            status: SessionRunStatus::Completed,
            log_path: Some("/tmp/run-1.log".to_string()),
            created_at_ms: 100,
        },
        SessionRunSummary {
            run_id: "run-2".to_string(),
            thread_id: "T-abc".to_string(),
            status: SessionRunStatus::Running,
            log_path: Some("/tmp/run-2.log".to_string()),
            created_at_ms: 200,
        },
    ];
    assert_eq!(
        app.run_status_for_thread("T-abc"),
        Some(SessionRunStatus::Running)
    );
}

#[test]
fn selected_thread_run_returns_newest_for_selected_thread() {
    let mut app = App::new();
    app.detail_section = DetailSection::Threads;
    app.detail_threads = vec![
        ThreadSummary {
            id: "T-abc".to_string(),
            title: "A".to_string(),
            message_count: 1,
            last_activity_ms: 0,
        },
        ThreadSummary {
            id: "T-def".to_string(),
            title: "B".to_string(),
            message_count: 1,
            last_activity_ms: 0,
        },
    ];
    app.detail_session_runs = vec![
        SessionRunSummary {
            run_id: "run-old".to_string(),
            thread_id: "T-abc".to_string(),
            status: SessionRunStatus::Failed,
            log_path: Some("/tmp/run-old.log".to_string()),
            created_at_ms: 100,
        },
        SessionRunSummary {
            run_id: "run-other".to_string(),
            thread_id: "T-def".to_string(),
            status: SessionRunStatus::Running,
            log_path: Some("/tmp/run-other.log".to_string()),
            created_at_ms: 150,
        },
        SessionRunSummary {
            run_id: "run-new".to_string(),
            thread_id: "T-abc".to_string(),
            status: SessionRunStatus::Completed,
            log_path: Some("/tmp/run-new.log".to_string()),
            created_at_ms: 200,
        },
    ];

    app.detail_thread_selected = 0;
    assert_eq!(
        app.selected_thread_run().map(|r| r.run_id.as_str()),
        Some("run-new")
    );

    app.detail_thread_selected = 1;
    assert_eq!(
        app.selected_thread_run().map(|r| r.run_id.as_str()),
        Some("run-other")
    );
}

#[test]
fn run_status_for_thread_returns_none_when_no_runs() {
    let app = App::new();
    assert_eq!(app.run_status_for_thread("T-xyz"), None);
}

#[test]
fn active_run_counts_tallies_running_and_pending() {
    let mut app = App::new();
    app.detail_session_runs = vec![
        SessionRunSummary {
            run_id: "run-1".to_string(),
            thread_id: "T-a".to_string(),
            status: SessionRunStatus::Running,
            log_path: Some("/tmp/run-1.log".to_string()),
            created_at_ms: 1,
        },
        SessionRunSummary {
            run_id: "run-2".to_string(),
            thread_id: "T-b".to_string(),
            status: SessionRunStatus::Pending,
            log_path: Some("/tmp/run-2.log".to_string()),
            created_at_ms: 2,
        },
        SessionRunSummary {
            run_id: "run-3".to_string(),
            thread_id: "T-c".to_string(),
            status: SessionRunStatus::Completed,
            log_path: Some("/tmp/run-3.log".to_string()),
            created_at_ms: 3,
        },
        SessionRunSummary {
            run_id: "run-4".to_string(),
            thread_id: "T-d".to_string(),
            status: SessionRunStatus::Running,
            log_path: Some("/tmp/run-4.log".to_string()),
            created_at_ms: 4,
        },
    ];
    let (running, pending) = app.active_run_counts();
    assert_eq!(running, 2);
    assert_eq!(pending, 1);
}

#[test]
fn active_run_counts_zero_when_no_runs() {
    let app = App::new();
    let (running, pending) = app.active_run_counts();
    assert_eq!(running, 0);
    assert_eq!(pending, 0);
}

#[test]
fn back_to_list_clears_session_runs() {
    let mut app = App::new();
    app.issues = vec![Issue {
        id: "1".into(),
        identifier: "JEM-1".into(),
        title: "Test".into(),
        url: None,
        state: None,
        priority: None,
        project: None,
        description: None,
        assignee: None,
        labels: None,
        parent: None,
    }];
    app.select_issue();
    app.detail_session_runs = vec![SessionRunSummary {
        run_id: "run-1".to_string(),
        thread_id: "T-a".to_string(),
        status: SessionRunStatus::Running,
        log_path: Some("/tmp/run-1.log".to_string()),
        created_at_ms: 1,
    }];
    app.back_to_list();
    assert!(app.detail_session_runs.is_empty());
}

#[test]
fn start_state_change_populates_options() {
    let mut app = app_with_issues();
    app.start_state_change();
    assert!(app.awaiting_state_change);
    assert!(!app.state_options.is_empty());
    assert_eq!(app.state_selected, 0);
    assert!(app.state_options.contains(&"In Progress".to_string()));
    assert!(app.state_options.contains(&"Done".to_string()));
}

#[test]
fn cancel_state_change_clears_state() {
    let mut app = app_with_issues();
    app.start_state_change();
    app.state_selected = 2;
    app.cancel_state_change();
    assert!(!app.awaiting_state_change);
    assert!(app.state_options.is_empty());
    assert_eq!(app.state_selected, 0);
}

#[test]
fn state_change_navigation() {
    let mut app = app_with_issues();
    app.start_state_change();
    assert_eq!(app.state_selected, 0);

    app.state_change_move_down();
    assert_eq!(app.state_selected, 1);

    app.state_change_move_up();
    assert_eq!(app.state_selected, 0);

    // Cannot go above 0
    app.state_change_move_up();
    assert_eq!(app.state_selected, 0);
}

#[test]
fn selected_state_option_returns_correct_value() {
    let mut app = app_with_issues();
    app.start_state_change();
    assert_eq!(app.selected_state_option(), Some("Backlog"));

    app.state_change_move_down();
    assert_eq!(app.selected_state_option(), Some("Todo"));
}

#[test]
fn apply_local_state_change_updates_my_issues() {
    let mut app = app_with_issues();
    app.selected = 0;
    app.apply_local_state_change("In Progress");
    assert_eq!(app.issues[0].status_str(), "In Progress");
}

#[test]
fn apply_local_state_change_updates_project_issues() {
    let mut app = app_with_project_issues();
    app.project_issue_selected = 0;
    app.view = View::ProjectDetail;
    app.apply_local_state_change("Done");
    assert_eq!(app.project_issues[0].status_str(), "Done");
}

#[test]
fn start_state_change_defaults_to_current_state() {
    let mut app = app_with_issues();
    // Give the first issue an "In Progress" state
    app.issues[0].state = Some(ishi::api::types::IssueState {
        name: "In Progress".into(),
    });
    app.selected = 0;
    app.select_issue(); // enter detail view so context_issue() works
    app.start_state_change();
    assert_eq!(app.state_selected, 2); // "In Progress" is index 2
}

fn app_with_thread_and_output() -> App {
    let mut app = app_with_issues();
    app.detail_section = DetailSection::Threads;
    app.detail_threads = vec![ThreadSummary {
        id: "T-abc".to_string(),
        title: "Test thread".to_string(),
        message_count: 1,
        last_activity_ms: 0,
    }];
    // Push some output into the buffer (a message the user sent earlier).
    app.output_buffer.push_user_message("T-abc", "Hello from assistant");
    app
}

#[test]
fn focus_output_switches_section_when_output_exists() {
    let mut app = app_with_thread_and_output();
    app.focus_output();
    assert_eq!(app.detail_section, DetailSection::Output);
    assert_eq!(app.detail_output_scroll, 0);
}

#[test]
fn focus_output_does_nothing_when_no_output() {
    let mut app = app_with_issues();
    app.detail_section = DetailSection::Threads;
    app.detail_threads = vec![ThreadSummary {
        id: "T-empty".to_string(),
        title: "Empty".to_string(),
        message_count: 0,
        last_activity_ms: 0,
    }];
    app.focus_output();
    assert_eq!(app.detail_section, DetailSection::Threads);
}

#[test]
fn selected_thread_output_returns_lines() {
    let app = app_with_thread_and_output();
    let output = app.selected_thread_output();
    assert_eq!(output.len(), 1);
    assert_eq!(output[0].text, "▶ Hello from assistant");
}

#[test]
fn selected_thread_output_empty_when_no_thread_selected() {
    let mut app = app_with_issues();
    app.detail_section = DetailSection::Body;
    let output = app.selected_thread_output();
    assert!(output.is_empty());
}

#[test]
fn scroll_output_respects_bounds() {
    let mut app = app_with_thread_and_output();
    app.detail_output_scroll_max = 5;
    app.detail_output_scroll = 0;

    app.scroll_output_down();
    assert_eq!(app.detail_output_scroll, 1);

    app.scroll_output_to_bottom();
    assert_eq!(app.detail_output_scroll, 5);

    app.scroll_output_down();
    assert_eq!(app.detail_output_scroll, 5); // can't exceed max

    app.scroll_output_up();
    assert_eq!(app.detail_output_scroll, 4);

    app.detail_output_scroll = 0;
    app.scroll_output_up();
    assert_eq!(app.detail_output_scroll, 0); // can't go below 0
}

#[test]
fn back_to_list_clears_output_state() {
    let mut app = app_with_thread_and_output();
    app.select_issue();
    app.detail_output_scroll = 10;
    app.detail_output_scroll_max = 20;
    app.back_to_list();
    assert_eq!(app.detail_output_scroll, 0);
    assert_eq!(app.detail_output_scroll_max, 0);
}

#[test]
fn start_message_input_activates_and_clears() {
    let mut app = app_with_thread_and_output();
    app.message_input = "leftover".to_string();
    app.start_message_input();
    assert!(app.message_input_active);
    assert!(app.message_input.is_empty());
}

#[test]
fn cancel_message_input_deactivates() {
    let mut app = app_with_thread_and_output();
    app.start_message_input();
    app.message_input.push_str("draft");
    app.cancel_message_input();
    assert!(!app.message_input_active);
    assert!(app.message_input.is_empty());
}

#[test]
fn submit_message_input_returns_thread_and_text() {
    let mut app = app_with_thread_and_output();
    app.start_message_input();
    app.message_input = "do the thing".to_string();
    let result = app.submit_message_input();
    assert!(!app.message_input_active);
    assert!(app.message_input.is_empty());
    let (thread_id, text) = result.unwrap();
    assert_eq!(thread_id, "T-abc");
    assert_eq!(text, "do the thing");
    // Should also appear in output buffer
    assert_eq!(app.output_buffer.line_count("T-abc"), 2); // 1 assistant + 1 user
}

#[test]
fn submit_message_input_empty_returns_none() {
    let mut app = app_with_thread_and_output();
    app.start_message_input();
    let result = app.submit_message_input();
    assert!(result.is_none());
}

#[test]
fn submit_message_input_whitespace_only_returns_none() {
    let mut app = app_with_thread_and_output();
    app.start_message_input();
    app.message_input = "   ".to_string();
    let result = app.submit_message_input();
    assert!(result.is_none());
}

#[test]
fn submit_message_input_no_thread_returns_none() {
    let mut app = app_with_issues();
    app.detail_threads.clear();
    app.start_message_input();
    app.message_input = "hello".to_string();
    let result = app.submit_message_input();
    assert!(result.is_none());
}

fn issue(id: &str, identifier: &str, title: &str, priority: Option<u32>) -> Issue {
    Issue {
        id: id.into(),
        identifier: identifier.into(),
        title: title.into(),
        url: None,
        state: None,
        priority,
        project: None,
        description: None,
        assignee: None,
        labels: None,
        parent: None,
    }
}

#[test]
fn sort_by_title_is_case_insensitive_and_stable() {
    let mut app = App::new();
    app.issues = vec![
        issue("1", "A-3", "beta", Some(2)),
        issue("2", "A-1", "Alpha", None),
        issue("3", "A-2", "BETA", Some(1)),
    ];
    app.set_sort(SortColumn::Title);
    let ids: Vec<&str> = app.filtered_issues().iter().map(|i| i.id.as_str()).collect();
    assert_eq!(ids, vec!["2", "1", "3"]);
    app.set_sort(SortColumn::Title);
    let ids: Vec<&str> = app.filtered_issues().iter().map(|i| i.id.as_str()).collect();
    assert_eq!(ids, vec!["1", "3", "2"]);
}

#[test]
fn sort_by_priority_puts_missing_first() {
    let mut app = App::new();
    app.issues = vec![
        issue("1", "A-1", "x", Some(3)),
        issue("2", "A-2", "y", None),
        issue("3", "A-3", "z", Some(1)),
    ];
    app.set_sort(SortColumn::Priority);
    let ids: Vec<&str> = app.filtered_issues().iter().map(|i| i.id.as_str()).collect();
    assert_eq!(ids, vec!["2", "3", "1"]);
    assert_eq!(app.selected, 0);
}

#[test]
fn sort_by_identifier_orders_by_code_point() {
    let mut app = App::new();
    app.issues = vec![
        issue("1", "JEM-10", "x", None),
        issue("2", "JEM-2", "y", None),
        issue("3", "ABC-9", "z", None),
    ];
    app.set_sort(SortColumn::Identifier);
    let ids: Vec<&str> = app.filtered_issues().iter().map(|i| i.identifier.as_str()).collect();
    assert_eq!(ids, vec!["ABC-9", "JEM-10", "JEM-2"]);
}

#[test]
fn projects_sort_by_progress_then_flip() {
    let mut app = App::new();
    let mk = |id: &str, p: Option<f64>| Project {
        id: id.into(),
        name: id.into(),
        state: None,
        progress: p.map(|x| x.to_bits()),
        lead: None,
        url: None,
    };
    app.projects = vec![mk("a", Some(0.5)), mk("b", None), mk("c", Some(0.25))];
    app.set_project_sort(ishi::app::ProjectSortColumn::Progress);
    let ids: Vec<&str> = app.sorted_projects().iter().map(|p| p.id.as_str()).collect();
    assert_eq!(ids, vec!["b", "c", "a"]);
    app.set_project_sort(ishi::app::ProjectSortColumn::Progress);
    let ids: Vec<&str> = app.sorted_projects().iter().map(|p| p.id.as_str()).collect();
    assert_eq!(ids, vec!["a", "c", "b"]);
}

#[test]
fn fetched_issues_keep_the_cursor_on_the_same_issue() {
    let mut app = App::new();
    app.issues = vec![issue("1", "A-1", "one", None), issue("2", "A-2", "two", None)];
    app.selected = 1;
    app.issues_fetched(Ok(vec![
        issue("0", "A-0", "zero", None),
        issue("1", "A-1", "one", None),
        issue("2", "A-2", "two", None),
    ]));
    assert_eq!(app.selected, 2);
    assert!(app.error.is_none());
    assert_eq!(app.cache.get_stale("my_issues").map(|v| v.len()), Some(3));
    app.issues_fetched(Ok(vec![issue("9", "A-9", "nine", None)]));
    assert_eq!(app.selected, 0);
}

#[test]
fn failed_fetch_keeps_data_and_shows_error() {
    let mut app = App::new();
    app.issues = vec![issue("1", "A-1", "one", None)];
    app.issues_fetched(Err(anyhow::Error::msg("connection timed out")));
    assert_eq!(app.issues.len(), 1);
    assert!(app.error.as_ref().unwrap().message.contains("timed out"));
}

#[test]
fn cached_issues_serve_the_next_load() {
    let mut app = App::new();
    assert!(app.begin_load_issues());
    assert!(app.loading);
    app.issues_fetched(Ok(vec![issue("1", "A-1", "one", None)]));
    app.end_load();
    assert!(!app.loading);
    app.issues.clear();
    assert!(!app.begin_load_issues());
    assert_eq!(app.issues.len(), 1);
    app.begin_refresh();
    assert!(app.refreshing);
    assert!(app.cache.get_stale("my_issues").is_none());
    assert!(app.begin_load_issues());
    assert_eq!(app.end_refresh(), Some("A-1".to_string()));
    assert!(!app.refreshing);
}

#[test]
fn project_issue_loading_flow() {
    let mut app = App::new();
    assert_eq!(app.begin_load_project_issues(), None);
    app.projects_fetched(Ok(vec![Project {
        id: "proj-1".into(),
        name: "Alpha".into(),
        state: None,
        progress: None,
        lead: None,
        url: None,
    }]));
    assert!(!app.begin_load_projects());
    assert_eq!(app.begin_load_project_issues(), Some("proj-1".to_string()));
    app.project_issues_fetched(Ok(vec![issue("10", "JEM-10", "ten", None)]));
    assert_eq!(app.project_issues[0].identifier, "JEM-10");
    assert!(!app.loading);
    app.project_issues_fetched(Err(anyhow::Error::msg("dns error: failed to lookup address")));
    assert!(app.error.as_ref().unwrap().message.contains("Network error"));
}

#[test]
fn latest_run_prefers_last_of_equal_times() {
    let mut app = App::new();
    let run = |id: &str, t: &str, status: SessionRunStatus, at: u64| SessionRunSummary {
        run_id: id.to_string(),
        thread_id: t.to_string(),
        status,
        log_path: None,
        created_at_ms: at,
    };
    app.detail_session_runs = vec![
        run("r1", "T", SessionRunStatus::Failed, 5),
        run("r2", "T", SessionRunStatus::Completed, 5),
        run("r3", "U", SessionRunStatus::Running, 9),
    ];
    assert_eq!(app.latest_run_for_thread("T").map(|r| r.run_id.as_str()), Some("r2"));
    assert_eq!(app.run_status_for_thread("T"), Some(SessionRunStatus::Failed));
    assert_eq!(app.active_run_counts(), (1, 0));
}
