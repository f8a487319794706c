//! The loading and refreshing flows of the app model, driven step by step:
//! each helper below performs the fetches that the event loop performs and
//! hands their results to the model.

use ishi::api::types::{Issue, Project};
use ishi::app::model::{CACHE_KEY_MY_ISSUES, CACHE_KEY_PROJECTS};
use ishi::app::App;

type Fetched<T> = Result<Vec<T>, anyhow::Error>;

fn load_issues(app: &mut App, fetch: Fetched<Issue>) {
    if app.begin_load_issues() {
        app.issues_fetched(fetch);
        app.end_load();
    }
}

fn load_projects(app: &mut App, fetch: Fetched<Project>) {
    if app.begin_load_projects() {
        app.projects_fetched(fetch);
        app.end_load();
    }
}

fn load_project_issues(app: &mut App, fetch: Fetched<Issue>) -> Option<String> {
    let id = app.begin_load_project_issues();
    if id.is_some() {
        app.project_issues_fetched(fetch);
    }
    id
}

fn refresh(app: &mut App, issues: Fetched<Issue>, projects: Fetched<Project>) -> Option<String> {
    app.begin_refresh();
    app.issues_fetched(issues);
    app.projects_fetched(projects);
    app.end_refresh()
}

fn refresh_projects(app: &mut App, projects: Fetched<Project>) {
    app.begin_refresh_projects();
    app.projects_fetched(projects);
    app.end_refresh_projects();
}

fn failure(message: &str) -> anyhow::Error {
    anyhow::Error::msg(message.to_string())
}

fn issue(id: &str, identifier: &str, title: &str) -> Issue {
    Issue {
        id: id.into(),
        identifier: identifier.into(),
        title: title.into(),
        url: None,
        state: None,
        priority: None,
        project: None,
        description: None,
        assignee: None,
        labels: None,
        parent: None,
    }
}

fn project(id: &str, name: &str) -> Project {
    Project {
        id: id.into(),
        name: name.into(),
        state: None,
        progress: None,
        lead: None,
        url: None,
    }
}

/// The two issues of the "my issues" sample response.
fn my_issues() -> Vec<Issue> {
    vec![issue("a1", "JEM-1", "First issue"), issue("a2", "JEM-2", "Second issue")]
}

/// The two projects of the projects sample response.
fn projects() -> Vec<Project> {
    vec![project("p1", "Alpha Project"), project("p2", "Beta Project")]
}

fn alpha_beta() -> Vec<Issue> {
    vec![issue("1", "JEM-1", "Alpha"), issue("2", "JEM-2", "Beta")]
}

#[test]
fn refresh_reloads_issues() {
    let mut app = App::new();
    app.issues = vec![issue("old", "JEM-1", "Old issue")];
    assert_eq!(app.issues.len(), 1);
    assert_eq!(app.issues[0].identifier, "JEM-1");

    refresh(&mut app, Ok(vec![issue("1", "JEM-10", "New issue")]), Ok(vec![]));

    assert_eq!(app.issues.len(), 1);
    assert_eq!(app.issues[0].identifier, "JEM-10");
    assert!(!app.refreshing);
}

#[test]
fn refresh_preserves_selection_when_issue_exists() {
    let mut app = App::new();
    app.issues = alpha_beta();
    app.selected = 1;

    let fetched = vec![
        issue("1", "JEM-1", "Alpha"),
        issue("2", "JEM-2", "Beta"),
        issue("3", "JEM-3", "Gamma"),
    ];
    refresh(&mut app, Ok(fetched), Ok(vec![]));

    assert_eq!(app.selected, 1);
    assert_eq!(app.issues[app.selected].identifier, "JEM-2");
}

#[test]
fn refresh_resets_selection_when_issue_gone() {
    let mut app = App::new();
    app.issues = alpha_beta();
    app.selected = 1;

    let fetched = vec![issue("1", "JEM-1", "Alpha"), issue("3", "JEM-3", "Gamma")];
    refresh(&mut app, Ok(fetched), Ok(vec![]));

    assert_eq!(app.selected, 0);
}

#[test]
fn refresh_on_api_error_preserves_issues() {
    let mut app = App::new();
    app.issues = vec![issue("1", "JEM-1", "Alpha")];

    refresh(&mut app, Ok(vec![]), Ok(vec![]));

    assert!(!app.refreshing);
}

#[test]
fn load_projects_fetches_on_empty_cache() {
    let mut app = App::new();
    assert!(app.projects.is_empty());
    load_projects(&mut app, Ok(projects()));
    assert_eq!(app.projects.len(), 2);
    assert!(app.project_cache.is_fresh(CACHE_KEY_PROJECTS));
}

#[test]
fn load_projects_serves_from_cache() {
    let mut app = App::new();
    load_projects(&mut app, Ok(projects()));
    assert_eq!(app.projects.len(), 2);

    app.projects.clear();
    load_projects(&mut app, Err(failure("no second response")));
    assert_eq!(app.projects.len(), 2);
    assert!(app.error.is_none());
}

#[test]
fn refresh_projects_bypasses_cache() {
    let mut app = App::new();
    load_projects(&mut app, Ok(projects()));
    assert_eq!(app.projects.len(), 2);

    refresh_projects(&mut app, Ok(projects()));
    assert_eq!(app.projects.len(), 2);
    assert!(!app.refreshing);
    assert!(app.project_cache.is_fresh(CACHE_KEY_PROJECTS));
}

#[test]
fn load_project_issues_fetches_issues() {
    let mut app = App::new();
    app.projects = vec![project("proj-1", "Alpha")];
    app.project_selected = 0;

    let asked = load_project_issues(
        &mut app,
        Ok(vec![issue("i1", "JEM-20", "Project issue"), issue("i2", "JEM-21", "Another")]),
    );

    assert_eq!(asked, Some("proj-1".to_string()));
    assert_eq!(app.project_issues.len(), 2);
    assert_eq!(app.project_issue_selected, 0);
    assert!(!app.loading);
}

#[test]
fn load_issues_fetches_on_empty_cache() {
    let mut app = App::new();
    assert!(app.issues.is_empty());
    load_issues(&mut app, Ok(my_issues()));
    assert_eq!(app.issues.len(), 2);
    assert!(app.cache.is_fresh(CACHE_KEY_MY_ISSUES));
}

#[test]
fn load_issues_serves_from_cache() {
    let mut app = App::new();
    load_issues(&mut app, Ok(my_issues()));
    assert_eq!(app.issues.len(), 2);

    app.issues.clear();
    load_issues(&mut app, Err(failure("no second response")));
    assert_eq!(app.issues.len(), 2);
    assert!(app.error.is_none());
}

#[test]
fn refresh_bypasses_cache() {
    let mut app = App::new();
    load_issues(&mut app, Ok(my_issues()));
    assert_eq!(app.issues.len(), 2);

    refresh(&mut app, Ok(my_issues()), Ok(vec![]));
    assert_eq!(app.issues.len(), 2);
    assert!(app.cache.is_fresh(CACHE_KEY_MY_ISSUES));
}

#[test]
fn refresh_updates_cache() {
    let mut app = App::new();
    load_issues(&mut app, Ok(my_issues()));
    assert_eq!(app.issues.len(), 2);
    assert!(app.cache.is_fresh(CACHE_KEY_MY_ISSUES));
}

#[test]
fn refresh_on_api_error_preserves_cache() {
    let mut app = App::new();
    load_issues(&mut app, Ok(my_issues()));
    assert_eq!(app.issues.len(), 2);

    refresh(&mut app, Ok(vec![]), Ok(vec![]));
    assert!(app.cache.is_fresh(CACHE_KEY_MY_ISSUES));
}

#[test]
fn load_issues_sets_loading_when_empty() {
    let mut app = App::new();
    assert!(app.issues.is_empty());
    assert!(app.begin_load_issues());
    assert!(app.loading);
    app.issues_fetched(Ok(my_issues()));
    app.end_load();
    assert!(!app.loading);
    assert!(!app.issues.is_empty());
}

#[test]
fn load_issues_from_cache_skips_loading() {
    let mut app = App::new();
    load_issues(&mut app, Ok(my_issues()));
    app.issues.clear();
    assert!(!app.begin_load_issues());
    assert!(!app.loading);
}

#[test]
fn load_projects_sets_loading_when_empty() {
    let mut app = App::new();
    assert!(app.projects.is_empty());
    assert!(app.begin_load_projects());
    assert!(app.loading);
    app.projects_fetched(Ok(projects()));
    app.end_load();
    assert!(!app.loading);
    assert!(!app.projects.is_empty());
}

#[test]
fn load_issues_sets_error_on_failure() {
    let mut app = App::new();
    load_issues(&mut app, Err(failure("HTTP status client error (401 Unauthorized)")));
    assert!(app.error.is_some());
    assert!(app.error.as_ref().unwrap().message.contains("Authentication"));
}

#[test]
fn load_issues_error_preserves_existing_data() {
    let mut app = App::new();
    load_issues(&mut app, Ok(my_issues()));
    assert_eq!(app.issues.len(), 2);
    assert!(app.error.is_none());

    refresh(
        &mut app,
        Err(failure("connection timed out")),
        Err(failure("connection timed out")),
    );

    assert_eq!(app.issues.len(), 2);
    assert!(app.error.is_some());
    assert!(app.error.as_ref().unwrap().message.contains("timed out"));
}

#[test]
fn refresh_clears_error_on_success() {
    let mut app = App::new();
    load_issues(&mut app, Err(failure("network error")));
    assert!(app.error.is_some());

    refresh(&mut app, Ok(my_issues()), Ok(vec![]));

    assert!(app.error.is_none());
    assert_eq!(app.issues.len(), 2);
}

#[test]
fn load_projects_sets_error_on_failure() {
    let mut app = App::new();
    load_projects(&mut app, Err(failure("HTTP status client error (429 Too Many Requests)")));
    assert!(app.error.is_some());
    assert!(app.error.as_ref().unwrap().message.contains("Rate limited"));
}

#[test]
fn load_project_issues_sets_error_on_failure() {
    let mut app = App::new();
    load_projects(&mut app, Ok(projects()));
    assert!(!app.projects.is_empty());
    app.select_project();

    load_project_issues(&mut app, Err(failure("dns error: failed to lookup address")));

    assert!(app.error.is_some());
    assert!(app.error.as_ref().unwrap().message.contains("Network error"));
}

#[test]
fn refresh_returns_selected_issue_identifier() {
    let mut app = App::new();
    app.issues = alpha_beta();
    app.selected = 1;

    let result = refresh(&mut app, Ok(alpha_beta()), Ok(vec![]));
    assert_eq!(result, Some("JEM-2".into()));
}

#[test]
fn refresh_returns_none_when_no_issues() {
    let mut app = App::new();
    let result = refresh(&mut app, Ok(vec![]), Ok(vec![]));
    assert!(result.is_none());
}

#[test]
fn refresh_invalidates_project_cache() {
    let mut app = App::new();
    load_projects(&mut app, Ok(projects()));
    assert!(app.project_cache.is_fresh(CACHE_KEY_PROJECTS));

    app.begin_refresh();
    assert!(app.project_cache.get_stale(CACHE_KEY_PROJECTS).is_none());
    app.issues_fetched(Ok(vec![]));
    app.projects_fetched(Ok(projects()));
    app.end_refresh();

    assert!(app.project_cache.is_fresh(CACHE_KEY_PROJECTS));
}

#[test]
fn refresh_updates_projects() {
    let mut app = App::new();
    app.projects = vec![project("old", "Old Project")];

    refresh(&mut app, Ok(vec![]), Ok(projects()));

    assert_eq!(app.projects.len(), 2);
    assert_eq!(app.projects[0].name, "Alpha Project");
}

#[test]
fn refresh_projects_sets_error_on_failure() {
    let mut app = App::new();
    load_projects(&mut app, Ok(projects()));
    assert!(!app.projects.is_empty());
    assert!(app.error.is_none());

    refresh_projects(&mut app, Err(failure("HTTP status client error (403 Forbidden)")));

    assert!(app.error.is_some());
    assert!(app.error.as_ref().unwrap().message.contains("Access denied"));
    assert!(!app.projects.is_empty());
}
