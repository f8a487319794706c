use ishi::api::types::{
    Issue, IssueUser, IssueLabel, IssueLabels, IssueParent, IssueProject, IssueState,
};
use ishi::issue_context::build_issue_context;

fn minimal_issue() -> Issue {
    Issue {
        id: "1".into(),
        identifier: "JEM-42".into(),
        title: "Fix the widget".into(),
        url: None,
        state: None,
        priority: None,
        project: None,
        description: None,
        assignee: None,
        labels: None,
        parent: None,
    }
}

#[test]
fn build_issue_context_minimal() {
    let ctx = build_issue_context(&minimal_issue());
    assert!(ctx.contains("<task>"));
    assert!(ctx.contains("</task>"));
    assert!(ctx.contains("# JEM-42 Fix the widget"));
    assert!(ctx.contains("<metadata>"));
    assert!(ctx.contains("</metadata>"));
    assert!(!ctx.contains("<parent_task>"));
    assert_eq!(
        ctx,
        "<task>\n# JEM-42 Fix the widget\n\n<metadata>\n</metadata>\n</task>\n"
    );
}

#[test]
fn build_issue_context_includes_all_fields() {
    let issue = Issue {
        url: Some("https://linear.app/issue/JEM-42".into()),
        state: Some(IssueState {
            name: "In Progress".into(),
        }),
        project: Some(IssueProject {
            name: "ishi".into(),
        }),
        labels: Some(IssueLabels {
            nodes: vec![
                IssueLabel { name: "bug".into() },
                IssueLabel {
                    name: "urgent".into(),
                },
            ],
        }),
        description: Some("Describe the problem in detail.".into()),
        parent: Some(Box::new(IssueParent {
            identifier: "JEM-40".into(),
            title: "Parent task".into(),
            description: Some("Parent description.".into()),
            url: Some("https://linear.app/issue/JEM-40".into()),
            state: Some(IssueState { name: "Todo".into() }),
            labels: None,
        })),
        ..minimal_issue()
    };
    let ctx = build_issue_context(&issue);
    assert!(ctx.contains("<parent_task>"));
    assert!(ctx.contains("# JEM-40 Parent task"));
    assert!(ctx.contains("Parent description."));
    assert!(ctx.contains("</parent_task>"));
    assert!(ctx.contains("<task>"));
    assert!(ctx.contains("https://linear.app/issue/JEM-42"));
    assert!(ctx.contains("Status: In Progress"));
    assert!(ctx.contains("Project: ishi"));
    assert!(ctx.contains("Labels: bug, urgent"));
    assert!(ctx.contains("Describe the problem in detail."));
    assert!(ctx.contains("</task>"));
}

#[test]
fn build_issue_context_skips_empty_description() {
    let issue = Issue {
        description: Some("".into()),
        ..minimal_issue()
    };
    let ctx = build_issue_context(&issue);
    assert!(ctx.contains("<metadata>"));
    assert!(ctx.contains("</task>"));
    assert!(ctx.ends_with("</metadata>\n</task>\n"));
}

#[test]
fn build_issue_context_skips_empty_labels() {
    let issue = Issue {
        labels: Some(IssueLabels { nodes: vec![] }),
        ..minimal_issue()
    };
    let ctx = build_issue_context(&issue);
    assert!(!ctx.contains("Labels"));
}

#[test]
fn build_issue_context_exact_layout() {
    let issue = Issue {
        url: Some("U".into()),
        assignee: Some(IssueUser { name: "Ann".into() }),
        labels: Some(IssueLabels { nodes: vec![IssueLabel { name: "one".into() }] }),
        description: Some("D".into()),
        parent: Some(Box::new(IssueParent {
            identifier: "P-1".into(),
            title: "T".into(),
            description: None,
            url: None,
            state: None,
            labels: Some(IssueLabels { nodes: vec![IssueLabel { name: "x".into() }] }),
        })),
        ..minimal_issue()
    };
    assert_eq!(
        build_issue_context(&issue),
        "<parent_task>\n# P-1 T\nLabels: x\n</parent_task>\n\n<task>\n# JEM-42 Fix the widget\nU\n\n<metadata>\nLabels: one\nAssignee: Ann\n</metadata>\n\nD\n</task>\n"
    );
}
