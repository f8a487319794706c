use ishi::api::anthropic::{
    extraction_prompt, issue_from_agent_output, strip_code_fence, ExtractError,
};

#[test]
fn strip_code_fence_variants() {
    assert_eq!(strip_code_fence("  {\"a\":1}  "), "{\"a\":1}");
    assert_eq!(strip_code_fence("```json\n{\"a\":1}\n```"), "{\"a\":1}");
    assert_eq!(strip_code_fence("```\n{\"b\":2}\n```\n"), "{\"b\":2}");
    assert_eq!(strip_code_fence("```json\n{\"a\":1}"), "```json\n{\"a\":1}");
}

#[test]
fn extraction_prompt_lists_names_as_json() {
    let p = extraction_prompt(
        "fix \"login\"",
        &["Core".to_string(), "Web".to_string()],
        &[],
    );
    assert!(p.starts_with("Extract a Linear issue from the following free-form text."));
    assert!(p.contains("\n\nAvailable teams: [\"Core\",\"Web\"]\nAvailable projects: []\n\nUser input: fix \"login\""));
    assert!(p.ends_with("User input: fix \"login\""));
}

#[test]
fn issue_from_agent_output_reads_the_last_result() {
    let out = [
        "{\"type\":\"system\",\"subtype\":\"init\"}",
        "not json",
        "{\"type\":\"result\",\"result\":\"```json\\n{\\\"title\\\":\\\"Old\\\"}\\n```\"}",
        "{\"type\":\"result\",\"result\":\"```json\\n{\\\"title\\\":\\\"Fix login\\\",\\\"team\\\":\\\"Core\\\",\\\"priority\\\":null,\\\"project\\\":7}\\n```\"}",
        "{\"type\":\"assistant\",\"result\":\"ignored\"}",
    ]
    .join("\n");
    let issue = issue_from_agent_output(&out).unwrap();
    assert_eq!(issue.title, "Fix login");
    assert_eq!(issue.description, "");
    assert_eq!(issue.team_name.as_deref(), Some("Core"));
    assert_eq!(issue.project_name, None);
    assert_eq!(issue.priority, None);
}

#[test]
fn issue_from_agent_output_errors() {
    assert_eq!(
        issue_from_agent_output("{\"type\":\"assistant\"}\n").unwrap_err(),
        ExtractError::NoResult
    );
    assert_eq!(
        issue_from_agent_output("{\"type\":\"result\",\"result\":\"not json\"}").unwrap_err(),
        ExtractError::InvalidAnswer
    );
    let other = issue_from_agent_output("{\"type\":\"result\",\"result\":\"[1,2]\"}").unwrap();
    assert_eq!(other.title, "");
    assert_eq!(other.team_name, None);
}
