//! Turning free-form text into an issue draft with the agent: the prompt it
//! is given and the clean-up of the JSON text it answers with.

use crate::amp::session::json_quoted;
use crate::amp::state::string_views;
use crate::issue_context::opt_view;
use crate::text::{chars_of, ends_with_chars, has_prefix, has_suffix, lines, lines_of, owned,
    skip_chars, starts_with_chars, str_eq, string_of, take_chars, trim, trim_chars};
use vstd::prelude::*;

verus! {

/// An issue draft extracted from free-form text.
#[derive(Debug, Clone)]
pub struct ExtractedIssue {
    pub title: String,
    pub description: String,
    pub team_name: Option<String>,
    pub project_name: Option<String>,
    pub priority: Option<String>,
}

/// The JSON string literals of `names`, separated by commas.
pub open spec fn json_quoted_items(names: Seq<Seq<char>>) -> Seq<char>
    decreases names.len(),
{
    if names.len() == 0 {
        Seq::empty()
    } else if names.len() == 1 {
        json_quoted(names[0])
    } else {
        json_quoted_items(names.drop_last()) + ","@ + json_quoted(names.last())
    }
}

/// The JSON text `serde_json::to_string` gives for a list of strings: the
/// string literals, separated by commas, between square brackets.
pub open spec fn json_string_list(names: Seq<Seq<char>>) -> Seq<char> {
    "["@ + json_quoted_items(names) + "]"@
}

/// `serde_json::to_string` on a list of strings: the JSON array of the
/// strings, a function of the strings alone. The call writes into a
/// `Vec<u8>`, whose writes do not fail, and strings and sequences report no
/// error of their own, so the result is always `Some`.
#[verifier::external_body]
fn to_json_list(names: &[String]) -> (r: Option<String>)
    ensures
        r is Some,
        r matches Some(t) ==> t@ == json_string_list(string_views(names@)),
{
    serde_json::to_string(names).ok()
}

/// The instruction given to the agent for `user_text`, with the JSON lists
/// of the known team and project names.
pub open spec fn extraction_prompt_text(user_text: Seq<char>, teams: Seq<char>, projects: Seq<char>) -> Seq<
    char,
> {
    "Extract a Linear issue from the following free-form text. Return ONLY a JSON object (no markdown fences, no explanation) with these fields: title (concise issue title), description (markdown description), team (team name from the list if mentioned, or null), project (project name from the list if mentioned, or null), priority (one of: urgent, high, medium, low, or null if not mentioned).\n\nAvailable teams: "@
        + teams + "\nAvailable projects: "@ + projects + "\n\nUser input: "@ + user_text
}

/// The prompt that asks the agent to extract an issue from `user_text`.
pub fn extraction_prompt(user_text: &str, team_names: &[String], project_names: &[String]) -> (r:
    String)
    ensures
        r@ == extraction_prompt_text(
            user_text@,
            json_string_list(string_views(team_names@)),
            json_string_list(string_views(project_names@)),
        ),
{
    let teams = to_json_list(team_names).unwrap();
    let projects = to_json_list(project_names).unwrap();
    let mut s = owned(
        "Extract a Linear issue from the following free-form text. Return ONLY a JSON object (no markdown fences, no explanation) with these fields: title (concise issue title), description (markdown description), team (team name from the list if mentioned, or null), project (project name from the list if mentioned, or null), priority (one of: urgent, high, medium, low, or null if not mentioned).\n\nAvailable teams: ",
    );
    s.push_str(teams.as_str());
    s.push_str("\nAvailable projects: ");
    s.push_str(projects.as_str());
    s.push_str("\n\nUser input: ");
    s.push_str(user_text);
    s
}

/// The answer text with a surrounding Markdown code fence removed: the
/// trimmed text, less a leading "```json" (or else "```"), must then end
/// with "```", which goes too, and what is left is trimmed; when there is
/// no such fence the trimmed text is kept.
pub open spec fn without_code_fence(text: Seq<char>) -> Seq<char> {
    let t = trim(text);
    let inner = if has_prefix(t, "```json"@) {
        Some(t.skip(7))
    } else if has_prefix(t, "```"@) {
        Some(t.skip(3))
    } else {
        None
    };
    match inner {
        Some(s) => if has_suffix(s, "```"@) {
            trim(s.take(s.len() - 3))
        } else {
            t
        },
        None => t,
    }
}

/// Removes a Markdown code fence around the agent's JSON answer.
pub fn strip_code_fence(text: &str) -> (r: String)
    ensures
        r@ == without_code_fence(text@),
{
    let all = chars_of(text);
    let t = trim_chars(all.as_slice());
    let fence_json = chars_of("```json");
    let fence = chars_of("```");
    proof {
        reveal_strlit("```json");
        reveal_strlit("```");
    }
    let inner = if starts_with_chars(t.as_slice(), fence_json.as_slice()) {
        Some(skip_chars(t.as_slice(), 7))
    } else if starts_with_chars(t.as_slice(), fence.as_slice()) {
        Some(skip_chars(t.as_slice(), 3))
    } else {
        None
    };
    match inner {
        Some(s) => {
            if ends_with_chars(s.as_slice(), fence.as_slice()) {
                let body = take_chars(s.as_slice(), s.len() - 3);
                let b = trim_chars(body.as_slice());
                string_of(b.as_slice())
            } else {
                string_of(t.as_slice())
            }
        },
        None => string_of(t.as_slice()),
    }
}


// ---------------------------------------------------------------------------
// The agent's answer
// ---------------------------------------------------------------------------

/// A JSON document as the library reads it: an object with its members in
/// order (each with its text when the member is a JSON string, else
/// `None`), or any other JSON value.
#[derive(Debug)]
pub enum JsonDoc {
    Object(Vec<(String, Option<String>)>),
    Other,
}

/// The content of a JSON document.
pub enum JsonDocView {
    Object(Seq<(Seq<char>, Option<Seq<char>>)>),
    Other,
}

/// The content of an object member.
pub open spec fn member_view(m: (String, Option<String>)) -> (Seq<char>, Option<Seq<char>>) {
    (m.0@, opt_view(m.1))
}

impl View for JsonDoc {
    type V = JsonDocView;

    open spec fn view(&self) -> JsonDocView {
        match self {
            JsonDoc::Object(ms) => JsonDocView::Object(ms@.map_values(|m: (String, Option<String>)| member_view(m))),
            JsonDoc::Other => JsonDocView::Other,
        }
    }
}

/// What `serde_json::from_str` reads from a text as a JSON value, seen as a
/// `JsonDocView`; `None` when the text is not JSON. A function of the text
/// alone.
pub uninterp spec fn json_doc_of(text: Seq<char>) -> Option<JsonDocView>;

/// `serde_json::from_str::<serde_json::Value>`: the text parsed as JSON, as
/// a `JsonDoc` (`None` when it does not parse).
#[verifier::external_body]
fn parse_json(text: &str) -> (r: Option<JsonDoc>)
    ensures
        r is Some == json_doc_of(text@) is Some,
        r matches Some(d) ==> json_doc_of(text@) == Some(d@),
{
    match serde_json::from_str::<serde_json::Value>(text) {
        Ok(serde_json::Value::Object(m)) => Some(JsonDoc::Object(
            m.into_iter().map(|(k, v)| (k, v.as_str().map(String::from))).collect(),
        )),
        Ok(_) => Some(JsonDoc::Other),
        Err(_) => None,
    }
}

/// The first member named `key` is at `i`.
pub open spec fn first_member_at(ms: Seq<(Seq<char>, Option<Seq<char>>)>, key: Seq<char>, i: int) -> bool {
    &&& 0 <= i < ms.len()
    &&& ms[i].0 == key
    &&& forall|j: int| 0 <= j < i ==> #[trigger] ms[j].0 != key
}

/// The text of the member `key` of a document: the first member of that
/// name when it is a string; `None` when there is none, when it is not a
/// string, or when the document is not an object.
pub open spec fn member_text(d: JsonDocView, key: Seq<char>) -> Option<Seq<char>> {
    match d {
        JsonDocView::Object(ms) => if exists|i: int| #[trigger] first_member_at(ms, key, i) {
            ms[choose|i: int| #[trigger] first_member_at(ms, key, i)].1
        } else {
            None
        },
        JsonDocView::Other => None,
    }
}

/// The text of the member `key` of `d`.
fn member_text_of(d: &JsonDoc, key: &str) -> (r: Option<String>)
    ensures
        opt_view(r) == member_text(d@, key@),
{
    match d {
        JsonDoc::Object(ms) => {
            let ghost mv = ms@.map_values(|m: (String, Option<String>)| member_view(m));
            assert(*d == JsonDoc::Object(*ms));
            assert(d@ == JsonDocView::Object(mv));
            let mut i: usize = 0;
            while i < ms.len()
                invariant
                    i <= ms@.len(),
                    mv == ms@.map_values(|m: (String, Option<String>)| member_view(m)),
                    d@ == JsonDocView::Object(mv),
                    forall|j: int| 0 <= j < i ==> #[trigger] mv[j].0 != key@,
                decreases ms@.len() - i,
            {
                if str_eq(ms[i].0.as_str(), key) {
                    proof {
                        assert(first_member_at(mv, key@, i as int));
                        let c = choose|c: int| #[trigger] first_member_at(mv, key@, c);
                        if c < i {
                            assert(mv[c].0 != key@);
                        }
                        if c > i {
                            assert(mv[i as int].0 != key@);
                        }
                        assert(c == i);
                        assert(mv[i as int] == member_view(ms@[i as int]));
                        assert(member_text(d@, key@) == mv[i as int].1);
                    }
                    let res = match &ms[i].1 {
                        Some(t) => Some(t.clone()),
                        None => None,
                    };
                    assert(opt_view(res) == mv[i as int].1);
                    return res;
                }
                i = i + 1;
            }
            proof {
                assert forall|c: int| !#[trigger] first_member_at(mv, key@, c) by {
                    if first_member_at(mv, key@, c) {
                        assert(mv[c].0 != key@);
                    }
                }
            }
            None
        },
        JsonDoc::Other => None,
    }
}

/// The answer text a line of the agent's streamed output carries: for a
/// JSON object whose `type` is the string `result`, its string member
/// `result`.
pub open spec fn line_result(line: Seq<char>) -> Option<Seq<char>> {
    match json_doc_of(line) {
        Some(d) => if member_text(d, "type"@) == Some("result"@) {
            member_text(d, "result"@)
        } else {
            None
        },
        None => None,
    }
}

/// The answer of the last line that carries one.
pub open spec fn last_result(ls: Seq<Seq<char>>) -> Option<Seq<char>>
    decreases ls.len(),
{
    if ls.len() == 0 {
        None
    } else {
        match line_result(ls.last()) {
            Some(t) => Some(t),
            None => last_result(ls.drop_last()),
        }
    }
}

/// Why no issue draft could be read from the agent's output.
#[derive(Debug, Clone, Copy, PartialEq, Eq, Structural)]
pub enum ExtractError {
    /// No output line carries a result.
    NoResult,
    /// The result, less any code fence, is not JSON.
    InvalidAnswer,
}

/// The content of an issue draft.
pub struct ExtractedIssueView {
    pub title: Seq<char>,
    pub description: Seq<char>,
    pub team_name: Option<Seq<char>>,
    pub project_name: Option<Seq<char>>,
    pub priority: Option<Seq<char>>,
}

impl View for ExtractedIssue {
    type V = ExtractedIssueView;

    open spec fn view(&self) -> ExtractedIssueView {
        ExtractedIssueView {
            title: self.title@,
            description: self.description@,
            team_name: opt_view(self.team_name),
            project_name: opt_view(self.project_name),
            priority: opt_view(self.priority),
        }
    }
}

/// The draft a parsed answer gives: its string members `title` and
/// `description` (empty when missing) and `team`, `project` and `priority`.
pub open spec fn draft_of(d: JsonDocView) -> ExtractedIssueView {
    ExtractedIssueView {
        title: match member_text(d, "title"@) {
            Some(t) => t,
            None => Seq::empty(),
        },
        description: match member_text(d, "description"@) {
            Some(t) => t,
            None => Seq::empty(),
        },
        team_name: member_text(d, "team"@),
        project_name: member_text(d, "project"@),
        priority: member_text(d, "priority"@),
    }
}

/// The draft read from the lines of the agent's output: the last result,
/// less any code fence, parsed as JSON.
pub open spec fn extracted_from_output(ls: Seq<Seq<char>>) -> Result<ExtractedIssueView, ExtractError> {
    match last_result(ls) {
        None => Err(ExtractError::NoResult),
        Some(t) => match json_doc_of(without_code_fence(t)) {
            None => Err(ExtractError::InvalidAnswer),
            Some(d) => Ok(draft_of(d)),
        },
    }
}

/// The answer a line carries, if any.
fn result_of_line(line: &str) -> (r: Option<String>)
    ensures
        opt_view(r) == line_result(line@),
{
    match parse_json(line) {
        None => None,
        Some(d) => {
            let ty = member_text_of(&d, "type");
            let is_result = match &ty {
                Some(t) => str_eq(t.as_str(), "result"),
                None => false,
            };
            if is_result {
                member_text_of(&d, "result")
            } else {
                None
            }
        },
    }
}

/// The answer of the last line of `ls` that carries one.
fn last_result_of(ls: &Vec<Vec<char>>) -> (r: Option<String>)
    ensures
        opt_view(r) == last_result(ls@.map_values(|l: Vec<char>| l@)),
{
    let ghost all = ls@.map_values(|l: Vec<char>| l@);
    assert(all.take(ls@.len() as int) =~= all);
    let mut i: usize = ls.len();
    while i > 0
        invariant
            i <= ls@.len(),
            all == ls@.map_values(|l: Vec<char>| l@),
            last_result(all) == last_result(all.take(i as int)),
        decreases i,
    {
        let line = string_of(ls[i - 1].as_slice());
        let found = result_of_line(line.as_str());
        proof {
            assert(all.take(i as int).last() == all[i - 1]);
            assert(all.take(i as int).drop_last() =~= all.take(i - 1));
        }
        if found.is_some() {
            return found;
        }
        i = i - 1;
    }
    proof {
        assert(all.take(0) =~= Seq::<Seq<char>>::empty());
    }
    None
}

/// The issue draft in the agent's streamed output `stdout`: the last line
/// that is a JSON object of `type` `result` carries the answer, which, less
/// any code fence, must be a JSON document; its string members give the
/// draft.
pub fn issue_from_agent_output(stdout: &str) -> (r: Result<ExtractedIssue, ExtractError>)
    ensures
        match r {
            Ok(i) => extracted_from_output(lines(stdout@)) == Ok::<ExtractedIssueView, ExtractError>(i@),
            Err(e) => extracted_from_output(lines(stdout@)) == Err::<ExtractedIssueView, ExtractError>(e),
        },
{
    let chars = chars_of(stdout);
    let ls = lines_of(chars.as_slice());
    proof {
        assert(ls@.map_values(|l: Vec<char>| l@) =~= lines(stdout@));
    }
    let text = match last_result_of(&ls) {
        Some(t) => t,
        None => return Err(ExtractError::NoResult),
    };
    let answer = strip_code_fence(text.as_str());
    let d = match parse_json(answer.as_str()) {
        Some(d) => d,
        None => return Err(ExtractError::InvalidAnswer),
    };
    let title = match member_text_of(&d, "title") {
        Some(t) => t,
        None => String::new(),
    };
    let description = match member_text_of(&d, "description") {
        Some(t) => t,
        None => String::new(),
    };
    let team_name = member_text_of(&d, "team");
    let project_name = member_text_of(&d, "project");
    let priority = member_text_of(&d, "priority");
    let issue = ExtractedIssue { title, description, team_name, project_name, priority };
    assert(issue@ == draft_of(d@));
    Ok(issue)
}

} // verus!
