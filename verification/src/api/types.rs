//! Records of the issue tracker that the library handles as plain values.

use vstd::prelude::*;

verus! {

/// The workflow state of an issue.
#[derive(Debug, Clone)]
pub struct IssueState {
    pub name: String,
}

/// The project an issue belongs to.
#[derive(Debug, Clone)]
pub struct IssueProject {
    pub name: String,
}

/// A label attached to an issue.
#[derive(Debug, Clone)]
pub struct IssueLabel {
    pub name: String,
}

/// The labels attached to an issue.
#[derive(Debug, Clone)]
pub struct IssueLabels {
    pub nodes: Vec<IssueLabel>,
}

/// A person: an issue's assignee or a project's lead.
#[derive(Debug, Clone)]
pub struct IssueUser {
    pub name: String,
}

/// The parent task of a sub-issue.
#[derive(Debug, Clone)]
pub struct IssueParent {
    pub identifier: String,
    pub title: String,
    pub description: Option<String>,
    pub url: Option<String>,
    pub state: Option<IssueState>,
    pub labels: Option<IssueLabels>,
}

/// An issue as the views and the agent prompt use it. `priority` is the
/// tracker's priority number, a whole number (0 none, 1 urgent, 2 high,
/// 3 medium, 4 low).
#[derive(Debug, Clone)]
pub struct Issue {
    pub id: String,
    pub identifier: String,
    pub title: String,
    pub url: Option<String>,
    pub state: Option<IssueState>,
    pub priority: Option<u32>,
    pub project: Option<IssueProject>,
    pub description: Option<String>,
    pub assignee: Option<IssueUser>,
    pub labels: Option<IssueLabels>,
    pub parent: Option<Box<IssueParent>>,
}

/// A project. `progress` is the IEEE-754 bit pattern of the completed
/// fraction (between 0 and 1); for such fractions the order of the bit
/// patterns is the order of the fractions.
#[derive(Debug, Clone)]
pub struct Project {
    pub id: String,
    pub name: String,
    pub state: Option<String>,
    pub progress: Option<u64>,
    pub lead: Option<IssueUser>,
    pub url: Option<String>,
}

/// An exact copy of an optional string.
pub fn copy_opt(s: &Option<String>) -> (r: Option<String>)
    ensures
        r == *s,
{
    match s {
        Some(x) => Some(x.clone()),
        None => None,
    }
}

fn copy_state(s: &Option<IssueState>) -> (r: Option<IssueState>)
    ensures
        r == *s,
{
    match s {
        Some(x) => Some(IssueState { name: x.name.clone() }),
        None => None,
    }
}

fn copy_user(s: &Option<IssueUser>) -> (r: Option<IssueUser>)
    ensures
        r == *s,
{
    match s {
        Some(x) => Some(IssueUser { name: x.name.clone() }),
        None => None,
    }
}

/// Two label lists hold the same labels. (Lists are compared by their
/// contents: two vectors with equal contents are not known to be equal
/// values.)
pub open spec fn same_labels(a: Option<IssueLabels>, b: Option<IssueLabels>) -> bool {
    match (a, b) {
        (Some(x), Some(y)) => x.nodes@ == y.nodes@,
        (None, None) => true,
        _ => false,
    }
}

/// Two parent tasks hold the same data.
pub open spec fn same_parent(a: Option<Box<IssueParent>>, b: Option<Box<IssueParent>>) -> bool {
    match (a, b) {
        (Some(x), Some(y)) => x.identifier == y.identifier && x.title == y.title && x.description
            == y.description && x.url == y.url && x.state == y.state && same_labels(
            x.labels,
            y.labels,
        ),
        (None, None) => true,
        _ => false,
    }
}

/// Two issues hold the same data.
pub open spec fn same_issue(a: Issue, b: Issue) -> bool {
    &&& a.id == b.id
    &&& a.identifier == b.identifier
    &&& a.title == b.title
    &&& a.url == b.url
    &&& a.state == b.state
    &&& a.priority == b.priority
    &&& a.project == b.project
    &&& a.description == b.description
    &&& a.assignee == b.assignee
    &&& same_labels(a.labels, b.labels)
    &&& same_parent(a.parent, b.parent)
}

/// Two lists of issues hold the same issues in the same order.
pub open spec fn same_issues(a: Seq<Issue>, b: Seq<Issue>) -> bool {
    a.len() == b.len() && forall|i: int| 0 <= i < a.len() ==> same_issue(#[trigger] a[i], b[i])
}

fn copy_labels(s: &Option<IssueLabels>) -> (r: Option<IssueLabels>)
    ensures
        same_labels(r, *s),
{
    match s {
        Some(l) => {
            let mut nodes: Vec<IssueLabel> = Vec::new();
            let mut i: usize = 0;
            while i < l.nodes.len()
                invariant
                    i <= l.nodes@.len(),
                    nodes@ == l.nodes@.take(i as int),
                decreases l.nodes@.len() - i,
            {
                nodes.push(IssueLabel { name: l.nodes[i].name.clone() });
                i = i + 1;
                assert(nodes@ =~= l.nodes@.take(i as int));
            }
            assert(nodes@ =~= l.nodes@);
            Some(IssueLabels { nodes })
        },
        None => None,
    }
}

impl Issue {
    /// A field-for-field copy.
    pub fn duplicate(&self) -> (r: Issue)
        ensures
            same_issue(r, *self),
    {
        let parent = match &self.parent {
            Some(p) => Some(
                Box::new(
                    IssueParent {
                        identifier: p.identifier.clone(),
                        title: p.title.clone(),
                        description: copy_opt(&p.description),
                        url: copy_opt(&p.url),
                        state: copy_state(&p.state),
                        labels: copy_labels(&p.labels),
                    },
                ),
            ),
            None => None,
        };
        Issue {
            id: self.id.clone(),
            identifier: self.identifier.clone(),
            title: self.title.clone(),
            url: copy_opt(&self.url),
            state: copy_state(&self.state),
            priority: self.priority,
            project: match &self.project {
                Some(p) => Some(IssueProject { name: p.name.clone() }),
                None => None,
            },
            description: copy_opt(&self.description),
            assignee: copy_user(&self.assignee),
            labels: copy_labels(&self.labels),
            parent,
        }
    }

    /// The name of the issue's workflow state, or nothing.
    pub open spec fn status_text(&self) -> Seq<char> {
        match self.state {
            Some(s) => s.name@,
            None => Seq::empty(),
        }
    }

    /// The name of the issue's workflow state, or "" when it has none.
    pub fn status_str(&self) -> (r: &str)
        ensures
            r@ == self.status_text(),
    {
        match &self.state {
            Some(s) => s.name.as_str(),
            None => {
                proof {
                    reveal_strlit("");
                }
                ""
            },
        }
    }

    /// The name of the issue's project, or nothing.
    pub open spec fn project_text(&self) -> Seq<char> {
        match self.project {
            Some(p) => p.name@,
            None => Seq::empty(),
        }
    }

    /// The name of the issue's project, or "" when it has none.
    pub fn project_str(&self) -> (r: &str)
        ensures
            r@ == self.project_text(),
    {
        match &self.project {
            Some(p) => p.name.as_str(),
            None => {
                proof {
                    reveal_strlit("");
                }
                ""
            },
        }
    }

    /// The label of the issue's priority: "No priority", "Urgent", "High",
    /// "Medium" or "Low" for 0 to 4, nothing otherwise.
    pub open spec fn priority_text(&self) -> Seq<char> {
        match self.priority {
            Some(0) => "No priority"@,
            Some(1) => "Urgent"@,
            Some(2) => "High"@,
            Some(3) => "Medium"@,
            Some(4) => "Low"@,
            _ => Seq::empty(),
        }
    }

    /// The label of the issue's priority.
    pub fn priority_str(&self) -> (r: &str)
        ensures
            r@ == self.priority_text(),
    {
        match self.priority {
            Some(0) => "No priority",
            Some(1) => "Urgent",
            Some(2) => "High",
            Some(3) => "Medium",
            Some(4) => "Low",
            _ => {
                proof {
                    reveal_strlit("");
                }
                ""
            },
        }
    }
}

impl Project {
    /// A field-for-field copy.
    pub fn duplicate(&self) -> (r: Project)
        ensures
            r == *self,
    {
        Project {
            id: self.id.clone(),
            name: self.name.clone(),
            state: copy_opt(&self.state),
            progress: self.progress,
            lead: copy_user(&self.lead),
            url: copy_opt(&self.url),
        }
    }

    /// The project's state, or nothing.
    pub open spec fn status_text(&self) -> Seq<char> {
        match self.state {
            Some(s) => s@,
            None => Seq::empty(),
        }
    }

    /// The project's state, or "" when it has none.
    pub fn status_str(&self) -> (r: &str)
        ensures
            r@ == self.status_text(),
    {
        match &self.state {
            Some(s) => s.as_str(),
            None => {
                proof {
                    reveal_strlit("");
                }
                ""
            },
        }
    }

    /// The name of the project's lead, or nothing.
    pub open spec fn lead_text(&self) -> Seq<char> {
        match self.lead {
            Some(l) => l.name@,
            None => Seq::empty(),
        }
    }

    /// The name of the project's lead, or "" when it has none.
    pub fn lead_str(&self) -> (r: &str)
        ensures
            r@ == self.lead_text(),
    {
        match &self.lead {
            Some(l) => l.name.as_str(),
            None => {
                proof {
                    reveal_strlit("");
                }
                ""
            },
        }
    }
}

/// A copy of a list of issues.
pub fn copy_issues(v: &[Issue]) -> (r: Vec<Issue>)
    ensures
        same_issues(r@, v@),
{
    let mut r: Vec<Issue> = Vec::new();
    let mut i: usize = 0;
    while i < v.len()
        invariant
            i <= v@.len(),
            r@.len() == i,
            forall|k: int| 0 <= k < i ==> same_issue(#[trigger] r@[k], v@[k]),
        decreases v@.len() - i,
    {
        r.push(v[i].duplicate());
        i = i + 1;
    }
    r
}

/// An exact copy of a list of projects.
pub fn copy_projects(v: &[Project]) -> (r: Vec<Project>)
    ensures
        r@ == v@,
{
    let mut r: Vec<Project> = Vec::new();
    let mut i: usize = 0;
    while i < v.len()
        invariant
            i <= v@.len(),
            r@ == v@.take(i as int),
        decreases v@.len() - i,
    {
        r.push(v[i].duplicate());
        i = i + 1;
        assert(r@ =~= v@.take(i as int));
    }
    assert(r@ =~= v@);
    r
}

/// An attachment link that points at a GitHub pull request.
pub open spec fn is_pull_request_link(url: Seq<char>) -> bool {
    crate::text::contains(url, "github.com"@) && crate::text::contains(url, "/pull/"@)
}

/// The first attachment link that points at a GitHub pull request.
pub fn pull_request_url(urls: &[String]) -> (r: Option<String>)
    ensures
        r matches Some(u) ==> exists|i: int|
            0 <= i < urls@.len() && urls@[i] == u && is_pull_request_link(u@) && forall|k: int|
                0 <= k < i ==> !is_pull_request_link(#[trigger] urls@[k]@),
        r is None ==> forall|k: int| 0 <= k < urls@.len() ==> !is_pull_request_link(#[trigger] urls@[k]@),
{
    let gh = crate::text::chars_of("github.com");
    let pull = crate::text::chars_of("/pull/");
    let mut i: usize = 0;
    while i < urls.len()
        invariant
            i <= urls@.len(),
            gh@ == "github.com"@,
            pull@ == "/pull/"@,
            forall|k: int| 0 <= k < i ==> !is_pull_request_link(#[trigger] urls@[k]@),
        decreases urls@.len() - i,
    {
        let u = crate::text::chars_of(urls[i].as_str());
        if crate::text::contains_chars(u.as_slice(), gh.as_slice()) && crate::text::contains_chars(
            u.as_slice(),
            pull.as_slice(),
        ) {
            return Some(urls[i].clone());
        }
        i = i + 1;
    }
    None
}

/// The projects of several teams with repeats removed: the first project of
/// each ID is kept, in order.
pub open spec fn first_of_each_id(ps: Seq<Project>) -> Seq<Project>
    decreases ps.len(),
{
    if ps.len() == 0 {
        ps
    } else {
        let rest = first_of_each_id(ps.drop_last());
        if exists|k: int| 0 <= k < ps.len() - 1 && #[trigger] ps[k].id@ == ps.last().id@ {
            rest
        } else {
            rest.push(ps.last())
        }
    }
}

/// Removes projects whose ID occurred earlier.
pub fn dedup_projects(ps: Vec<Project>) -> (r: Vec<Project>)
    ensures
        r@ == first_of_each_id(ps@),
{
    let mut out: Vec<Project> = Vec::new();
    let mut i: usize = 0;
    while i < ps.len()
        invariant
            i <= ps@.len(),
            out@ == first_of_each_id(ps@.take(i as int)),
        decreases ps@.len() - i,
    {
        let mut seen = false;
        let mut k: usize = 0;
        while k < i
            invariant
                k <= i < ps@.len(),
                seen == exists|q: int| 0 <= q < k && #[trigger] ps@[q].id@ == ps@[i as int].id@,
            decreases i - k,
        {
            if crate::text::str_eq(ps[k].id.as_str(), ps[i].id.as_str()) {
                seen = true;
            }
            k = k + 1;
        }
        proof {
            let t = ps@.take(i + 1);
            assert(t.drop_last() =~= ps@.take(i as int));
            assert(t.last() == ps@[i as int]);
            assert((exists|q: int| 0 <= q < t.len() - 1 && #[trigger] t[q].id@ == t.last().id@)
                == seen) by {
                if seen {
                    let q = choose|q: int| 0 <= q < i && #[trigger] ps@[q].id@ == ps@[i as int].id@;
                    assert(t[q] == ps@[q]);
                }
                if exists|q: int| 0 <= q < t.len() - 1 && #[trigger] t[q].id@ == t.last().id@ {
                    let q = choose|q: int| 0 <= q < t.len() - 1 && #[trigger] t[q].id@ == t.last().id@;
                    assert(t[q] == ps@[q]);
                }
            }
        }
        if !seen {
            out.push(ps[i].duplicate());
        }
        i = i + 1;
    }
    assert(ps@.take(ps@.len() as int) =~= ps@);
    out
}


/// The ID of the workflow state named `name` among `states` (each a name
/// and an ID, either possibly missing): the ID of the first state of that
/// name, `None` when there is none or it has no ID.
pub open spec fn state_id_named(states: Seq<(Option<Seq<char>>, Option<Seq<char>>)>, name: Seq<char>) -> Option<Seq<char>>
    decreases states.len(),
{
    if states.len() == 0 {
        None
    } else if states[0].0 == Some(name) {
        states[0].1
    } else {
        state_id_named(states.drop_first(), name)
    }
}

/// The content of a state's name and ID.
pub open spec fn state_pair_view(p: (Option<String>, Option<String>)) -> (Option<Seq<char>>, Option<Seq<char>>) {
    (crate::issue_context::opt_view(p.0), crate::issue_context::opt_view(p.1))
}

/// The ID of the workflow state named `name`.
pub fn state_id_for(states: &[(Option<String>, Option<String>)], name: &str) -> (r: Option<String>)
    ensures
        crate::issue_context::opt_view(r) == state_id_named(
            states@.map_values(|p: (Option<String>, Option<String>)| state_pair_view(p)),
            name@,
        ),
{
    let ghost all = states@.map_values(|p: (Option<String>, Option<String>)| state_pair_view(p));
    assert(all.skip(0) =~= all);
    let mut i: usize = 0;
    while i < states.len()
        invariant
            i <= states@.len(),
            all == states@.map_values(|p: (Option<String>, Option<String>)| state_pair_view(p)),
            state_id_named(all, name@) == state_id_named(all.skip(i as int), name@),
        decreases states@.len() - i,
    {
        proof {
            assert(all.skip(i as int).drop_first() =~= all.skip(i + 1));
            assert(all.skip(i as int)[0] == all[i as int]);
        }
        let matches = match &states[i].0 {
            Some(n) => crate::text::str_eq(n.as_str(), name),
            None => false,
        };
        if matches {
            return match &states[i].1 {
                Some(id) => Some(id.clone()),
                None => None,
            };
        }
        i = i + 1;
    }
    proof {
        assert(all.skip(states@.len() as int) =~= Seq::<(Option<Seq<char>>, Option<Seq<char>>)>::empty());
    }
    None
}

/// What follows a fetched page of a paged list, given its `hasNextPage`
/// flag (missing counts as false) and its `endCursor`: `None` when the list
/// is complete, else the cursor to fetch the next page after.
pub fn next_page(has_next: Option<bool>, end_cursor: Option<String>) -> (r: Option<Option<String>>)
    ensures
        r == (if has_next == Some(true) {
            Some(end_cursor)
        } else {
            None::<Option<String>>
        }),
{
    match has_next {
        Some(true) => Some(end_cursor),
        _ => None,
    }
}

} // verus!
