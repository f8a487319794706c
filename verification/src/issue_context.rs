//! The prompt that seeds a new agent thread with an issue: metadata in
//! XML-style tags, preceded by the parent task when there is one.

use crate::api::types::{Issue, IssueLabels, IssueParent, IssueState};
use vstd::prelude::*;

verus! {

/// The characters of an optional string.
pub open spec fn opt_view(s: Option<String>) -> Option<Seq<char>> {
    match s {
        Some(x) => Some(x@),
        None => None,
    }
}

/// `prefix`, the value and a newline when the value is present; nothing
/// otherwise.
pub open spec fn line_if(prefix: Seq<char>, v: Option<Seq<char>>) -> Seq<char> {
    match v {
        Some(x) => prefix + x + "\n"@,
        None => Seq::empty(),
    }
}

/// The names joined with ", ".
pub open spec fn joined(names: Seq<Seq<char>>) -> Seq<char>
    decreases names.len(),
{
    if names.len() == 0 {
        Seq::empty()
    } else if names.len() == 1 {
        names[0]
    } else {
        joined(names.drop_last()) + ", "@ + names.last()
    }
}

/// The names of the labels.
pub open spec fn label_names(labels: IssueLabels) -> Seq<Seq<char>> {
    labels.nodes@.map_values(|l: crate::api::types::IssueLabel| l.name@)
}

/// "Labels: a, b" and a newline when there is at least one label.
pub open spec fn labels_line(labels: Option<IssueLabels>) -> Seq<char> {
    match labels {
        Some(l) => if l.nodes@.len() > 0 {
            "Labels: "@ + joined(label_names(l)) + "\n"@
        } else {
            Seq::empty()
        },
        None => Seq::empty(),
    }
}

/// The state's name.
pub open spec fn state_name(s: Option<IssueState>) -> Option<Seq<char>> {
    match s {
        Some(st) => Some(st.name@),
        None => None,
    }
}

/// A non-empty description between blank lines.
pub open spec fn description_block(d: Option<String>) -> Seq<char> {
    match d {
        Some(x) => if x@.len() > 0 {
            "\n"@ + x@ + "\n"@
        } else {
            Seq::empty()
        },
        None => Seq::empty(),
    }
}

/// The parent task section.
pub open spec fn parent_block(p: IssueParent) -> Seq<char> {
    "<parent_task>\n"@ + "# "@ + p.identifier@ + " "@ + p.title@ + "\n"@ + line_if(
        Seq::empty(),
        opt_view(p.url),
    ) + line_if("Status: "@, state_name(p.state)) + labels_line(p.labels) + description_block(
        p.description,
    ) + "</parent_task>\n\n"@
}

/// The whole context prompt for `issue`.
pub open spec fn issue_context(issue: Issue) -> Seq<char> {
    (match issue.parent {
        Some(p) => parent_block(*p),
        None => Seq::empty(),
    }) + "<task>\n"@ + "# "@ + issue.identifier@ + " "@ + issue.title@ + "\n"@ + line_if(
        Seq::empty(),
        opt_view(issue.url),
    ) + "\n"@ + "<metadata>\n"@ + line_if("Status: "@, state_name(issue.state)) + line_if(
        "Project: "@,
        match issue.project {
            Some(p) => Some(p.name@),
            None => None,
        },
    ) + labels_line(issue.labels) + line_if(
        "Assignee: "@,
        match issue.assignee {
            Some(a) => Some(a.name@),
            None => None,
        },
    ) + "</metadata>\n"@ + description_block(issue.description) + "</task>\n"@
}

fn push_line_if(ctx: &mut String, prefix: &str, v: Option<&String>)
    ensures
        final(ctx)@ == old(ctx)@ + line_if(
            prefix@,
            match v {
                Some(x) => Some(x@),
                None => None,
            },
        ),
{
    if let Some(x) = v {
        ctx.push_str(prefix);
        ctx.push_str(x.as_str());
        ctx.push_str("\n");
    }
}

fn push_labels(ctx: &mut String, labels: &Option<IssueLabels>)
    ensures
        final(ctx)@ == old(ctx)@ + labels_line(*labels),
{
    if let Some(l) = labels {
        if l.nodes.len() > 0 {
            let ghost start = ctx@;
            ctx.push_str("Labels: ");
            let ghost head = ctx@;
            let ghost names = label_names(*l);
            let mut i: usize = 0;
            while i < l.nodes.len()
                invariant
                    0 < l.nodes@.len(),
                    names == label_names(*l),
                    i <= l.nodes@.len(),
                    ctx@ == head + joined(names.take(i as int)),
                decreases l.nodes@.len() - i,
            {
                proof {
                    assert(names.take(i + 1).drop_last() =~= names.take(i as int));
                }
                if i > 0 {
                    ctx.push_str(", ");
                }
                ctx.push_str(l.nodes[i].name.as_str());
                proof {
                    if i == 0 {
                        assert(joined(names.take(1)) == names[0]);
                    }
                }
                i = i + 1;
            }
            assert(names.take(l.nodes@.len() as int) =~= names);
            ctx.push_str("\n");
        }
    }
}

fn push_description(ctx: &mut String, d: &Option<String>)
    ensures
        final(ctx)@ == old(ctx)@ + description_block(*d),
{
    if let Some(x) = d {
        if x.as_str().unicode_len() > 0 {
            ctx.push_str("\n");
            ctx.push_str(x.as_str());
            ctx.push_str("\n");
        }
    }
}

fn state_name_of(s: &Option<IssueState>) -> (r: Option<&String>)
    ensures
        match r {
            Some(x) => Some(x@),
            None => None,
        } == state_name(*s),
{
    match s {
        Some(st) => Some(&st.name),
        None => None,
    }
}

/// Builds the prompt that seeds a new thread for `issue`.
pub fn build_issue_context(issue: &Issue) -> (r: String)
    ensures
        r@ == issue_context(*issue),
{
    let mut ctx = String::new();
    proof {
        reveal_strlit("");
    }
    if let Some(parent) = &issue.parent {
        ctx.push_str("<parent_task>\n");
        ctx.push_str("# ");
        ctx.push_str(parent.identifier.as_str());
        ctx.push_str(" ");
        ctx.push_str(parent.title.as_str());
        ctx.push_str("\n");
        push_line_if(&mut ctx, "", parent.url.as_ref());
        push_line_if(&mut ctx, "Status: ", state_name_of(&parent.state));
        push_labels(&mut ctx, &parent.labels);
        push_description(&mut ctx, &parent.description);
        ctx.push_str("</parent_task>\n\n");
        proof {
            assert(ctx@ =~= parent_block(**parent));
        }
    }
    ctx.push_str("<task>\n");
    ctx.push_str("# ");
    ctx.push_str(issue.identifier.as_str());
    ctx.push_str(" ");
    ctx.push_str(issue.title.as_str());
    ctx.push_str("\n");
    push_line_if(&mut ctx, "", issue.url.as_ref());
    ctx.push_str("\n");
    ctx.push_str("<metadata>\n");
    push_line_if(&mut ctx, "Status: ", state_name_of(&issue.state));
    let project = match &issue.project {
        Some(p) => Some(&p.name),
        None => None,
    };
    push_line_if(&mut ctx, "Project: ", project);
    push_labels(&mut ctx, &issue.labels);
    let assignee = match &issue.assignee {
        Some(a) => Some(&a.name),
        None => None,
    };
    push_line_if(&mut ctx, "Assignee: ", assignee);
    ctx.push_str("</metadata>\n");
    push_description(&mut ctx, &issue.description);
    ctx.push_str("</task>\n");
    assert(ctx@ =~= issue_context(*issue));
    ctx
}

} // verus!
