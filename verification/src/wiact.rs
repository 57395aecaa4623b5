//! Work-item and pull-request actions: which provider call each makes (or why none is
//! sent), what a success says, and how the rows on screen take the change without waiting
//! for a reload.
use vstd::prelude::*;

use crate::lists::{vote_message, vote_message_spec, ReviewVote, User, WiRow, WorkItem};
use crate::sections::ItemRef;
use crate::text::{push_str, str_eq};
use crate::views::{trimmed, view_name};

verus! {

/// An action on a work item, as the app hands it over.
pub enum WiAction {
    /// Move it to a state.
    SetState(String),
    /// Post a comment.
    Comment(String),
    /// Assign it (`None`: unassign); `label` is the assignee's display name.
    Assign { id: Option<String>, label: String },
    /// Retitle it.
    SetTitle(String),
    /// Replace its description.
    SetDescription(String),
}

/// The provider call an action makes.
pub enum WiCall {
    SetState(String),
    Comment(String),
    Assign(Option<String>),
    /// Update the title and/or the description; a field left `None` stays.
    UpdateFields { title: Option<String>, description: Option<String> },
}

pub open spec fn lit_empty_comment() -> Seq<char> {
    "Empty comment \u{2014} nothing sent"@
}

pub open spec fn lit_empty_title() -> Seq<char> {
    "A title can't be empty \u{2014} nothing sent"@
}

/// The call `a` makes, or the status line that says why nothing is sent: a blank comment,
/// or a title that is blank once trimmed (a title is sent trimmed).
pub fn wi_action_call(a: &WiAction) -> (r: Result<WiCall, String>)
    ensures
        match *a {
            WiAction::SetState(s) => r matches Ok(WiCall::SetState(x)) && x == s,
            WiAction::Comment(t) => if trimmed(t@).len() == 0 {
                r matches Err(m) && m@ == lit_empty_comment()
            } else {
                r matches Ok(WiCall::Comment(x)) && x == t
            },
            WiAction::Assign { id, label } => r matches Ok(WiCall::Assign(x)) && x == id,
            WiAction::SetTitle(t) => if trimmed(t@).len() == 0 {
                r matches Err(m) && m@ == lit_empty_title()
            } else {
                r matches Ok(WiCall::UpdateFields { title: Some(x), description: None }) && x@ == trimmed(t@)
            },
            WiAction::SetDescription(t) => r matches Ok(WiCall::UpdateFields { title: None, description: Some(x) })
                && x == t,
        },
{
    match a {
        WiAction::SetState(s) => Ok(WiCall::SetState(s.clone())),
        WiAction::Comment(t) => match view_name(t.as_str()) {
            None => Err("Empty comment \u{2014} nothing sent".to_owned()),
            Some(_) => Ok(WiCall::Comment(t.clone())),
        },
        WiAction::Assign { id, label: _ } => Ok(
            WiCall::Assign(
                match id {
                    Some(i) => Some(i.clone()),
                    None => None,
                },
            ),
        ),
        WiAction::SetTitle(t) => match view_name(t.as_str()) {
            None => Err("A title can't be empty \u{2014} nothing sent".to_owned()),
            Some(x) => Ok(WiCall::UpdateFields { title: Some(x), description: None }),
        },
        WiAction::SetDescription(t) => Ok(WiCall::UpdateFields { title: None, description: Some(t.clone()) }),
    }
}

/// What a successful action says.
pub open spec fn wi_done_text(a: WiAction) -> Seq<char> {
    match a {
        WiAction::SetState(s) => "State \u{2192} "@ + s@,
        WiAction::Comment(_) => "Comment added"@,
        WiAction::Assign { id, label } => match id {
            Some(_) => "Assigned to "@ + label@,
            None => "Unassigned"@,
        },
        WiAction::SetTitle(_) => "Title updated"@,
        WiAction::SetDescription(_) => "Description updated"@,
    }
}

/// What a successful action says in the status line.
pub fn wi_action_done(a: &WiAction) -> (r: String)
    ensures
        r@ == wi_done_text(*a),
{
    let mut out = String::new();
    match a {
        WiAction::SetState(s) => {
            push_str(&mut out, "State \u{2192} ");
            push_str(&mut out, s.as_str());
        },
        WiAction::Comment(_) => push_str(&mut out, "Comment added"),
        WiAction::Assign { id, label } => match id {
            Some(_) => {
                push_str(&mut out, "Assigned to ");
                push_str(&mut out, label.as_str());
            },
            None => push_str(&mut out, "Unassigned"),
        },
        WiAction::SetTitle(_) => push_str(&mut out, "Title updated"),
        WiAction::SetDescription(_) => push_str(&mut out, "Description updated"),
    }
    out
}

/// `n` is `o` with the change a successful `a` made: the new state, assignee (by id, named
/// by the label), trimmed title or description; a comment changes nothing.
pub open spec fn edited(o: WorkItem, n: WorkItem, a: WiAction) -> bool {
    match a {
        WiAction::SetState(s) => n == (WorkItem { state: s, ..o }),
        WiAction::Comment(_) => n == o,
        WiAction::Assign { id, label } => n == (WorkItem {
            assignee: match id {
                Some(i) => Some(User { id: i, display_name: label, handle: None }),
                None => None,
            },
            ..o
        }),
        WiAction::SetTitle(t) => n.title@ == trimmed(t@) && n == (WorkItem { title: n.title, ..o }),
        WiAction::SetDescription(t) => n == (WorkItem { description: Some(t), ..o }),
    }
}

/// Applies the change of a successful `a` to one work item.
pub fn apply_edit(wi: &mut WorkItem, a: &WiAction)
    ensures
        edited(*old(wi), *final(wi), *a),
{
    match a {
        WiAction::SetState(s) => {
            wi.state = s.clone();
        },
        WiAction::Comment(_) => {},
        WiAction::Assign { id, label } => {
            let who = match id {
                Some(i) => Some(User { id: i.clone(), display_name: label.clone(), handle: None }),
                None => None,
            };
            wi.assignee = who;
        },
        WiAction::SetTitle(t) => {
            let title = match view_name(t.as_str()) {
                Some(x) => x,
                None => {
                    assert(trimmed(t@) =~= Seq::<char>::empty());
                    String::new()
                },
            };
            wi.title = title;
        },
        WiAction::SetDescription(t) => {
            wi.description = Some(t.clone());
        },
    }
}

/// Whether row `r` is item `item` of connection `conn`: the same id in the same repository
/// (on a connection spanning several repositories, an id alone names more than one item).
pub open spec fn is_item(r: WiRow, conn: Seq<char>, item: ItemRef) -> bool {
    &&& r.connection_id@ == conn
    &&& r.wi.id@ == item.id@
    &&& match (r.wi.repository, item.repo) {
        (Some(a), Some(b)) => a@ == b@,
        (None, None) => true,
        _ => false,
    }
}

fn same_repo(a: &Option<String>, b: &Option<String>) -> (r: bool)
    ensures
        r == match (*a, *b) {
            (Some(x), Some(y)) => x@ == y@,
            (None, None) => true,
            _ => false,
        },
{
    match (a, b) {
        (Some(x), Some(y)) => str_eq(x.as_str(), y.as_str()),
        (None, None) => true,
        _ => false,
    }
}

/// The rows of item `item` on connection `conn` take the change of a successful `a`; every
/// other row stays as it was.
pub fn patch_wi_rows(rows: &mut Vec<WiRow>, conn: &str, item: &ItemRef, a: &WiAction)
    ensures
        final(rows)@.len() == old(rows)@.len(),
        forall|i: int|
            0 <= i < old(rows)@.len() ==> if is_item(old(rows)@[i], conn@, *item) {
                edited(old(rows)@[i].wi, (#[trigger] final(rows)@[i]).wi, *a) && final(rows)@[i] == (WiRow {
                    wi: final(rows)@[i].wi,
                    ..old(rows)@[i]
                })
            } else {
                final(rows)@[i] == old(rows)@[i]
            },
{
    let mut i: usize = 0;
    while i < rows.len()
        invariant
            i <= rows@.len(),
            rows@.len() == old(rows)@.len(),
            forall|j: int|
                0 <= j < i ==> if is_item(old(rows)@[j], conn@, *item) {
                    edited(old(rows)@[j].wi, (#[trigger] rows@[j]).wi, *a) && rows@[j] == (WiRow {
                        wi: rows@[j].wi,
                        ..old(rows)@[j]
                    })
                } else {
                    rows@[j] == old(rows)@[j]
                },
            forall|j: int| i <= j < rows@.len() ==> #[trigger] rows@[j] == old(rows)@[j],
        decreases rows@.len() - i,
    {
        if str_eq(rows[i].connection_id.as_str(), conn) && str_eq(rows[i].wi.id.as_str(), item.id.as_str())
            && same_repo(&rows[i].wi.repository, &item.repo) {
            apply_edit(&mut rows[i].wi, a);
        }
        i += 1;
    }
}

/// An action on a pull request, as the app hands it over.
pub enum PrAction {
    Vote(ReviewVote),
    /// Merge it with the strategy the user chose, by its name (`Merge`, `Squash`, …).
    Merge(String),
    /// Ask the provider to revert it.
    Revert,
    /// Post a comment.
    Comment(String),
    /// Reply to the thread the view has targeted.
    Reply(String),
}

/// The provider call a pull-request action makes.
pub enum PrCall {
    Vote(ReviewVote),
    /// Merge with the chosen strategy, by its name.
    Merge(String),
    Revert,
    Comment(String),
    Reply { thread: String, text: String },
}

pub open spec fn lit_empty_reply() -> Seq<char> {
    "Empty reply \u{2014} nothing sent"@
}

pub open spec fn lit_no_thread() -> Seq<char> {
    "No thread selected to reply to"@
}

/// The call `a` makes, or why nothing is sent: a blank comment or reply, or a reply with no
/// thread targeted.
pub fn pr_action_call(a: &PrAction, reply_target: &Option<String>) -> (r: Result<PrCall, String>)
    ensures
        match *a {
            PrAction::Vote(v) => r matches Ok(PrCall::Vote(x)) && x == v,
            PrAction::Merge(m) => r matches Ok(PrCall::Merge(x)) && x == m,
            PrAction::Revert => r matches Ok(PrCall::Revert),
            PrAction::Comment(t) => if trimmed(t@).len() == 0 {
                r matches Err(m) && m@ == lit_empty_comment()
            } else {
                r matches Ok(PrCall::Comment(x)) && x == t
            },
            PrAction::Reply(t) => if trimmed(t@).len() == 0 {
                r matches Err(m) && m@ == lit_empty_reply()
            } else {
                match *reply_target {
                    Some(th) => r matches Ok(PrCall::Reply { thread, text }) && thread == th && text == t,
                    None => r matches Err(m) && m@ == lit_no_thread(),
                }
            },
        },
{
    match a {
        PrAction::Vote(v) => Ok(PrCall::Vote(*v)),
        PrAction::Merge(m) => Ok(PrCall::Merge(m.clone())),
        PrAction::Revert => Ok(PrCall::Revert),
        PrAction::Comment(t) => match view_name(t.as_str()) {
            None => Err("Empty comment \u{2014} nothing sent".to_owned()),
            Some(_) => Ok(PrCall::Comment(t.clone())),
        },
        PrAction::Reply(t) => match view_name(t.as_str()) {
            None => Err("Empty reply \u{2014} nothing sent".to_owned()),
            Some(_) => match reply_target {
                Some(th) => Ok(PrCall::Reply { thread: th.clone(), text: t.clone() }),
                None => Err("No thread selected to reply to".to_owned()),
            },
        },
    }
}

/// What a successful pull-request action says.
pub open spec fn pr_done_text(a: PrAction) -> Seq<char> {
    match a {
        PrAction::Vote(v) => vote_message_spec(v),
        PrAction::Merge(s) => "Merged ("@ + s@ + ")"@,
        PrAction::Revert => "Revert requested"@,
        PrAction::Comment(_) => "Comment added"@,
        PrAction::Reply(_) => "Reply posted"@,
    }
}

/// What a successful pull-request action says, and whether it takes the pull request off
/// the Command Center (a vote or a merge: it no longer needs the user there).
pub fn pr_action_done(a: &PrAction) -> (r: (String, bool))
    ensures
        r.0@ == pr_done_text(*a),
        r.1 == (a is Vote || a is Merge),
{
    let mut out = String::new();
    match a {
        PrAction::Vote(v) => push_str(&mut out, vote_message(*v)),
        PrAction::Merge(s) => {
            push_str(&mut out, "Merged (");
            push_str(&mut out, s.as_str());
            push_str(&mut out, ")");
        },
        PrAction::Revert => push_str(&mut out, "Revert requested"),
        PrAction::Comment(_) => push_str(&mut out, "Comment added"),
        PrAction::Reply(_) => push_str(&mut out, "Reply posted"),
    }
    let leaves = match a {
        PrAction::Vote(_) | PrAction::Merge(_) => true,
        _ => false,
    };
    (out, leaves)
}

} // verus!
