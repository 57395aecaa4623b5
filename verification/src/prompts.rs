//! The confirmations and status lines of the pipeline and review actions: what is asked
//! before a run is triggered, cancelled or a gate answered, and what a pending review says.
use vstd::prelude::*;

use crate::detail::{verb_text, ApprovalChoice, ApprovalDecision};
use crate::pipeline::{clone_opt_string, is_active, is_active_spec, PipelineView};
use crate::pipes::{pipe_label, pipe_label_spec, run_label, run_label_spec, PipeRow};
use crate::text::{dec_nat, push_str, push_u64};

verus! {

/// What a pipeline trigger is aimed at.
pub struct TriggerTarget {
    pub connection_id: String,
    pub repo: Option<String>,
    pub definition_id: String,
    pub branch: Option<String>,
    /// How the confirmation names the pipeline.
    pub label: String,
}

impl TriggerTarget {
    /// The run open in the drill-in: its definition, on the view's branch, named by the
    /// view's title.
    pub fn of_view(v: &PipelineView) -> (t: TriggerTarget)
        ensures
            t.connection_id@ == v.connection_id@,
            t.repo == v.run.repository,
            t.definition_id@ == v.definition_id@,
            t.branch == v.branch,
            t.label@ == v.title@,
    {
        TriggerTarget {
            connection_id: v.connection_id.clone(),
            repo: clone_opt_string(&v.run.repository),
            definition_id: v.definition_id.clone(),
            branch: clone_opt_string(&v.branch),
            label: v.title.clone(),
        }
    }

    /// A run row of the list: its definition on its branch, named as the list names it.
    pub fn of_row(p: &PipeRow) -> (t: TriggerTarget)
        ensures
            t.connection_id@ == p.connection_id@,
            t.repo == p.run.repository,
            t.definition_id@ == p.run.definition_id@,
            t.branch == p.run.branch,
            t.label@ == pipe_label_spec(*p),
    {
        TriggerTarget {
            connection_id: p.connection_id.clone(),
            repo: clone_opt_string(&p.run.repository),
            definition_id: p.run.definition_id.clone(),
            branch: clone_opt_string(&p.run.branch),
            label: pipe_label(p),
        }
    }
}

pub open spec fn trigger_message_text(label: Seq<char>, branch: Option<Seq<char>>) -> Seq<char> {
    "Trigger "@ + label + match branch {
        Some(b) => " on "@ + b,
        None => Seq::empty(),
    } + "?"@
}

/// The trigger confirmation: "Trigger CI #4 on main?", or without a branch "Trigger CI #4?".
pub fn trigger_message(t: &TriggerTarget) -> (r: String)
    ensures
        r@ == trigger_message_text(
            t.label@,
            match t.branch {
                Some(b) => Some(b@),
                None => None,
            },
        ),
{
    let mut out = String::new();
    push_str(&mut out, "Trigger ");
    push_str(&mut out, t.label.as_str());
    match &t.branch {
        Some(b) => {
            push_str(&mut out, " on ");
            push_str(&mut out, b.as_str());
        },
        None => {},
    }
    push_str(&mut out, "?");
    proof {
        reveal_strlit("");
    }
    assert(out@ =~= trigger_message_text(
        t.label@,
        match t.branch {
            Some(b) => Some(b@),
            None => None,
        },
    ));
    out
}

pub open spec fn lit_not_cancellable() -> Seq<char> {
    "Only a queued or running run can be cancelled"@
}

pub open spec fn cancel_message_text(label: Seq<char>) -> Seq<char> {
    "Cancel "@ + label + "? Its running jobs stop."@
}

impl PipelineView {
    /// `X` on the drill-in: the cancel confirmation for a queued or running run (`Ok`), or
    /// why a finished one can't be cancelled (`Err`).
    pub fn cancel_prompt(&self) -> (r: Result<String, String>)
        ensures
            is_active_spec(self.run.status) ==> (r matches Ok(m) && m@ == cancel_message_text(
                run_label_spec(self.run),
            )),
            !is_active_spec(self.run.status) ==> (r matches Err(t) && t@ == lit_not_cancellable()),
    {
        if !is_active(self.run.status) {
            return Err("Only a queued or running run can be cancelled".to_owned());
        }
        let label = run_label(&self.run);
        let mut out = String::new();
        push_str(&mut out, "Cancel ");
        push_str(&mut out, label.as_str());
        push_str(&mut out, "? Its running jobs stop.");
        Ok(out)
    }
}

pub open spec fn approval_confirm_text(decision: ApprovalDecision, label: Seq<char>) -> Seq<char> {
    verb_text(decision) + " deployment to "@ + label + "?"@
}

impl ApprovalChoice {
    /// The confirmation before a gate is answered: "Approve deployment to prod?".
    pub fn confirm_message(&self) -> (r: String)
        ensures
            r@ == approval_confirm_text(self.decision, self.label@),
    {
        let mut out = String::new();
        match self.decision {
            ApprovalDecision::Approve => push_str(&mut out, "Approve"),
            ApprovalDecision::Reject => push_str(&mut out, "Reject"),
        }
        push_str(&mut out, " deployment to ");
        push_str(&mut out, self.label.as_str());
        push_str(&mut out, "?");
        out
    }
}

pub open spec fn pending_exit_text(n: nat) -> Seq<char> {
    dec_nat(n) + " unsubmitted "@ + if n == 1 {
        "comment"@
    } else {
        "comments"@
    }
}

/// The title of the prompt that Esc raises over `n` unsubmitted line comments.
pub fn pending_exit_title(n: usize) -> (r: String)
    ensures
        r@ == pending_exit_text(n as nat),
{
    let mut out = String::new();
    push_u64(&mut out, n as u64);
    push_str(&mut out, " unsubmitted ");
    if n == 1 {
        push_str(&mut out, "comment");
    } else {
        push_str(&mut out, "comments");
    }
    out
}

pub open spec fn submitted_text(n: nat) -> Seq<char> {
    "Review submitted ("@ + dec_nat(n) + " comment(s))"@
}

/// What a submitted review of `n` line comments says.
pub fn review_submitted_toast(n: usize) -> (r: String)
    ensures
        r@ == submitted_text(n as nat),
{
    let mut out = String::new();
    push_str(&mut out, "Review submitted (");
    push_u64(&mut out, n as u64);
    push_str(&mut out, " comment(s))");
    out
}

pub open spec fn cancel_requested_text(label: Seq<char>) -> Seq<char> {
    "Cancel requested for "@ + label
}

/// What a cancel the provider accepted says.
pub fn cancel_requested_toast(label: &str) -> (r: String)
    ensures
        r@ == cancel_requested_text(label@),
{
    let mut out = String::new();
    push_str(&mut out, "Cancel requested for ");
    push_str(&mut out, label);
    out
}

} // verus!
