//! Patching an open pipeline drill-in with a detail fetch: only what the fetch confirmed
//! reaches the view, a view seeded from the cache counts as stale until the run itself is
//! confirmed, and a fetch that found nothing new causes no repaint.
use vstd::prelude::*;

use crate::cursor::clamp_index;
use crate::pipeline::{
    approvals_after, auto_selected, clone_opt_string, visible_refs, NodeRef, PipelineApproval,
    PipelineRun, PipelineView,
};
use crate::pipes::{clear_awaiting, is_run, pipeline_run_matches, run_statuses_match, PipeRow};
use crate::pipeline::actionable;
use crate::text::{push_str, str_eq};

verus! {

/// Two lists of gates are the same: the same gates, in the same order.
pub open spec fn same_gates(a: Seq<PipelineApproval>, b: Seq<PipelineApproval>) -> bool {
    &&& a.len() == b.len()
    &&& forall|i: int|
        0 <= i < a.len() ==> (#[trigger] a[i]).id@ == b[i].id@ && a[i].name@ == b[i].name@
            && a[i].can_respond == b[i].can_respond
}

fn gates_equal(a: &Vec<PipelineApproval>, b: &Vec<PipelineApproval>) -> (r: bool)
    ensures
        r == same_gates(a@, b@),
{
    if a.len() != b.len() {
        return false;
    }
    let mut i: usize = 0;
    while i < a.len()
        invariant
            a@.len() == b@.len(),
            i <= a@.len(),
            forall|j: int|
                0 <= j < i ==> (#[trigger] a@[j]).id@ == b@[j].id@ && a@[j].name@ == b@[j].name@
                    && a@[j].can_respond == b@[j].can_respond,
        decreases a@.len() - i,
    {
        if !(str_eq(a[i].id.as_str(), b[i].id.as_str()) && str_eq(a[i].name.as_str(), b[i].name.as_str())
            && a[i].can_respond == b[i].can_respond) {
            return false;
        }
        i += 1;
    }
    true
}

/// Whether a fetched detail would leave the view looking as it does: the run's statuses,
/// the gates the fetch confirmed (when it confirmed any), and the two approval capabilities.
pub open spec fn detail_unchanged(
    v: PipelineView,
    run: PipelineRun,
    supports: bool,
    can_respond: bool,
    confirmed: Option<Vec<PipelineApproval>>,
) -> bool {
    &&& run_statuses_match(v.run, run)
    &&& match confirmed {
        Some(fresh) => same_gates(fresh@, v.approvals@),
        None => true,
    }
    &&& v.supports_approvals == supports
    &&& v.can_respond_approvals == can_respond
}

impl PipelineView {
    /// Whether a fetched detail (`run`, the two capabilities, and the gates the fetch
    /// `confirmed`) would change nothing on screen.
    pub fn detail_unchanged(
        &self,
        run: &PipelineRun,
        supports: bool,
        can_respond: bool,
        confirmed: &Option<Vec<PipelineApproval>>,
    ) -> (r: bool)
        ensures
            r == detail_unchanged(*self, *run, supports, can_respond, *confirmed),
    {
        pipeline_run_matches(&self.run, run) && match confirmed {
            Some(fresh) => gates_equal(fresh, &self.approvals),
            None => true,
        } && self.supports_approvals == supports && self.can_respond_approvals == can_respond
    }

    /// Patches the view with a fetched detail. A confirmed run (`run_confirmed`) replaces the
    /// view's run when the view is stale or something changed, keeping the log pane, the
    /// collapsed nodes and the cursor; otherwise only the confirmed gates and the
    /// capabilities are patched in, and the run and `stale` stay as they are. `run` is the
    /// fetched run, or the cached one when the run was not confirmed.
    pub fn apply_detail(
        &mut self,
        run_confirmed: bool,
        run: PipelineRun,
        supports: bool,
        can_respond: bool,
        confirmed: Option<Vec<PipelineApproval>>,
    )
        ensures
            ({
                let o = *old(self);
                let unchanged = detail_unchanged(o, run, supports, can_respond, confirmed);
                if run_confirmed {
                    if o.stale || !unchanged {
                        auto_selected(
                            PipelineView {
                                run,
                                approvals: approvals_after(o.approvals, confirmed),
                                stale: false,
                                selected: clamp_index(o.selected as int, visible_refs(run, o.collapsed@).len() as int)
                                    as usize,
                                supports_approvals: supports,
                                can_respond_approvals: can_respond,
                                ..o
                            },
                            *final(self),
                        )
                    } else {
                        *final(self) == o
                    }
                } else if !unchanged {
                    *final(self) == (PipelineView {
                        approvals: approvals_after(o.approvals, confirmed),
                        supports_approvals: supports,
                        can_respond_approvals: can_respond,
                        ..o
                    })
                } else {
                    *final(self) == o
                }
            }),
    {
        let unchanged = self.detail_unchanged(&run, supports, can_respond, &confirmed);
        if run_confirmed {
            if self.stale || !unchanged {
                self.supports_approvals = supports;
                self.can_respond_approvals = can_respond;
                self.apply_fresh_run(run, confirmed);
            }
        } else if !unchanged {
            self.apply_confirmed_approvals(confirmed);
            self.supports_approvals = supports;
            self.can_respond_approvals = can_respond;
        }
    }
}


impl PipelineView {
    /// The link `o` opens on the drill-in: the selected row's deep link (a step inherits its
    /// job's), else the whole run's.
    pub fn selected_url(&self) -> (r: Option<String>)
        ensures
            ({
                let refs = self.visible();
                let node_url = if self.selected < refs.len() {
                    match refs[self.selected as int] {
                        NodeRef::Stage(_) => None,
                        NodeRef::Job(s, j) => self.run.stages@[s as int].jobs@[j as int].url,
                        NodeRef::Step(s, j, _) => self.run.stages@[s as int].jobs@[j as int].url,
                    }
                } else {
                    None
                };
                r == match node_url {
                    Some(u) => Some(u),
                    None => self.run.url,
                }
            }),
    {
        let nodes = self.flatten();
        if self.selected < nodes.len() {
            match &nodes[self.selected].url {
                Some(u) => {
                    return Some(u.clone());
                },
                None => {},
            }
        }
        clone_opt_string(&self.run.url)
    }
}

/// `gates` without the approval `id`, in order.
pub open spec fn gates_without(gates: Seq<PipelineApproval>, id: Seq<char>) -> Seq<PipelineApproval>
    decreases gates.len(),
{
    if gates.len() == 0 {
        gates
    } else {
        let rest = gates_without(gates.drop_last(), id);
        if gates.last().id@ == id {
            rest
        } else {
            rest.push(gates.last())
        }
    }
}

/// Whether any of `gates` still wants the user.
pub open spec fn any_respondable(gates: Seq<PipelineApproval>) -> bool {
    exists|i: int| 0 <= i < gates.len() && #[trigger] gates[i].can_respond
}

fn clone_gate(a: &PipelineApproval) -> (r: PipelineApproval)
    ensures
        r == *a,
{
    PipelineApproval { id: a.id.clone(), name: a.name.clone(), can_respond: a.can_respond }
}

impl PipelineView {
    /// A gate of run `run_id` on connection `conn_id` was decided: when this view shows that
    /// run, drops that approval and says whether any gate still wants the user (`Some`); a view
    /// of another run is left alone (`None`), knowing nothing of what is left on the run.
    pub fn drop_decided_approval(&mut self, conn_id: &str, run_id: &str, approval_id: &str) -> (r: Option<bool>)
        ensures
            (old(self).connection_id@ == conn_id@ && old(self).run.id@ == run_id@) ==> ({
                &&& final(self).approvals@ == gates_without(old(self).approvals@, approval_id@)
                &&& r == Some(any_respondable(final(self).approvals@))
            }),
            !(old(self).connection_id@ == conn_id@ && old(self).run.id@ == run_id@) ==> r.is_none()
                && *final(self) == *old(self),
            *final(self) == (PipelineView { approvals: final(self).approvals, ..*old(self) }),
    {
        if !(str_eq(self.connection_id.as_str(), conn_id) && str_eq(self.run.id.as_str(), run_id)) {
            return None;
        }
        let mut kept: Vec<PipelineApproval> = Vec::new();
        let mut any = false;
        let mut i: usize = 0;
        while i < self.approvals.len()
            invariant
                i <= self.approvals@.len(),
                self.approvals@ == old(self).approvals@,
                kept@ == gates_without(self.approvals@.take(i as int), approval_id@),
                any == any_respondable(kept@),
            decreases self.approvals@.len() - i,
        {
            let ghost before = kept@;
            assert(self.approvals@.take(i + 1).drop_last() == self.approvals@.take(i as int));
            if !str_eq(self.approvals[i].id.as_str(), approval_id) {
                let g = clone_gate(&self.approvals[i]);
                let c = g.can_respond;
                kept.push(g);
                proof {
                    if any_respondable(before) {
                        let w = choose|w: int| 0 <= w < before.len() && #[trigger] before[w].can_respond;
                        assert(kept@[w] == before[w]);
                    }
                    if c {
                        assert(kept@[before.len() as int].can_respond);
                    }
                    if any_respondable(kept@) {
                        let w = choose|w: int| 0 <= w < kept@.len() && #[trigger] kept@[w].can_respond;
                        if w < before.len() {
                            assert(kept@[w] == before[w]);
                        }
                    }
                }
                any = any || c;
            }
            i += 1;
        }
        assert(self.approvals@.take(i as int) == self.approvals@);
        self.approvals = kept;
        Some(any)
    }
}

/// An approval gate's decision.
#[derive(Debug, Clone, Copy, PartialEq, Eq, Structural)]
pub enum ApprovalDecision {
    Approve,
    Reject,
}

/// One row of the approval picker: which gate of which run, and the decision it carries.
pub struct ApprovalChoice {
    pub connection_id: String,
    pub repo: Option<String>,
    pub run_id: String,
    pub approval_id: String,
    pub decision: ApprovalDecision,
    /// The approval's name.
    pub label: String,
}

/// What `A` on the drill-in opens: a picker of decisions, or why there is none.
pub enum ApprovalPicker {
    /// Say this in the status line instead.
    Toast(String),
    /// The picker's rows and the choice behind each.
    Pick { items: Vec<String>, choices: Vec<ApprovalChoice> },
}

pub open spec fn verb_text(d: ApprovalDecision) -> Seq<char> {
    match d {
        ApprovalDecision::Approve => "Approve"@,
        ApprovalDecision::Reject => "Reject"@,
    }
}

/// The decision of picker row `k`: approve on even rows, reject on odd ones.
pub open spec fn row_decision(k: int) -> ApprovalDecision {
    if k % 2 == 0 {
        ApprovalDecision::Approve
    } else {
        ApprovalDecision::Reject
    }
}

/// Picker row `k` for the gates `gates` of run `run` on connection `conn`: gate `k / 2`,
/// decided as `row_decision(k)`.
pub open spec fn picker_row_ok(
    item: Seq<char>,
    c: ApprovalChoice,
    gates: Seq<PipelineApproval>,
    conn: Seq<char>,
    run: PipelineRun,
    k: int,
) -> bool {
    let g = gates[k / 2];
    &&& item == verb_text(row_decision(k)) + " \u{b7} "@ + g.name@
    &&& c.connection_id@ == conn
    &&& c.repo == run.repository
    &&& c.run_id@ == run.id@
    &&& c.approval_id@ == g.id@
    &&& c.decision == row_decision(k)
    &&& c.label@ == g.name@
}

pub open spec fn lit_no_approvals() -> Seq<char> {
    "Approvals aren't supported on this provider"@
}

pub open spec fn view_only_text(provider: Seq<char>) -> Seq<char> {
    "Approvals are view-only for "@ + provider + " \u{2014} approve in the browser"@
}

pub open spec fn lit_nothing_waiting() -> Seq<char> {
    "Nothing awaiting your approval on this run"@
}

fn verb(d: ApprovalDecision) -> (r: &'static str)
    ensures
        r@ == verb_text(d),
{
    match d {
        ApprovalDecision::Approve => "Approve",
        ApprovalDecision::Reject => "Reject",
    }
}

impl PipelineView {
    /// The approve/reject picker for the gates the user may act on: two rows per gate, an
    /// explicit Approve and Reject, so the choice already carries the decision. No picker
    /// where the provider has no approvals, can't submit them from here, or nothing waits.
    pub fn approval_picker(&self) -> (r: ApprovalPicker)
        ensures
            !self.supports_approvals ==> (r matches ApprovalPicker::Toast(t) && t@ == lit_no_approvals()),
            self.supports_approvals && !self.can_respond_approvals ==> (r matches ApprovalPicker::Toast(t)
                && t@ == view_only_text(self.provider@)),
            self.supports_approvals && self.can_respond_approvals && actionable(self.approvals@).len() == 0
                ==> (r matches ApprovalPicker::Toast(t) && t@ == lit_nothing_waiting()),
            self.supports_approvals && self.can_respond_approvals && actionable(self.approvals@).len() > 0
                ==> (r matches ApprovalPicker::Pick { items, choices } && {
                let gates = actionable(self.approvals@);
                &&& items@.len() == 2 * gates.len()
                &&& choices@.len() == 2 * gates.len()
                &&& forall|k: int|
                    0 <= k < items@.len() ==> picker_row_ok(
                        (#[trigger] items@[k])@,
                        choices@[k],
                        gates,
                        self.connection_id@,
                        self.run,
                        k,
                    )
            }),
    {
        if !self.supports_approvals {
            return ApprovalPicker::Toast("Approvals aren't supported on this provider".to_owned());
        }
        if !self.can_respond_approvals {
            let mut t = String::new();
            push_str(&mut t, "Approvals are view-only for ");
            push_str(&mut t, self.provider.as_str());
            push_str(&mut t, " \u{2014} approve in the browser");
            return ApprovalPicker::Toast(t);
        }
        let gates = self.actionable_approvals();
        if gates.len() == 0 {
            return ApprovalPicker::Toast("Nothing awaiting your approval on this run".to_owned());
        }
        let ghost act = actionable(self.approvals@);
        let mut items: Vec<String> = Vec::new();
        let mut choices: Vec<ApprovalChoice> = Vec::new();
        let mut i: usize = 0;
        while i < gates.len()
            invariant
                i <= gates@.len(),
                gates@.len() == act.len(),
                forall|j: int| 0 <= j < gates@.len() ==> *gates@[j] == act[j],
                items@.len() == 2 * i,
                choices@.len() == 2 * i,
                forall|k: int|
                    0 <= k < items@.len() ==> picker_row_ok(
                        (#[trigger] items@[k])@,
                        choices@[k],
                        act,
                        self.connection_id@,
                        self.run,
                        k,
                    ),
            decreases gates@.len() - i,
        {
            let g = gates[i];
            let mut d: usize = 0;
            while d < 2
                invariant
                    i < gates@.len(),
                    d <= 2,
                    *g == act[i as int],
                    items@.len() == 2 * i + d,
                    choices@.len() == 2 * i + d,
                    forall|k: int|
                        0 <= k < items@.len() ==> picker_row_ok(
                            (#[trigger] items@[k])@,
                            choices@[k],
                            act,
                            self.connection_id@,
                            self.run,
                            k,
                        ),
                decreases 2 - d,
            {
                let decision = if d == 0 {
                    ApprovalDecision::Approve
                } else {
                    ApprovalDecision::Reject
                };
                let mut item = String::new();
                push_str(&mut item, verb(decision));
                push_str(&mut item, " \u{b7} ");
                push_str(&mut item, g.name.as_str());
                let ghost k = items@.len() as int;
                assert(k / 2 == i as int && (k % 2 == 0) == (d == 0)) by {
                    assert(k == 2 * i + d);
                }
                items.push(item);
                choices.push(
                    ApprovalChoice {
                        connection_id: self.connection_id.clone(),
                        repo: clone_opt_string(&self.run.repository),
                        run_id: self.run.id.clone(),
                        approval_id: g.id.clone(),
                        decision,
                        label: g.name.clone(),
                    },
                );
                d += 1;
            }
            i += 1;
        }
        ApprovalPicker::Pick { items, choices }
    }
}

/// A gate of run `run_id` on connection `conn_id` was decided. With that run open in the
/// drill-in (`open`), the approval leaves the view, and once nothing there still wants the
/// user the run's list rows lose their badge; the Command Center is then to be rebuilt
/// (`true`). With no view of that run open nothing is known of what is left on it, and
/// nothing changes: a badge that lingers is recoverable, a missing one hides a gate.
pub fn drop_decided_approval(
    open: &mut Option<PipelineView>,
    pipes: &mut Vec<PipeRow>,
    conn_id: &str,
    run_id: &str,
    approval_id: &str,
) -> (rebuild: bool)
    ensures
        match *old(open) {
            Some(v) => if v.connection_id@ == conn_id@ && v.run.id@ == run_id@ {
                &&& rebuild
                &&& *final(open) matches Some(n) && n.approvals@ == gates_without(v.approvals@, approval_id@)
                    && n == (PipelineView { approvals: n.approvals, ..v })
                &&& if any_respondable(gates_without(v.approvals@, approval_id@)) {
                    final(pipes)@ == old(pipes)@
                } else {
                    &&& final(pipes)@.len() == old(pipes)@.len()
                    &&& forall|i: int|
                        0 <= i < old(pipes)@.len() ==> #[trigger] final(pipes)@[i] == (if is_run(
                            old(pipes)@[i],
                            conn_id@,
                            run_id@,
                        ) {
                            PipeRow { awaiting_approval: false, ..old(pipes)@[i] }
                        } else {
                            old(pipes)@[i]
                        })
                }
            } else {
                !rebuild && *final(open) == *old(open) && final(pipes)@ == old(pipes)@
            },
            None => !rebuild && final(open).is_none() && final(pipes)@ == old(pipes)@,
        },
{
    let still = match open.take() {
        Some(mut v) => {
            let r = v.drop_decided_approval(conn_id, run_id, approval_id);
            *open = Some(v);
            r
        },
        None => None,
    };
    match still {
        Some(gated) => {
            if !gated {
                clear_awaiting(pipes, conn_id, run_id);
            }
            true
        },
        None => false,
    }
}

} // verus!
