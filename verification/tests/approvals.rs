use forgetop_tui::detail::{drop_decided_approval, ApprovalDecision, ApprovalPicker};
use forgetop_tui::pipeline::{PipelineApproval, PipelineRun, PipelineRunStatus, PipelineView};
use forgetop_tui::pipes::PipeRow;

fn run(id: &str, status: PipelineRunStatus) -> PipelineRun {
    PipelineRun {
        repository: None,
        id: id.into(),
        definition_id: "ci".into(),
        number: Some(1),
        name: Some("CI".into()),
        title: None,
        status,
        triggered_by: None,
        branch: Some("main".into()),
        commit_sha: None,
        started_at: None,
        finished_at: None,
        url: None,
        stages: vec![],
    }
}

fn pipe_row(id: &str, status: PipelineRunStatus, awaiting: bool) -> PipeRow {
    PipeRow {
        connection_id: "c".into(),
        connection: "GH".into(),
        provider: "github".into(),
        definition_name: None,
        awaiting_approval: awaiting,
        run: run(id, status),
    }
}

fn approval(id: &str, can_respond: bool) -> PipelineApproval {
    PipelineApproval { id: id.into(), name: format!("gate-{id}"), can_respond }
}

fn view(run: PipelineRun, provider: &str) -> PipelineView {
    PipelineView::new("CI".into(), run, "c".into(), provider.into(), "ci".into(), None)
}

#[test]
fn deciding_a_gate_drops_it_from_the_open_run_without_guessing_the_runs_status() {
    let mut v = view(run("r1", PipelineRunStatus::Running), "github");
    v.supports_approvals = true;
    v.can_respond_approvals = true;
    v.approvals = vec![approval("g1", true), approval("g2", true)];
    let mut open = Some(v);
    let mut pipes = vec![pipe_row("r1", PipelineRunStatus::Running, true)];

    assert!(drop_decided_approval(&mut open, &mut pipes, "c", "r1", "g1"));

    let v = open.as_ref().expect("still on the pipeline view");
    assert_eq!(v.approvals.iter().map(|a| a.id.clone()).collect::<Vec<_>>(), ["g2"]);
    assert_eq!(
        v.run.status,
        PipelineRunStatus::Running,
        "what an approval does to a run is the provider's to say, not ours to fake"
    );
    assert!(pipes[0].awaiting_approval, "a second gate still wants the user");

    drop_decided_approval(&mut open, &mut pipes, "c", "r1", "g2");

    assert!(!pipes[0].awaiting_approval, "the badge goes once nothing is left to answer");
}

#[test]
fn a_gate_the_user_cannot_answer_does_not_keep_the_approval_badge_lit() {
    let mut v = view(run("r1", PipelineRunStatus::Running), "github");
    v.approvals = vec![approval("g1", true), approval("g2", false)];
    let mut open = Some(v);
    let mut pipes = vec![pipe_row("r1", PipelineRunStatus::Running, true)];

    let rebuild = drop_decided_approval(&mut open, &mut pipes, "c", "r1", "g1");

    assert!(!pipes[0].awaiting_approval);
    assert!(rebuild, "the Command Center's approvals bucket is rebuilt off that flag");
}

#[test]
fn a_decision_made_against_a_run_that_is_no_longer_open_leaves_the_badge_alone() {
    let mut pipes = vec![pipe_row("r1", PipelineRunStatus::Running, true)];
    let mut open: Option<PipelineView> = None;

    assert!(!drop_decided_approval(&mut open, &mut pipes, "c", "r1", "g1"));

    assert!(pipes[0].awaiting_approval);
    let mut other = Some(view(run("r2", PipelineRunStatus::Running), "github"));
    drop_decided_approval(&mut other, &mut pipes, "c", "r1", "g1");
    assert!(pipes[0].awaiting_approval, "a view of another run knows nothing of r1");
}

#[test]
fn approval_picker_offers_only_actionable_gates_and_confirms() {
    let mut v = view(run("r1", PipelineRunStatus::Failed), "github");
    v.supports_approvals = true;
    v.can_respond_approvals = true;
    v.approvals = vec![
        PipelineApproval { id: "prod".into(), name: "production".into(), can_respond: true },
        PipelineApproval { id: "stg".into(), name: "staging".into(), can_respond: false },
    ];
    match v.approval_picker() {
        ApprovalPicker::Pick { items, choices } => {
            // Only the actionable gate is offered — as an Approve and a Reject row.
            assert_eq!(choices.len(), 2);
            assert!(choices.iter().all(|c| c.approval_id == "prod"));
            assert_eq!(items.len(), 2);
            assert!(items[0].starts_with("Approve"));
            assert!(items[1].starts_with("Reject"));
            // Picking a row asks before acting.
            assert_eq!(choices[0].decision, ApprovalDecision::Approve);
            assert_eq!(choices[0].confirm_message(), "Approve deployment to production?");
        }
        ApprovalPicker::Toast(t) => panic!("expected an approval picker, got {t}"),
    }
}

#[test]
fn approval_picker_is_a_noop_without_actionable_gates() {
    let mut v = view(run("r1", PipelineRunStatus::Failed), "bitbucket");
    v.supports_approvals = false; // Bitbucket
    match v.approval_picker() {
        ApprovalPicker::Toast(t) => assert!(!t.is_empty(), "no picker when approvals aren't supported"),
        ApprovalPicker::Pick { .. } => panic!("no picker when approvals aren't supported"),
    }
}
