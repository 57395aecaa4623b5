use forgetop_tui::detail::{ApprovalChoice, ApprovalDecision};
use forgetop_tui::pipeline::{PipelineRun, PipelineRunStatus, PipelineView};
use forgetop_tui::pipes::PipeRow;
use forgetop_tui::prompts::{
    cancel_requested_toast, pending_exit_title, review_submitted_toast, trigger_message, TriggerTarget,
};

fn run(status: PipelineRunStatus, name: Option<&str>, number: Option<u64>) -> PipelineRun {
    PipelineRun {
        repository: Some("nz/app".into()),
        id: "9".into(),
        definition_id: "ci".into(),
        number,
        name: name.map(Into::into),
        title: None,
        status,
        triggered_by: None,
        branch: Some("main".into()),
        commit_sha: None,
        started_at: None,
        finished_at: None,
        url: None,
        stages: vec![],
    }
}

#[test]
fn a_trigger_asks_with_its_branch_when_it_has_one() {
    let v = PipelineView::new("CI build".into(), run(PipelineRunStatus::Running, None, None), "c".into(), "github".into(), "ci".into(), Some("dev".into()));
    let t = TriggerTarget::of_view(&v);
    assert_eq!(t.definition_id, "ci");
    assert_eq!(t.repo.as_deref(), Some("nz/app"));
    assert_eq!(trigger_message(&t), "Trigger CI build on dev?");
    let row = PipeRow {
        connection_id: "c".into(),
        connection: "GH".into(),
        provider: "github".into(),
        run: run(PipelineRunStatus::Succeeded, Some("CI"), Some(4)),
        definition_name: None,
        awaiting_approval: false,
    };
    let mut t = TriggerTarget::of_row(&row);
    assert_eq!(t.label, "CI #4");
    assert_eq!(t.branch.as_deref(), Some("main"));
    t.branch = None;
    assert_eq!(trigger_message(&t), "Trigger CI #4?");
}

#[test]
fn only_an_active_run_can_be_cancelled() {
    let v = PipelineView::new("CI".into(), run(PipelineRunStatus::Running, Some("CI"), Some(7)), "c".into(), "github".into(), "ci".into(), None);
    assert_eq!(v.cancel_prompt(), Ok("Cancel CI #7? Its running jobs stop.".to_string()));
    let v = PipelineView::new("CI".into(), run(PipelineRunStatus::Failed, Some("CI"), Some(7)), "c".into(), "github".into(), "ci".into(), None);
    assert_eq!(v.cancel_prompt(), Err("Only a queued or running run can be cancelled".to_string()));
    assert_eq!(cancel_requested_toast("CI #7"), "Cancel requested for CI #7");
}

#[test]
fn an_approval_is_confirmed_by_its_decision_and_name() {
    let c = ApprovalChoice {
        connection_id: "c".into(),
        repo: None,
        run_id: "9".into(),
        approval_id: "a".into(),
        decision: ApprovalDecision::Reject,
        label: "prod".into(),
    };
    assert_eq!(c.confirm_message(), "Reject deployment to prod?");
}

#[test]
fn pending_comments_are_counted_in_the_prompts() {
    assert_eq!(pending_exit_title(1), "1 unsubmitted comment");
    assert_eq!(pending_exit_title(3), "3 unsubmitted comments");
    assert_eq!(review_submitted_toast(2), "Review submitted (2 comment(s))");
}
