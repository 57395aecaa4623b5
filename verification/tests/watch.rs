use forgetop_tui::pipeline::{PipelineRun, PipelineRunStatus};
use forgetop_tui::pipes::{approval_note, failure_note, PipeRow, PipeWatch};

fn pipe_row(id: &str, status: PipelineRunStatus, awaiting: bool) -> PipeRow {
    PipeRow {
        connection_id: "c".into(),
        connection: "GH".into(),
        provider: "github".into(),
        definition_name: None,
        awaiting_approval: awaiting,
        run: PipelineRun {
            repository: None,
            id: id.into(),
            definition_id: "ci".into(),
            number: Some(1),
            name: Some("CI".into()),
            title: None,
            status,
            triggered_by: None,
            branch: Some("main".into()),
            commit_sha: None,
            started_at: None,
            finished_at: None,
            url: None,
            stages: vec![],
        },
    }
}

fn titles(notes: &[(String, String)]) -> Vec<&str> {
    notes.iter().map(|n| n.0.as_str()).collect()
}

#[test]
fn fires_pipeline_failed_notification_only_for_new_failures() {
    let mut w = PipeWatch::new();
    let pipeline_failed = true;
    w.pipe_seeded = true;
    w.pipe_seen = vec![("a".to_string(), PipelineRunStatus::Failed), ("c".to_string(), PipelineRunStatus::Running)];
    let pipes = vec![pipe_row("a", PipelineRunStatus::Failed, false), pipe_row("c", PipelineRunStatus::Failed, false)];

    let rec = w.failure_notes(pipeline_failed, &pipes);
    assert_eq!(titles(&rec), vec!["Pipeline failed"]);
    assert!(rec[0].1.contains("CI"), "body names the run");

    let rec2 = w.failure_notes(pipeline_failed, &pipes);
    assert!(titles(&rec2).is_empty(), "already-seen failures don't re-notify");
}

#[test]
fn pipeline_notification_respects_pref_and_first_load_seeding() {
    let mut w = PipeWatch::new();
    w.pipe_seeded = true;
    let pipes = vec![pipe_row("a", PipelineRunStatus::Failed, false)];
    let off = w.failure_notes(false, &pipes);
    assert!(titles(&off).is_empty(), "pref off suppresses the notification");

    let mut w = PipeWatch::new();
    let first = w.failure_notes(true, &pipes);
    assert!(titles(&first).is_empty(), "first load seeds silently");
    assert!(w.pipe_seeded, "and is now seeded");
}

#[test]
fn fires_approval_needed_notification_once() {
    let mut w = PipeWatch::new();
    w.approval_seeded = true;
    let pipes = vec![pipe_row("a", PipelineRunStatus::Running, true)];

    let rec = w.approval_notes(true, &pipes);
    assert_eq!(titles(&rec), vec!["Approval needed"]);

    let rec2 = w.approval_notes(true, &pipes);
    assert!(titles(&rec2).is_empty(), "the same pending gate isn't re-notified");
}

#[test]
fn a_notification_names_the_connection_the_run_and_its_branch() {
    let p = pipe_row("a", PipelineRunStatus::Failed, true);
    assert_eq!(failure_note(&p), ("Pipeline failed".to_owned(), "GH \u{b7} CI #1 on main".to_owned()));
    assert_eq!(approval_note(&p), ("Approval needed".to_owned(), "GH \u{b7} CI #1 is awaiting your approval".to_owned()));
    let mut q = pipe_row("a", PipelineRunStatus::Failed, true);
    q.run.branch = None;
    assert_eq!(failure_note(&q).1, "GH \u{b7} CI #1 on \u{2014}");
}
