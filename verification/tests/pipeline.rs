use forgetop_tui::logs::{LogView, LOG_POLL_TICKS};
use forgetop_tui::pipeline::{
    first_failed_node, stage_duration, NodeKey, PipelineApproval, PipelineJob, PipelineRun, PipelineRunStatus,
    PipelineStage, PipelineStep, PipelineView,
};
use forgetop_tui::detail::{ApprovalDecision, ApprovalPicker};
use forgetop_tui::time::{fmt_duration, UtcTime};

fn t(s: i64) -> UtcTime {
    // 2026-01-01T00:00:00Z plus `s` seconds.
    UtcTime { secs: 1_767_225_600 + s, nanos: 0 }
}

fn pipeline_run(id: &str, status: PipelineRunStatus, stages: Vec<PipelineStage>) -> PipelineRun {
    PipelineRun {
        repository: None,
        id: id.into(),
        definition_id: "ci".into(),
        number: Some(1),
        name: Some("CI".into()),
        title: None,
        status,
        triggered_by: None,
        branch: Some("main".into()),
        commit_sha: None,
        started_at: None,
        finished_at: None,
        url: None,
        stages,
    }
}

fn pipeline_stage(name: &str, status: PipelineRunStatus, jobs: Vec<PipelineJob>) -> PipelineStage {
    PipelineStage { name: name.into(), status, jobs }
}

fn pipeline_job(id: &str, status: PipelineRunStatus) -> PipelineJob {
    PipelineJob { id: id.into(), name: id.into(), status, started_at: None, finished_at: None, steps: vec![], url: None, problem: None }
}

fn step(name: &str, status: PipelineRunStatus) -> PipelineStep {
    PipelineStep { name: name.into(), status, started_at: None, finished_at: None }
}

fn view(run: PipelineRun) -> PipelineView {
    PipelineView::new("CI".into(), run, "c".into(), "github".into(), "ci".into(), None)
}

#[test]
fn pipeline_duration_formatting_and_stage_span() {
    assert_eq!(fmt_duration(Some(t(0)), Some(t(45))).as_deref(), Some("45s"));
    assert_eq!(fmt_duration(Some(t(0)), Some(t(75))).as_deref(), Some("1m15s"));
    assert_eq!(fmt_duration(Some(t(0)), Some(t(3720))).as_deref(), Some("1h02m"));
    assert_eq!(fmt_duration(Some(t(0)), None), None, "unfinished → no duration");
    assert_eq!(fmt_duration(None, Some(t(10))), None);

    let mk = |start: i64, fin: Option<i64>| PipelineJob {
        id: "j".into(),
        name: "j".into(),
        status: PipelineRunStatus::Succeeded,
        started_at: Some(t(start)),
        finished_at: fin.map(t),
        steps: vec![],
        url: None,
        problem: None,
    };
    // Stage spans earliest start → latest finish; any unfinished job → None.
    assert_eq!(stage_duration(&[mk(0, Some(30)), mk(10, Some(50))]).as_deref(), Some("50s"));
    assert_eq!(stage_duration(&[mk(0, Some(30)), mk(10, None)]), None);
}

#[test]
fn a_failed_run_selects_its_failed_step_on_first_load_only() {
    let mut job = pipeline_job("j2", PipelineRunStatus::Failed);
    job.steps = vec![step("restore", PipelineRunStatus::Succeeded), step("test", PipelineRunStatus::Failed)];
    let run = pipeline_run(
        "1",
        PipelineRunStatus::Failed,
        vec![
            pipeline_stage("build", PipelineRunStatus::Succeeded, vec![pipeline_job("j1", PipelineRunStatus::Succeeded)]),
            pipeline_stage("test", PipelineRunStatus::Failed, vec![job]),
        ],
    );
    let mut v = view(clone_run(&run));
    v.collapsed.push(NodeKey::Stage(1));
    v.collapsed.push(NodeKey::Job(1, 0));
    v.stale = true;
    v.auto_select_failed();
    let nodes = v.flatten();
    assert_eq!(nodes[v.selected].label, "test", "the failed step, parents expanded");
    assert_eq!(nodes[v.selected].depth, 2);
    assert!(v.auto_logs, "its logs are asked to open");

    // Later loads leave the user's cursor alone.
    v.move_sel(-1);
    let moved = v.selected;
    v.apply_fresh_run(clone_run(&run), None);
    assert_eq!(v.selected, moved);

    // A run confirmed running at first load isn't jumped when it fails later.
    let mut running = clone_run(&run);
    running.status = PipelineRunStatus::Running;
    let mut v = view(clone_run(&running));
    v.stale = true;
    v.auto_select_failed(); // the cache-seeded open
    v.apply_fresh_run(running, None); // the first live load
    v.apply_fresh_run(run, None); // a later refresh finds it failed
    assert_eq!(v.selected, 0);
    assert!(!v.auto_logs);
}

fn clone_run(r: &PipelineRun) -> PipelineRun {
    PipelineRun {
        repository: r.repository.clone(),
        id: r.id.clone(),
        definition_id: r.definition_id.clone(),
        number: r.number,
        name: r.name.clone(),
        title: r.title.clone(),
        status: r.status,
        triggered_by: r.triggered_by.clone(),
        branch: r.branch.clone(),
        commit_sha: r.commit_sha.clone(),
        started_at: r.started_at,
        finished_at: r.finished_at,
        url: r.url.clone(),
        stages: r
            .stages
            .iter()
            .map(|s| PipelineStage {
                name: s.name.clone(),
                status: s.status,
                jobs: s
                    .jobs
                    .iter()
                    .map(|j| PipelineJob {
                        id: j.id.clone(),
                        name: j.name.clone(),
                        status: j.status,
                        started_at: j.started_at,
                        finished_at: j.finished_at,
                        steps: j.steps.iter().map(|x| step(&x.name, x.status)).collect(),
                        url: j.url.clone(),
                        problem: j.problem.clone(),
                    })
                    .collect(),
            })
            .collect(),
    }
}

#[test]
fn the_tree_flattens_with_collapse_keys_and_jobs_inherit_links() {
    let mut job = pipeline_job("j1", PipelineRunStatus::Failed);
    job.url = Some("http://job".into());
    job.problem = Some("boom".into());
    job.steps = vec![step("build", PipelineRunStatus::Failed)];
    let mut v = view(pipeline_run("r1", PipelineRunStatus::Failed, vec![pipeline_stage("test", PipelineRunStatus::Failed, vec![job])]));
    let nodes = v.flatten();
    assert_eq!(nodes.len(), 3);
    assert_eq!(nodes[0].key.as_deref(), Some("s0"));
    assert_eq!(nodes[1].key.as_deref(), Some("s0.j0"));
    assert_eq!(nodes[1].problem.as_deref(), Some("boom"));
    assert_eq!(nodes[2].key, None);
    assert_eq!(nodes[2].url.as_deref(), Some("http://job"), "a step links to its job");
    assert_eq!(nodes[2].job_id.as_deref(), Some("j1"));
    v.selected = 1;
    v.toggle_selected();
    assert_eq!(v.flatten().len(), 2, "the job folds its steps away");
    v.toggle_selected();
    assert_eq!(v.flatten().len(), 3, "and unfolds them again");
    v.selected = 0;
    v.toggle_selected();
    assert_eq!(v.flatten().len(), 1, "the stage folds everything");
}

#[test]
fn the_cursor_wraps_and_clamps() {
    let run = pipeline_run("r", PipelineRunStatus::Running, vec![pipeline_stage("a", PipelineRunStatus::Running, vec![pipeline_job("j", PipelineRunStatus::Running)])]);
    let mut v = view(run);
    v.move_sel(-1);
    assert_eq!(v.selected, 1, "up from the top wraps to the bottom");
    v.move_sel(1);
    assert_eq!(v.selected, 0, "down from the bottom wraps to the top");
    v.selected = 9;
    v.clamp_selection();
    assert_eq!(v.selected, 1);
}

#[test]
fn a_failed_approvals_call_keeps_the_gates_an_answer_replaces_them() {
    let gate = |id: &str, can: bool| PipelineApproval { id: id.into(), name: format!("gate-{id}"), can_respond: can };
    let mut v = view(pipeline_run("r", PipelineRunStatus::Running, vec![]));
    v.apply_confirmed_approvals(Some(vec![gate("a", true), gate("b", false)]));
    assert_eq!(v.approvals.len(), 2);
    assert_eq!(v.actionable_approvals().iter().map(|a| a.id.as_str()).collect::<Vec<_>>(), vec!["a"]);
    v.apply_confirmed_approvals(None);
    assert_eq!(v.approvals.len(), 2, "a failed call keeps what was on screen");
    v.apply_confirmed_approvals(Some(vec![]));
    assert!(v.approvals.is_empty(), "an answered empty list clears them");
}

#[test]
fn the_first_failure_prefers_a_failed_step() {
    let mut j = pipeline_job("j", PipelineRunStatus::Failed);
    j.steps = vec![step("a", PipelineRunStatus::Succeeded), step("b", PipelineRunStatus::Failed)];
    let run = pipeline_run("r", PipelineRunStatus::Failed, vec![
        pipeline_stage("ok", PipelineRunStatus::Succeeded, vec![pipeline_job("x", PipelineRunStatus::Succeeded)]),
        pipeline_stage("bad", PipelineRunStatus::Failed, vec![pipeline_job("y", PipelineRunStatus::Failed), j]),
    ]);
    assert_eq!(first_failed_node(&run), Some((1, 0, None)), "the first failed job, lacking a failed step");
    let none = pipeline_run("r", PipelineRunStatus::Succeeded, vec![]);
    assert_eq!(first_failed_node(&none), None);
}

#[test]
fn toggling_the_same_row_twice_restores_the_tree_and_the_cursor() {
    let mut a = pipeline_job("a", PipelineRunStatus::Succeeded);
    a.steps = vec![step("one", PipelineRunStatus::Succeeded), step("two", PipelineRunStatus::Succeeded)];
    let mut b = pipeline_job("b", PipelineRunStatus::Succeeded);
    b.steps = vec![step("three", PipelineRunStatus::Succeeded)];
    let run = pipeline_run("r", PipelineRunStatus::Succeeded, vec![
        pipeline_stage("first", PipelineRunStatus::Succeeded, vec![a]),
        pipeline_stage("second", PipelineRunStatus::Succeeded, vec![b]),
    ]);
    let mut v = view(run);
    let before: Vec<Option<String>> = v.flatten().iter().map(|n| n.key.clone()).collect();
    assert_eq!(before.len(), 7);
    // The job row of the second stage.
    v.selected = 5;
    v.toggle_selected();
    assert_eq!(v.selected, 5, "the toggled row keeps the cursor");
    assert_eq!(v.flatten().len(), 6);
    assert!(v.collapsed.contains(&NodeKey::Job(1, 0)));
    v.toggle_selected();
    assert_eq!(v.selected, 5);
    assert!(v.collapsed.is_empty());
    let after: Vec<Option<String>> = v.flatten().iter().map(|n| n.key.clone()).collect();
    assert_eq!(after, before);
    // The first stage row: collapsing it moves every later row up, not the cursor.
    v.selected = 0;
    v.toggle_selected();
    assert_eq!(v.flatten().len(), 4);
    assert_eq!(v.selected, 0);
    v.toggle_selected();
    assert_eq!(v.flatten().len(), 7);
    assert!(v.collapsed.is_empty());
}

#[test]
fn clicking_a_tree_row_selects_it_and_a_second_click_opens_it() {
    let run = pipeline_run("r", PipelineRunStatus::Running, vec![pipeline_stage("a", PipelineRunStatus::Running, vec![pipeline_job("j", PipelineRunStatus::Running)])]);
    let mut v = view(run);
    v.log_focus = true;
    assert_eq!(v.click_node(1), forgetop_tui::click::ClickAction::Nothing);
    assert_eq!(v.selected, 1);
    assert!(v.user_moved);
    assert!(!v.log_focus, "the tree takes the keys");
    assert!(v.logs.is_none(), "a closed pane stays closed");
    assert_eq!(v.click_node(1), forgetop_tui::click::ClickAction::Enter);
    v.click_log_pane();
    assert!(v.log_focus);
}

#[test]
fn the_wheel_moves_the_tree_without_wrapping_and_the_pane_under_it_takes_the_keys() {
    let run = pipeline_run("r", PipelineRunStatus::Running, vec![pipeline_stage("a", PipelineRunStatus::Running, vec![pipeline_job("j", PipelineRunStatus::Running)])]);
    let mut v = view(run);
    assert_eq!(v.on_wheel(None, -1), forgetop_tui::click::WheelAction::Stay);
    assert_eq!(v.selected, 0, "no wrap");
    v.on_wheel(None, 1);
    v.on_wheel(None, 1);
    assert_eq!(v.selected, 1);
    assert!(v.user_moved);
}

#[test]
fn a_confirmed_run_clears_staleness_and_only_confirmed_gates_reach_the_view() {
    let gate = PipelineApproval { id: "g1".into(), name: "gate".into(), can_respond: true };
    let mut v = view(pipeline_run("1", PipelineRunStatus::Running, vec![]));
    v.stale = true;
    // get_run answers with the same run; the approvals call failed.
    v.apply_detail(true, pipeline_run("1", PipelineRunStatus::Running, vec![]), true, true, None);
    assert!(!v.stale, "even an unchanged confirmed run clears staleness");
    assert!(v.approvals.is_empty(), "a failed approvals call paints no gate");
    assert!(v.supports_approvals && v.can_respond_approvals);

    // Only approvals answered: the run and staleness stay as they are.
    v.stale = true;
    v.apply_detail(false, pipeline_run("1", PipelineRunStatus::Failed, vec![]), true, true, Some(vec![gate.clone()]));
    assert_eq!(v.run.status, PipelineRunStatus::Running, "an unconfirmed run never replaces the view's");
    assert!(v.stale);
    assert_eq!(v.approvals.len(), 1);

    // An answered empty list is authoritative.
    v.apply_detail(true, pipeline_run("1", PipelineRunStatus::Failed, vec![]), true, true, Some(vec![]));
    assert!(v.approvals.is_empty());
    assert_eq!(v.run.status, PipelineRunStatus::Failed);

    // Nothing new: nothing changes.
    let before = v.run.status;
    assert!(v.detail_unchanged(&pipeline_run("1", before, vec![]), true, true, &None));
    v.apply_detail(true, pipeline_run("1", before, vec![]), true, true, None);
    assert!(!v.stale);
}

#[test]
fn o_on_the_drill_in_opens_the_selected_jobs_link_else_the_runs() {
    let mut job = pipeline_job("j1", PipelineRunStatus::Failed);
    job.url = Some("http://job".into());
    job.steps = vec![step("build", PipelineRunStatus::Failed)];
    let mut run = pipeline_run("r", PipelineRunStatus::Failed, vec![pipeline_stage("test", PipelineRunStatus::Failed, vec![job])]);
    run.url = Some("http://run".into());
    let mut v = view(run);
    v.selected = 0;
    assert_eq!(v.selected_url().as_deref(), Some("http://run"), "a stage has no link of its own");
    v.selected = 2;
    assert_eq!(v.selected_url().as_deref(), Some("http://job"), "a step inherits its job's");
}

fn gate(id: &str, can_respond: bool) -> PipelineApproval {
    PipelineApproval { id: id.into(), name: id.into(), can_respond }
}

#[test]
fn a_decided_gate_leaves_the_view_of_its_run_only() {
    let mut v = view(pipeline_run("r1", PipelineRunStatus::Running, vec![]));
    v.approvals = vec![gate("a", true), gate("b", false)];
    assert_eq!(v.drop_decided_approval("c", "other", "a"), None, "another run's view knows nothing");
    assert_eq!(v.approvals.len(), 2);
    assert_eq!(v.drop_decided_approval("c", "r1", "b"), Some(true), "gate a still wants the user");
    assert_eq!(v.approvals.len(), 1);
    assert_eq!(v.approvals[0].id, "a");
    assert_eq!(v.drop_decided_approval("c", "r1", "a"), Some(false));
    assert!(v.approvals.is_empty());
}

#[test]
fn the_approval_picker_offers_approve_and_reject_per_actionable_gate() {
    let mut v = view(pipeline_run("r1", PipelineRunStatus::Running, vec![]));
    match v.approval_picker() {
        ApprovalPicker::Toast(t) => assert_eq!(t, "Approvals aren't supported on this provider"),
        _ => panic!("no picker without approvals support"),
    }
    v.supports_approvals = true;
    match v.approval_picker() {
        ApprovalPicker::Toast(t) => assert_eq!(t, "Approvals are view-only for github \u{2014} approve in the browser"),
        _ => panic!("view-only"),
    }
    v.can_respond_approvals = true;
    v.approvals = vec![gate("x", false)];
    match v.approval_picker() {
        ApprovalPicker::Toast(t) => assert_eq!(t, "Nothing awaiting your approval on this run"),
        _ => panic!("nothing actionable"),
    }
    v.approvals = vec![gate("x", false), gate("Deploy", true)];
    match v.approval_picker() {
        ApprovalPicker::Pick { items, choices } => {
            assert_eq!(items, vec!["Approve \u{b7} Deploy", "Reject \u{b7} Deploy"]);
            assert_eq!(choices.len(), 2);
            assert_eq!(choices[0].decision, ApprovalDecision::Approve);
            assert_eq!(choices[1].decision, ApprovalDecision::Reject);
            assert_eq!(choices[1].approval_id, "Deploy");
            assert_eq!(choices[1].run_id, "r1");
            assert_eq!(choices[1].connection_id, "c");
        }
        _ => panic!("a picker"),
    }
}

#[test]
fn a_live_jobs_pane_asks_every_poll_interval_and_once_more_when_it_finishes() {
    let mut v = view(pipeline_run("r1", PipelineRunStatus::Running, vec![]));
    v.poll_tick();
    assert!(v.logs.is_none(), "no pane, nothing to poll");
    let mut log = LogView::new("job".into(), "j1".into(), true);
    log.loaded = true;
    log.want_fetch = false;
    v.logs = Some(log);
    for _ in 1..LOG_POLL_TICKS {
        v.poll_tick();
        assert!(!v.logs.as_ref().unwrap().want_fetch);
    }
    v.poll_tick();
    let l = v.logs.as_ref().unwrap();
    assert!(l.want_fetch, "a fetch every LOG_POLL_TICKS");
    assert_eq!(l.poll_ticks, 0);
    v.logs.as_mut().unwrap().want_fetch = false;
    v.run.status = PipelineRunStatus::Succeeded;
    v.poll_tick();
    assert!(v.logs.as_ref().unwrap().want_fetch, "once more when the job finishes");
    assert!(!v.logs.as_ref().unwrap().live);
    v.logs.as_mut().unwrap().want_fetch = false;
    v.poll_tick();
    assert!(!v.logs.as_ref().unwrap().want_fetch, "and then nothing");
}
