use forgetop_tui::order::SortPref;
use forgetop_tui::pipeline::{PipelineApproval, PipelineJob, PipelineRun, PipelineRunStatus, PipelineStage};
use PipelineRunStatus::{Failed, Succeeded};
use PipelineRunStatus::Succeeded as S;
use forgetop_tui::pipes::{
    apply_pipe_group, clear_awaiting, filtered_pipe_indices, gate_from_approvals, log_fetch_key, new_pending_approvals,
    new_pipeline_failures, pipe_branch_label, pipe_child_subject, pipe_definition_name, pipe_group_key,
    pipe_for_action, pipe_label, pipe_lines, pipe_matches, pipe_subject_heading, pipe_trigger_token,
    pipeline_run_matches, preview_pipe, prune_pipe_expanded, run_label, selected_pipe, set_all_pipe_groups,
    toggle_pipe_group, PipeGroup, PipeLine, PipeRow, PipeWatch,
};
use forgetop_tui::time::UtcTime;

fn at(s: &str) -> UtcTime {
    let t: chrono::DateTime<chrono::Utc> = s.parse().unwrap();
    UtcTime { secs: t.timestamp(), nanos: t.timestamp_subsec_nanos() }
}

fn run(id: &str) -> PipelineRun {
    PipelineRun {
        repository: None,
        id: id.into(),
        definition_id: "ci".into(),
        number: None,
        name: None,
        title: None,
        status: PipelineRunStatus::Running,
        triggered_by: None,
        branch: None,
        commit_sha: None,
        started_at: None,
        finished_at: None,
        url: None,
        stages: vec![],
    }
}

fn grouped_row(def: &str, repo: &str, branch: &str, sha: &str, when: &str, status: PipelineRunStatus) -> PipeRow {
    let mut r = run(&format!("{def}-{sha}"));
    r.repository = Some(repo.into());
    r.definition_id = def.into();
    r.number = Some(1);
    r.status = status;
    r.branch = Some(branch.into());
    r.commit_sha = if sha.is_empty() { None } else { Some(sha.to_string()) };
    r.started_at = if when.is_empty() { None } else { Some(at(when)) };
    PipeRow {
        connection_id: "c".into(),
        connection: "GH".into(),
        provider: "github".into(),
        definition_name: Some(def.into()),
        awaiting_approval: false,
        run: r,
    }
}

/// One push fans out to several workflows, and the same workflow runs again on a later push.
fn fanned_out() -> Vec<PipeRow> {
    vec![
        grouped_row("CI", "nz/app", "main", "aaa", "2026-09-24T10:00:00Z", Succeeded),
        grouped_row("Integration", "nz/app", "main", "aaa", "2026-09-24T10:00:00Z", Failed),
        grouped_row("Release", "nz/app", "v1.0", "bbb", "2026-09-24T09:00:00Z", Succeeded),
        grouped_row("CI", "nz/app", "v1.0", "bbb", "2026-09-24T09:00:00Z", Succeeded),
    ]
}

fn lines(pipes: &[PipeRow], g: PipeGroup, expanded: &Vec<String>, sort: &Option<SortPref>) -> Vec<PipeLine> {
    let rows = filtered_pipe_indices(pipes, "", sort);
    pipe_lines(pipes, rows, g, expanded, sort)
}

fn heads(pipes: &[PipeRow], g: PipeGroup, sort: &Option<SortPref>) -> Vec<(String, usize, usize)> {
    lines(pipes, g, &vec![], sort)
        .into_iter()
        .filter_map(|l| match l {
            PipeLine::Head(h) => Some((h.subject, h.runs, h.failed)),
            PipeLine::Run(_) => None,
        })
        .collect()
}

fn head_cells(pipes: &[PipeRow], g: PipeGroup) -> Vec<(String, String, usize, usize)> {
    lines(pipes, g, &vec![], &None)
        .into_iter()
        .filter_map(|l| match l {
            PipeLine::Head(h) => Some((h.subject, h.commit, h.runs, h.failed)),
            PipeLine::Run(_) => None,
        })
        .collect()
}

#[test]
fn pipe_lines_group_by_pipeline_ordered_by_most_recent_run() {
    let pipes = fanned_out();
    assert_eq!(PipeGroup::default(), PipeGroup::Pipeline, "grouped by pipeline out of the box");
    // CI last ran 10:00, Integration 10:00 (ties keep list order), Release 09:00.
    assert_eq!(
        heads(&pipes, PipeGroup::Pipeline, &None),
        vec![("CI".to_string(), 2, 0), ("Integration".to_string(), 1, 1), ("Release".to_string(), 1, 0)]
    );
}

#[test]
fn groups_land_collapsed_and_expand_one_at_a_time() {
    let pipes = fanned_out();
    let mut expanded: Vec<String> = vec![];
    assert_eq!(lines(&pipes, PipeGroup::Pipeline, &expanded, &None).len(), 3, "three headers, no runs");
    let key = match &lines(&pipes, PipeGroup::Pipeline, &expanded, &None)[0] {
        PipeLine::Head(h) => h.key.clone(),
        PipeLine::Run(_) => panic!("first line is a header"),
    };
    toggle_pipe_group(&mut expanded, &key);
    let now = lines(&pipes, PipeGroup::Pipeline, &expanded, &None);
    assert_eq!(now.len(), 5);
    assert!(matches!(now[1], PipeLine::Run(_)), "the group's runs follow its header");
    toggle_pipe_group(&mut expanded, &key);
    assert_eq!(lines(&pipes, PipeGroup::Pipeline, &expanded, &None).len(), 3, "collapsing puts them away again");
}

#[test]
fn group_header_shows_the_latest_runs_status_not_the_worst() {
    let pipes = vec![
        grouped_row("CI", "nz/app", "main", "aaa", "2026-09-24T10:00:00Z", PipelineRunStatus::Succeeded),
        grouped_row("CI", "nz/app", "main", "bbb", "2026-09-24T09:00:00Z", PipelineRunStatus::Failed),
    ];
    let PipeLine::Head(h) = lines(&pipes, PipeGroup::Pipeline, &vec![], &None).remove(0) else { panic!("header") };
    assert_eq!(h.status, PipelineRunStatus::Succeeded, "the latest run passed, so the header reads passed");
    assert_eq!((h.runs, h.failed), (2, 1), "the older failure is still announced, as a count");
    assert_eq!(h.started, Some(at("2026-09-24T10:00:00Z")), "Started is that same latest run, not a different one");
}

#[test]
fn trigger_grouping_collects_one_push_fan_out() {
    let pipes = fanned_out();
    let h = head_cells(&pipes, PipeGroup::Trigger);
    assert_eq!(h.len(), 2, "two pushes");
    assert_eq!(h[0].2, 2, "the newest push started two workflows");
    assert_eq!(h[0].0, "main", "the subject column names the branch");
    assert_eq!(h[0].1, "aaa", "and the commit column the commit");
}

#[test]
fn trigger_grouping_falls_back_to_the_start_minute_without_a_commit() {
    let pipes = vec![
        grouped_row("CI", "nz/app", "main", "", "2026-09-24T10:00:30Z", PipelineRunStatus::Succeeded),
        grouped_row("Integration", "nz/app", "main", "", "2026-09-24T10:00:45Z", PipelineRunStatus::Succeeded),
        grouped_row("CI", "nz/app", "main", "", "2026-09-24T10:02:00Z", PipelineRunStatus::Succeeded),
    ];
    let h = heads(&pipes, PipeGroup::Trigger, &None);
    assert_eq!(h.len(), 2, "same minute groups together, a later minute does not");
    assert_eq!(h[0].1, 1, "10:02 is its own trigger and is newest");
    assert_eq!(h[1].1, 2, "the two runs from 10:00 share a header");
}

#[test]
fn branch_grouping_does_not_merge_across_repositories() {
    let pipes = vec![
        grouped_row("CI", "nz/app", "main", "aaa", "2026-09-24T10:00:00Z", PipelineRunStatus::Succeeded),
        grouped_row("CI", "nz/other", "main", "bbb", "2026-09-24T09:00:00Z", PipelineRunStatus::Succeeded),
    ];
    assert_eq!(heads(&pipes, PipeGroup::Branch, &None).len(), 2, "two repositories, two groups");
}

#[test]
fn grouping_off_renders_one_line_per_run() {
    let pipes = fanned_out();
    let l = lines(&pipes, PipeGroup::Off, &vec![], &None);
    assert_eq!(l.len(), 4);
    assert!(l.iter().all(|l| matches!(l, PipeLine::Run(_))), "no headers");
}

#[test]
fn an_unknown_persisted_grouping_falls_back_to_the_default() {
    let g = apply_pipe_group(PipeGroup::Pipeline, Some("by-phase-of-moon".into()));
    assert_eq!(g, PipeGroup::Pipeline);
    let g = apply_pipe_group(g, Some("branch".into()));
    assert_eq!(g, PipeGroup::Branch);
    let g = apply_pipe_group(g, None);
    assert_eq!(g, PipeGroup::Branch, "None keeps what is already set");
}

#[test]
fn pipeline_grouping_keys_on_the_definition_not_its_display_name() {
    let pipes: Vec<PipeRow> = (1..=3)
        .map(|n| {
            let mut r = grouped_row("build", "nz/app", "main", &format!("sha{n}"), "2026-09-24T10:00:00Z", PipelineRunStatus::Succeeded);
            r.definition_name = None;
            r.run.name = Some(format!("20260924.{n}"));
            r
        })
        .collect();
    assert_eq!(heads(&pipes, PipeGroup::Pipeline, &None).len(), 1, "three runs of one definition are one group");
    assert_eq!(heads(&pipes, PipeGroup::Pipeline, &None)[0].1, 3);
}

#[test]
fn two_definitions_sharing_a_name_stay_apart() {
    let mut a = grouped_row("CI", "nz/app", "main", "aaa", "2026-09-24T10:00:00Z", PipelineRunStatus::Succeeded);
    let mut b = grouped_row("CI", "nz/app", "main", "bbb", "2026-09-24T09:00:00Z", PipelineRunStatus::Succeeded);
    a.run.definition_id = "111".into();
    b.run.definition_id = "222".into();
    assert_eq!(heads(&[a, b], PipeGroup::Pipeline, &None).len(), 2, "same name, different workflows");
}

#[test]
fn trigger_headers_stay_distinct_without_a_commit() {
    let pipes = vec![
        grouped_row("CI", "nz/app", "main", "", "2026-09-24T10:00:00Z", PipelineRunStatus::Succeeded),
        grouped_row("CI", "nz/app", "main", "", "2026-09-24T12:00:00Z", PipelineRunStatus::Succeeded),
    ];
    let cells: Vec<(String, String)> = head_cells(&pipes, PipeGroup::Trigger).into_iter().map(|(s, c, _, _)| (s, c)).collect();
    assert_eq!(cells.len(), 2, "two triggers");
    assert_eq!(cells[0].0, cells[1].0, "same branch, so the same subject");
    assert_ne!(cells[0].1, cells[1].1, "told apart by the commit cell: {cells:?}");
    assert!(cells[0].1.starts_with('~'), "marked as a time, not a sha: {:?}", cells[0].1);
}

#[test]
fn a_group_that_returns_after_a_refresh_is_collapsed_again() {
    let pipes = fanned_out();
    let rows = filtered_pipe_indices(&pipes, "", &None);
    let mut expanded: Vec<String> = vec![];
    set_all_pipe_groups(&mut expanded, &pipes, &rows, PipeGroup::Pipeline, true);
    assert!(lines(&pipes, PipeGroup::Pipeline, &expanded, &None).len() > 3, "expanded");
    // The section comes back empty, then returns.
    prune_pipe_expanded(&mut expanded, &[], PipeGroup::Pipeline);
    assert!(expanded.is_empty(), "stale keys dropped");
    assert_eq!(lines(&pipes, PipeGroup::Pipeline, &expanded, &None).len(), 3, "the returning groups are closed");
}

#[test]
fn sorting_by_repository_orders_the_groups_alphabetically() {
    let pipes = vec![
        grouped_row("CI", "nz/zebra", "main", "aaa", "2026-09-24T12:00:00Z", S),
        grouped_row("CI", "nz/apple", "main", "bbb", "2026-09-24T11:00:00Z", S),
        grouped_row("Release", "nz/mango", "main", "ccc", "2026-09-24T10:00:00Z", S),
    ];
    assert_eq!(
        heads(&pipes, PipeGroup::Pipeline, &None).into_iter().map(|(s, _, _)| s).collect::<Vec<_>>(),
        vec!["CI", "CI", "Release"],
        "ungrouped-by-repo default is by recency"
    );
    let repos = |sort: &Option<SortPref>| {
        lines(&pipes, PipeGroup::Pipeline, &vec![], sort)
            .into_iter()
            .filter_map(|l| match l {
                PipeLine::Head(h) => Some(h.repo),
                PipeLine::Run(_) => None,
            })
            .collect::<Vec<_>>()
    };
    assert_eq!(repos(&Some(SortPref { key: "repository".into(), desc: false })), vec!["nz/apple", "nz/mango", "nz/zebra"], "A→Z");
    assert_eq!(repos(&Some(SortPref { key: "repository".into(), desc: true })), vec!["nz/zebra", "nz/mango", "nz/apple"], "and Z→A");
}

#[test]
fn a_sort_orders_the_groups_by_what_their_headers_show() {
    let pipes = vec![
        grouped_row("CI", "nz/app", "zulu", "aaa", "2026-09-24T10:00:00Z", S),
        grouped_row("CI", "nz/app", "alpha", "bbb", "2026-09-24T09:00:00Z", S),
        grouped_row("Release", "nz/app", "main", "ccc", "2026-09-24T12:00:00Z", S),
    ];
    let sort = Some(SortPref { key: "branch".into(), desc: false });
    let rows = filtered_pipe_indices(&pipes, "", &sort);
    let mut expanded = vec![];
    set_all_pipe_groups(&mut expanded, &pipes, &rows, PipeGroup::Pipeline, true);
    let subjects: Vec<String> = pipe_lines(&pipes, rows, PipeGroup::Pipeline, &expanded, &sort)
        .into_iter()
        .map(|l| match l {
            PipeLine::Head(h) => h.subject,
            PipeLine::Run(i) => pipe_child_subject(PipeGroup::Pipeline, &pipes[i]),
        })
        .collect();
    assert_eq!(subjects, vec!["Release", "main", "CI", "alpha", "zulu"]);
}

#[test]
fn collapsing_everything_leaves_only_headers() {
    let pipes = fanned_out();
    let rows = filtered_pipe_indices(&pipes, "", &None);
    let mut expanded = vec![];
    set_all_pipe_groups(&mut expanded, &pipes, &rows, PipeGroup::Pipeline, true);
    assert_eq!(lines(&pipes, PipeGroup::Pipeline, &expanded, &None).len(), 7, "three headers + four runs");
    set_all_pipe_groups(&mut expanded, &pipes, &rows, PipeGroup::Pipeline, false);
    assert_eq!(lines(&pipes, PipeGroup::Pipeline, &expanded, &None).len(), 3);
}

#[test]
fn every_grouping_shows_the_same_runs_once() {
    let pipes = fanned_out();
    for g in [PipeGroup::Pipeline, PipeGroup::Trigger, PipeGroup::Branch, PipeGroup::Off] {
        let rows = filtered_pipe_indices(&pipes, "", &None);
        let mut expanded = vec![];
        set_all_pipe_groups(&mut expanded, &pipes, &rows, g, true);
        let mut runs: Vec<usize> = pipe_lines(&pipes, rows, g, &expanded, &None)
            .into_iter()
            .filter_map(|l| match l {
                PipeLine::Run(i) => Some(i),
                PipeLine::Head(_) => None,
            })
            .collect();
        runs.sort();
        assert_eq!(runs, vec![0, 1, 2, 3], "{g:?}");
    }
}

#[test]
fn notifies_only_on_new_pipeline_failures() {
    let row = |id: &str, status: PipelineRunStatus| {
        let mut r = run(id);
        r.number = Some(1);
        r.name = Some("CI".into());
        r.status = status;
        r.branch = Some("main".into());
        PipeRow { connection_id: "c".into(), connection: "GH".into(), provider: "github".into(), definition_name: None, awaiting_approval: false, run: r }
    };
    let pipes = vec![row("a", PipelineRunStatus::Failed), row("b", PipelineRunStatus::Succeeded), row("c", PipelineRunStatus::Failed)];
    let ids = |v: Vec<&PipeRow>| v.iter().map(|r| r.run.id.clone()).collect::<Vec<_>>();
    assert_eq!(ids(new_pipeline_failures(&vec![], &pipes)), vec!["a", "c"]);
    let prev = vec![("a".to_string(), PipelineRunStatus::Failed), ("c".to_string(), PipelineRunStatus::Running)];
    assert_eq!(ids(new_pipeline_failures(&prev, &pipes)), vec!["c"]);
}

#[test]
fn detects_only_newly_pending_approvals() {
    let row = |id: &str, awaiting: bool| PipeRow {
        connection_id: "c".into(),
        connection: "GH".into(),
        provider: "github".into(),
        definition_name: None,
        awaiting_approval: awaiting,
        run: run(id),
    };
    let pipes = vec![row("a", true), row("b", false), row("c", true)];
    let ids = |v: Vec<&PipeRow>| v.iter().map(|r| r.run.id.clone()).collect::<Vec<_>>();
    assert_eq!(ids(new_pending_approvals(&vec![], &pipes)), vec!["a", "c"]);
    let prev = vec![("c".to_string(), "a".to_string())];
    assert_eq!(ids(new_pending_approvals(&prev, &pipes)), vec!["c"]);
}

#[test]
fn labels_name_the_run_once() {
    let mut r = grouped_row("CI", "nz/app", "main", "aaa", "", PipelineRunStatus::Succeeded);
    r.run.number = Some(9902);
    assert_eq!(pipe_label(&r), "CI #9902");
    r.run.name = Some("#9902".into());
    assert_eq!(pipe_label(&r), "#9902 #9902");
    assert_eq!(run_label(&r.run), "#9902", "the number is not said twice");
    r.run.name = Some("Nightly".into());
    assert_eq!(run_label(&r.run), "Nightly #9902");
    r.run.name = Some("   ".into());
    assert_eq!(run_label(&r.run), "#9902", "a blank name is no name");
    r.run.number = None;
    assert_eq!(run_label(&r.run), "run CI-aaa");
    r.run.name = Some("Nightly".into());
    assert_eq!(run_label(&r.run), "Nightly");
}

#[test]
fn definition_branch_and_trigger_cells_fall_back() {
    let mut r = grouped_row("CI", "nz/app", "", "", "2026-09-24T10:00:30Z", PipelineRunStatus::Succeeded);
    assert_eq!(pipe_definition_name(&r), "CI");
    r.definition_name = None;
    r.run.name = Some("20260924.1".into());
    assert_eq!(pipe_definition_name(&r), "20260924.1");
    r.run.name = None;
    assert_eq!(pipe_definition_name(&r), "CI");
    assert_eq!(pipe_branch_label(&r), "(no branch)");
    assert_eq!(pipe_trigger_token(&r), "2026-09-24T10:00");
    r.run.commit_sha = Some("abc1234".into());
    assert_eq!(pipe_trigger_token(&r), "abc1234");
    r.run.commit_sha = None;
    r.run.started_at = None;
    assert_eq!(pipe_trigger_token(&r), "CI-");
    assert_eq!(pipe_group_key(PipeGroup::Branch, &r), "c\u{1}nz/app\u{1}");
    assert_eq!(pipe_group_key(PipeGroup::Off, &r), "");
}

#[test]
fn the_quick_filter_searches_every_visible_cell() {
    let r = grouped_row("Integration", "magna/forgetop", "feat/x", "aaa", "", PipelineRunStatus::Failed);
    assert!(pipe_matches(&r, ""));
    assert!(pipe_matches(&r, "forgetop"));
    assert!(pipe_matches(&r, "integration failed"));
    assert!(pipe_matches(&r, "github gh feat/x"));
    assert!(!pipe_matches(&r, "integration passed"));
}

#[test]
fn the_subject_heading_names_what_the_column_holds() {
    assert_eq!(pipe_subject_heading(PipeGroup::Off, true), "Pipeline");
    assert_eq!(pipe_subject_heading(PipeGroup::Pipeline, false), "Pipeline");
    assert_eq!(pipe_subject_heading(PipeGroup::Pipeline, true), "Pipeline / Branch");
    assert_eq!(pipe_subject_heading(PipeGroup::Trigger, false), "Branch");
    assert_eq!(pipe_subject_heading(PipeGroup::Branch, true), "Branch / Pipeline");
}

#[test]
fn group_modes_round_trip_and_cycle() {
    for g in [PipeGroup::Pipeline, PipeGroup::Trigger, PipeGroup::Branch, PipeGroup::Off] {
        assert_eq!(PipeGroup::parse(g.as_str()), g);
        assert_eq!(g.next().next().next().next(), g);
        assert_ne!(g.next(), g);
    }
    assert_eq!(PipeGroup::Pipeline.next(), PipeGroup::Trigger);
    assert_eq!(PipeGroup::Branch.next(), PipeGroup::Off);
}

#[test]
fn a_failed_approvals_call_is_not_read_as_no_gate() {
    let gate = |can: bool| PipelineApproval { id: "g".into(), name: "prod".into(), can_respond: can };
    assert_eq!(gate_from_approvals(None), (false, false));
    assert_eq!(gate_from_approvals(Some(vec![])), (false, true));
    assert_eq!(gate_from_approvals(Some(vec![gate(false)])), (false, true));
    assert_eq!(gate_from_approvals(Some(vec![gate(false), gate(true)])), (true, true));
}

#[test]
fn log_fetch_keys_separate_their_parts() {
    assert_eq!(log_fetch_key("c", "r", "j"), "c\u{1f}r\u{1f}j");
    assert_ne!(log_fetch_key("c", "r1", "j"), log_fetch_key("c", "r", "1j"));
}

#[test]
fn run_matching_compares_the_statuses_a_revalidation_moves() {
    let job = |s: PipelineRunStatus| PipelineJob {
        id: "j".into(),
        name: "j".into(),
        status: s,
        started_at: None,
        finished_at: None,
        steps: vec![],
        url: None,
        problem: None,
    };
    let with = |s: PipelineRunStatus| {
        let mut r = run("r");
        r.stages = vec![PipelineStage { name: "s".into(), status: PipelineRunStatus::Running, jobs: vec![job(s)] }];
        r
    };
    assert!(pipeline_run_matches(&with(PipelineRunStatus::Running), &with(PipelineRunStatus::Running)));
    assert!(!pipeline_run_matches(&with(PipelineRunStatus::Running), &with(PipelineRunStatus::Failed)));
    let mut other = with(PipelineRunStatus::Running);
    other.url = Some("http://x".into());
    assert!(pipeline_run_matches(&with(PipelineRunStatus::Running), &other), "links are not compared");
    assert!(!pipeline_run_matches(&with(PipelineRunStatus::Running), &run("r")));
}

/// Enter on a header must not open a drill-in — there is no single run to open.
#[test]
fn the_cursor_on_a_header_selects_no_run() {
    let pipes = fanned_out();
    let mut expanded: Vec<String> = vec![];
    let all = lines(&pipes, PipeGroup::Pipeline, &expanded, &None);
    assert!(selected_pipe(2, Some(0), &all, &pipes).is_none(), "a header is not a run");

    let key = match &all[0] {
        PipeLine::Head(h) => h.key.clone(),
        PipeLine::Run(_) => panic!("header"),
    };
    toggle_pipe_group(&mut expanded, &key);
    let now = lines(&pipes, PipeGroup::Pipeline, &expanded, &None);
    assert!(selected_pipe(2, Some(1), &now, &pipes).is_some(), "the first child is a run");
}

#[test]
fn a_header_acts_and_previews_through_its_newest_run() {
    let old = grouped_row("CI", "nz/app", "main", "old", "2026-09-24T09:00:00Z", S);
    let new = grouped_row("CI", "nz/app", "main", "new", "2026-09-24T11:00:00Z", S);
    let pipes = vec![old, new];
    let rows = filtered_pipe_indices(&pipes, "", &None);
    let all = pipe_lines(&pipes, rows.clone(), PipeGroup::Pipeline, &vec![], &None);
    assert!(selected_pipe(2, Some(0), &all, &pipes).is_none(), "Enter still treats a header as a header");
    assert_eq!(pipe_for_action(2, Some(0), &all, &pipes, &rows, PipeGroup::Pipeline), Some(1), "newest run");
    assert_eq!(preview_pipe(2, Some(0), &all, &pipes), Some(1), "the preview shows the run the header describes");
    assert_eq!(pipe_for_action(1, Some(0), &all, &pipes, &rows, PipeGroup::Pipeline), None, "only on the Pipelines list");
    assert_eq!(pipe_for_action(2, Some(5), &all, &pipes, &rows, PipeGroup::Pipeline), None, "past the last line");
    assert_eq!(pipe_for_action(2, None, &all, &pipes, &rows, PipeGroup::Pipeline), None);

    let flat = pipe_lines(&pipes, rows.clone(), PipeGroup::Off, &vec![], &None);
    assert_eq!(selected_pipe(2, Some(1), &flat, &pipes), Some(rows[1]), "ungrouped, each line is a run");
    assert_eq!(pipe_for_action(2, Some(1), &flat, &pipes, &rows, PipeGroup::Off), Some(rows[1]));
}

#[test]
fn clearing_a_decided_run_unbadges_only_its_rows() {
    let mut rows = vec![grouped_row("CI", "nz/app", "main", "aaa", "", Succeeded), grouped_row("CI", "nz/app", "main", "bbb", "", Succeeded)];
    rows[0].awaiting_approval = true;
    rows[1].awaiting_approval = true;
    clear_awaiting(&mut rows, "c", "CI-aaa");
    assert!(!rows[0].awaiting_approval);
    assert!(rows[1].awaiting_approval);
    clear_awaiting(&mut rows, "other", "CI-bbb");
    assert!(rows[1].awaiting_approval, "the connection must match too");
}

#[test]
fn a_failure_or_a_waiting_run_is_reported_once_and_the_first_refresh_seeds() {
    let row = |id: &str, status: PipelineRunStatus, awaiting: bool| {
        let mut r = run(id);
        r.status = status;
        PipeRow { connection_id: "c".into(), connection: "GH".into(), provider: "github".into(), definition_name: None, awaiting_approval: awaiting, run: r }
    };
    let mut w = PipeWatch::new();
    let pipes = vec![row("a", PipelineRunStatus::Failed, true)];
    assert!(w.failures(true, &pipes).is_empty(), "first refresh seeds silently");
    assert!(w.approvals(true, &pipes).is_empty());
    assert!(w.pipe_seeded && w.approval_seeded);
    let pipes = vec![row("a", PipelineRunStatus::Failed, true), row("b", PipelineRunStatus::Failed, true)];
    assert_eq!(w.failures(true, &pipes).iter().map(|r| r.run.id.as_str()).collect::<Vec<_>>(), ["b"]);
    assert_eq!(w.approvals(true, &pipes).iter().map(|r| r.run.id.as_str()).collect::<Vec<_>>(), ["b"]);
    assert!(w.failures(true, &pipes).is_empty(), "already-seen failures don't re-notify");
    assert!(w.approvals(true, &pipes).is_empty(), "the same pending gate isn't re-notified");
    let pipes = vec![row("c", PipelineRunStatus::Failed, false)];
    assert!(w.failures(false, &pipes).is_empty(), "pref off suppresses the notification");
    w.reseed();
    assert!(!w.pipe_seeded && !w.approval_seeded);
}

#[test]
fn collapsing_everything_pulls_the_cursor_back_into_range() {
    let pipes = fanned_out();
    let rows = filtered_pipe_indices(&pipes, "", &None);
    let mut expanded = vec![];
    let mut nav = forgetop_tui::tabs::Navigation::new();
    nav.active = 2;
    set_all_pipe_groups(&mut expanded, &pipes, &rows, PipeGroup::Pipeline, true);
    let all = lines(&pipes, PipeGroup::Pipeline, &expanded, &None).len();
    assert_eq!(all, 7, "three headers + four runs");
    nav.sel[2] = Some(all - 1);

    set_all_pipe_groups(&mut expanded, &pipes, &rows, PipeGroup::Pipeline, false);
    let shown = lines(&pipes, PipeGroup::Pipeline, &expanded, &None).len();
    assert_eq!(shown, 3);
    nav.clamp_selection(shown);
    assert_eq!(nav.selected(), Some(2), "cursor clamped to the last header");
}
