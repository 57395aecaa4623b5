use forgetop_tui::drill::{DrillAction, LogPump};
use forgetop_tui::keys::Key;
use forgetop_tui::logs::{
    cap_tail, find_matches, first_error_line, is_error_line, match_ranges, next_match_index, LogView, LOG_MAX_LINES,
    LOG_POLL_TICKS,
};
use forgetop_tui::pipeline::{PipelineJob, PipelineRun, PipelineRunStatus, PipelineStage, PipelineStep, PipelineView};

fn lines(v: &[&str]) -> Vec<String> {
    v.iter().map(|l| l.to_string()).collect()
}

fn pipeline_run(id: &str, status: PipelineRunStatus, stages: Vec<PipelineStage>) -> PipelineRun {
    PipelineRun {
        repository: None,
        id: id.into(),
        definition_id: "ci".into(),
        number: Some(1),
        name: Some("CI".into()),
        title: None,
        status,
        triggered_by: None,
        branch: Some("main".into()),
        commit_sha: None,
        started_at: None,
        finished_at: None,
        url: None,
        stages,
    }
}

fn pipeline_stage(name: &str, status: PipelineRunStatus, jobs: Vec<PipelineJob>) -> PipelineStage {
    PipelineStage { name: name.into(), status, jobs }
}

fn pipeline_job(id: &str, status: PipelineRunStatus) -> PipelineJob {
    PipelineJob { id: id.into(), name: id.into(), status, started_at: None, finished_at: None, steps: vec![], url: None, problem: None }
}

/// A drill-in on a one-job run whose pane shows `log`, with the keys on the pane.
fn log_view(log: LogView, status: PipelineRunStatus) -> PipelineView {
    let run = pipeline_run("1", status, vec![pipeline_stage("build", status, vec![pipeline_job("j1", status)])]);
    let mut view = PipelineView::new("CI".into(), run, "c".into(), "github".into(), "ci".into(), None);
    view.logs = Some(log);
    view
}

fn open_log(v: &PipelineView) -> &LogView {
    v.logs.as_ref().expect("log pane open")
}

#[test]
fn error_line_matcher_catches_failures_and_skips_zero_counts() {
    for line in [
        "##[error]Process completed with exit code 1.",
        "  [FAIL] MyTests.Adds",
        "Build FAILED.",
        "error: could not compile `app`",
        "error[E0308]: mismatched types",
        "[ERROR] Failed to execute goal",
        "Error: Cannot find module 'x'",
        "Process completed with exit code 2.",
        "container exited with code 137",
        "npm ERR! code ELIFECYCLE",
        "Failed!  - Failed: 1, Passed: 97, Skipped: 0",
        "Tests Failed: 3",
        "FAIL src/cart.test.ts",
    ] {
        assert!(is_error_line(line), "should match: {line}");
    }
    for line in [
        "Build succeeded. 0 errors, 0 warnings",
        "Failed: 0, Passed: 12, Skipped: 0",
        "Process completed with exit code 0.",
        "exited with code 0",
        "0 FAILED",
        "ERROR: 0",
        "handle_error(x)",
        "TERRORS",
        "no errors here",
        "Passed!  - Failed: 0, Passed: 212, Skipped: 0",
        "Retrying: Failed to reach host, attempt 2",
        "PASS src/cart.test.ts",
    ] {
        assert!(!is_error_line(line), "should not match: {line}");
    }
}

#[test]
fn first_error_line_finds_the_first_match_or_none() {
    assert_eq!(first_error_line(&lines(&["ok", "0 errors", "error: boom", "FAILED"])), Some(2));
    assert_eq!(first_error_line(&lines(&["ok", "fine"])), None);
    assert_eq!(first_error_line(&[]), None);
}

#[test]
fn search_steps_through_matches_with_wraparound() {
    assert_eq!(next_match_index(0, None, true), None);
    assert_eq!(next_match_index(3, None, true), Some(0));
    assert_eq!(next_match_index(3, None, false), Some(2));
    assert_eq!(next_match_index(3, Some(2), true), Some(0), "wraps forward");
    assert_eq!(next_match_index(3, Some(0), false), Some(2), "wraps backward");

    let mut log = LogView::with_lines("Logs", "j1", lines(&["a", "Failed one", "b", "FAILED two", "c", "failed three"]));
    log.search_input = Some("failed".into());
    log.commit_search();
    assert_eq!(log.matches, vec![1, 3, 5], "case-insensitive");
    assert_eq!(log.match_idx, Some(0));
    log.step_match(true);
    log.step_match(true);
    assert_eq!(log.match_idx, Some(2));
    log.step_match(true);
    assert_eq!(log.match_idx, Some(0), "n wraps to the first match");
    log.step_match(false);
    assert_eq!(log.match_idx, Some(2), "N wraps to the last match");
    assert_eq!(match_ranges("a FaIlEd b failed", "failed"), vec![(2, 8), (11, 17)]);
}

#[test]
fn new_lines_keep_the_current_match_and_the_line_cap_keeps_the_tail() {
    let (kept, dropped) = cap_tail((0..12).map(|i| i.to_string()).collect(), 10);
    assert_eq!(dropped, 2);
    assert_eq!(kept.first().map(String::as_str), Some("2"), "the head is dropped");
    assert_eq!(kept.last().map(String::as_str), Some("11"), "the tail is kept");

    let mut log = LogView::with_lines("Logs", "j1", lines(&["x hit", "y", "z hit"]));
    log.query = Some("hit".into());
    log.recompute_matches();
    log.step_match(true);
    log.step_match(true);
    assert_eq!(log.match_idx, Some(1));
    log.set_text("x hit\ny\nz hit\nw hit");
    assert_eq!(log.matches, vec![0, 2, 3]);
    assert_eq!(log.match_idx, Some(1), "still on `z hit` after new lines arrive");

    let big: String = (0..LOG_MAX_LINES + 5).map(|i| format!("line {i}\n")).collect();
    log.set_text(&big);
    assert_eq!(log.lines.len(), LOG_MAX_LINES);
    assert_eq!(log.lines.last().map(String::as_str), Some(format!("line {}", LOG_MAX_LINES + 4).as_str()));
}

#[test]
fn scrolling_up_or_jumping_turns_follow_off_and_end_turns_it_on() {
    let many: Vec<String> = (0..100).map(|i| if i == 40 { "error: boom".into() } else { format!("l{i}") }).collect();
    let mut v = log_view(LogView::with_lines("Logs", "j1", many), PipelineRunStatus::Running);
    {
        let log = v.logs.as_mut().unwrap();
        log.viewport = 10;
        log.follow = true;
    }
    assert_eq!(open_log(&v).effective_scroll(), 90, "following pins the view to the bottom");
    v.on_logs_key(Key::Up);
    assert!(!open_log(&v).follow, "scrolling up stops following");
    assert_eq!(open_log(&v).effective_scroll(), 89);
    v.on_logs_key(Key::Char('G'));
    assert!(open_log(&v).follow, "G follows again");
    v.on_logs_key(Key::Char('E'));
    assert!(!open_log(&v).follow, "E stops following");
    assert_eq!(open_log(&v).effective_scroll(), 38, "the error line with two lines of context above");
    assert_eq!(open_log(&v).note.as_deref(), Some("first error at line 41"));
    v.on_logs_key(Key::End);
    v.on_logs_key(Key::Char('/'));
    for c in "l7".chars() {
        v.on_logs_key(Key::Char(c));
    }
    v.on_logs_key(Key::Enter);
    assert!(!open_log(&v).follow, "a search jump stops following");
    v.on_logs_key(Key::Char('f'));
    assert!(open_log(&v).follow, "f toggles follow back on");
    v.on_logs_key(Key::Char('n'));
    assert!(!open_log(&v).follow, "n stops following");
    v.on_logs_key(Key::Home);
    assert_eq!(open_log(&v).effective_scroll(), 0);

    // Nothing to scroll must not panic.
    let mut log = LogView::with_lines("Logs", "j1", vec![]);
    log.scroll_by(-5);
    log.scroll_by(5);
    log.jump_first_error();
    log.step_match(true);
    assert_eq!(log.effective_scroll(), 0);
    assert_eq!(log.note.as_deref(), Some("no errors found"));
}

#[test]
fn polling_is_requested_only_while_the_job_is_active() {
    let mut live = LogView::with_lines("Logs", "j1", vec![]);
    live.live = true;
    let polls = (0..LOG_POLL_TICKS * 2).filter(|_| live.poll_step(true)).count();
    assert_eq!(polls, 2, "one poll per interval while live");
    assert!(live.poll_step(false), "one final fetch once the job finishes, for the full tail");
    assert!(!(0..LOG_POLL_TICKS * 3).any(|_| live.poll_step(false)), "then never again");

    let mut done = LogView::with_lines("Logs", "j1", vec![]);
    assert!(!(0..LOG_POLL_TICKS * 3).any(|_| done.poll_step(false)), "a finished job is never polled");

    let mut loading = LogView::new("Logs".into(), "j1".into(), true);
    assert!(!(0..LOG_POLL_TICKS * 3).any(|_| loading.poll_step(true)), "no poll before the first fetch lands");

    // The drill-in's job status drives it.
    assert!(log_view(LogView::with_lines("Logs", "j1", vec![]), PipelineRunStatus::Running).log_target_active());
    assert!(!log_view(LogView::with_lines("Logs", "j1", vec![]), PipelineRunStatus::Failed).log_target_active());
}

#[test]
fn a_log_answer_for_another_job_or_run_is_dropped() {
    let mut pump = LogPump::new();
    let mut v = log_view(LogView::new("Logs".into(), "j1".into(), true), PipelineRunStatus::Running);
    assert!(pump.land(&mut v, true, "c", "1", "j2", Ok("other job".into())).is_none());
    pump.land(&mut v, true, "c", "2", "j1", Ok("other run".into()));
    pump.land(&mut v, true, "other", "1", "j1", Ok("other connection".into()));
    assert!(!open_log(&v).loaded, "no stale answer lands");
    pump.land(&mut v, true, "c", "1", "j1", Ok("mine".into()));
    assert_eq!(open_log(&v).lines, lines(&["mine"]));

    // A failed poll keeps the last good lines and says so quietly.
    let toast = pump.land(&mut v, true, "c", "1", "j1", Err("timeout".into()));
    assert_eq!(open_log(&v).lines, lines(&["mine"]));
    assert!(open_log(&v).fetch_failed);
    assert!(toast.is_none(), "a failed poll doesn't toast");

    // A failed first fetch closes the pane with a toast, as opening always did.
    let mut v = log_view(LogView::new("Logs".into(), "j1".into(), true), PipelineRunStatus::Running);
    let toast = pump.land(&mut v, true, "c", "1", "j1", Err("nope".into()));
    assert!(v.logs.is_none());
    assert!(toast.as_deref().is_some_and(|t| t.contains("nope")));
}

#[test]
fn tree_moves_retarget_the_log_pane_only_across_jobs() {
    let mut job1 = pipeline_job("j1", PipelineRunStatus::Succeeded);
    job1.steps = vec![PipelineStep { name: "s".into(), status: PipelineRunStatus::Succeeded, started_at: None, finished_at: None }];
    let job2 = pipeline_job("j2", PipelineRunStatus::Running);
    let run = pipeline_run("1", PipelineRunStatus::Running, vec![pipeline_stage("build", PipelineRunStatus::Running, vec![job1, job2])]);
    let mut v = PipelineView::new("CI".into(), run, "c".into(), "github".into(), "ci".into(), None);
    v.on_screen_key(Key::Down); // → job j1
    v.on_screen_key(Key::Char('L'));
    assert_eq!(open_log(&v).job_id, "j1");
    assert!(!open_log(&v).follow, "a finished job doesn't follow");
    v.on_screen_key(Key::Char('w')); // keys to the tree
    v.logs.as_mut().unwrap().loaded = true;
    v.on_screen_key(Key::Down); // → j1's step: same job, pane untouched
    assert!(open_log(&v).loaded, "a step of the same job doesn't refetch");
    v.on_screen_key(Key::Down); // → job j2
    assert_eq!(open_log(&v).job_id, "j2");
    assert!(!open_log(&v).loaded && open_log(&v).follow, "a new, live job loads and follows");
    assert!(matches!(v.on_screen_key(Key::Escape), DrillAction::Stay), "Esc from the tree closes the logs, not the view");
    assert!(v.logs.is_none());
}

#[test]
fn the_pump_sends_one_fetch_at_a_time_and_gives_up_on_a_silent_one() {
    let mut pump = LogPump::new();
    let mut v = log_view(LogView::new("Logs".into(), "j1".into(), true), PipelineRunStatus::Running);
    let f = pump.next_fetch(&mut v).expect("the new pane asks for its first fetch");
    assert_eq!((f.conn_id.as_str(), f.run_id.as_str(), f.job_id.as_str()), ("c", "1", "j1"));
    assert!(!open_log(&v).want_fetch);
    v.logs.as_mut().unwrap().want_fetch = true;
    assert!(pump.next_fetch(&mut v).is_none(), "one in flight at a time");
    for _ in 0..forgetop_tui::logs::LOG_INFLIGHT_TIMEOUT_TICKS {
        pump.tick();
    }
    assert!(pump.inflight.is_none(), "a fetch that never answers is given up");
    assert!(pump.next_fetch(&mut v).is_some());
    pump.land(&mut v, true, "c", "1", "j1", Ok("x".into()));
    assert!(pump.inflight.is_none(), "the answer clears the flight");
}

#[test]
fn matches_and_ranges_follow_the_query_case_insensitively() {
    let ls = lines(&["Alpha beta", "gamma", "BETA beta"]);
    assert_eq!(find_matches(&ls, "beta"), vec![0, 2]);
    assert_eq!(find_matches(&ls, ""), Vec::<usize>::new());
    assert_eq!(match_ranges("BETA beta", "beta"), vec![(0, 4), (5, 9)]);
    assert_eq!(match_ranges("aaaa", "aa"), vec![(0, 2), (2, 4)], "matches don't overlap");
}

#[test]
fn the_n_key_explains_itself_without_a_search() {
    let mut v = log_view(LogView::with_lines("Logs", "j1", lines(&["a"])), PipelineRunStatus::Running);
    assert_eq!(v.on_logs_key(Key::Char('n')).as_deref(), Some("No search yet \u{2014} press / to search the log"));
    v.logs.as_mut().unwrap().query = Some("zzz".into());
    assert_eq!(v.on_logs_key(Key::Char('N')).as_deref(), Some("No matches"));
    v.log_split = false;
    v.log_focus = false;
    assert!(matches!(v.on_screen_key(Key::Char('w')), DrillAction::Toast(_)), "no room for the tree");
    v.log_split = true;
    assert!(matches!(v.on_screen_key(Key::Char('w')), DrillAction::Stay));
    assert!(v.log_focus);
}
