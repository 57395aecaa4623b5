use forgetop_tui::actions::{context_actions, pipeline_facts, runnable_keys, ScreenFacts};
use forgetop_tui::keys::Key;
use forgetop_tui::logs::LogView;
use forgetop_tui::pipeline::{PipelineApproval, PipelineRun, PipelineRunStatus, PipelineView};

fn pr_screen(merged: bool) -> ScreenFacts {
    ScreenFacts::PrView { merged, tab: 0, patch_focus: false, pending: false, has_commits: true, has_url: true }
}

fn keys_of(f: &ScreenFacts, preview_focus: bool) -> Vec<Key> {
    context_actions(f, preview_focus).into_iter().map(|(_, k)| k).collect()
}

#[test]
fn context_actions_follow_the_pr_views_own_conditions() {
    let keys = keys_of(&pr_screen(false), false);
    for k in ['a', 'x', 'm', 'c', 'r', 'o'] {
        assert!(keys.contains(&Key::Char(k)), "open PR offers {k}");
    }
    assert!(!keys.contains(&Key::Char('R')), "no revert on an open PR");
    assert!(!keys.contains(&Key::Char('s')), "no submit without pending comments");
    assert!(!keys.contains(&Key::Char('v')), "diff-only keys only on the Diff tab");

    let keys = keys_of(&pr_screen(true), false);
    assert!(keys.contains(&Key::Char('R')));
    assert!(!keys.contains(&Key::Char('a')) && !keys.contains(&Key::Char('m')), "a merged PR can't be approved or merged");
}

#[test]
fn the_diff_tab_offers_its_line_keys() {
    let f = ScreenFacts::PrView { merged: false, tab: 3, patch_focus: true, pending: true, has_commits: false, has_url: false };
    let entries = context_actions(&f, false);
    assert!(entries.iter().any(|(l, k)| *l == "Comment on this line" && *k == Key::Char('c')));
    assert!(entries.iter().any(|(_, k)| *k == Key::Char('s')), "pending comments can be submitted");
    assert!(!entries.iter().any(|(_, k)| *k == Key::Enter), "already on a line");
    assert!(entries.iter().any(|(_, k)| *k == Key::Char(']')));
}

#[test]
fn a_list_offers_saved_view_keys_only_with_several_views() {
    let one = ScreenFacts::List { section: 2, filter_active: true, saved_views: 1, has_selection: false, has_preview: false };
    let keys = keys_of(&one, false);
    assert_eq!(keys[0], Key::Escape, "an active filter can be cleared first");
    assert!(keys.contains(&Key::Char('G')) && keys.contains(&Key::Char('z')), "pipelines can be regrouped");
    assert!(!keys.contains(&Key::Char('[')) && !keys.contains(&Key::Char('X')));
    let many = ScreenFacts::List { section: 0, filter_active: false, saved_views: 3, has_selection: true, has_preview: true };
    let keys = keys_of(&many, true);
    assert!(keys.contains(&Key::Char('[')) && keys.contains(&Key::Char(']')) && keys.contains(&Key::Char('X')));
    assert!(keys.contains(&Key::Char('o')) && keys.contains(&Key::Char('p')));
    assert_eq!(keys.iter().filter(|k| **k == Key::Char('P')).count(), 1, "a list adds no back-to-list entries");
}

#[test]
fn the_drill_in_offers_log_keys_while_the_pane_has_them() {
    let run = PipelineRun {
        repository: None,
        id: "r".into(),
        definition_id: "ci".into(),
        number: None,
        name: None,
        title: None,
        status: PipelineRunStatus::Running,
        triggered_by: None,
        branch: None,
        commit_sha: None,
        started_at: None,
        finished_at: None,
        url: None,
        stages: vec![],
    };
    let mut v = PipelineView::new("CI".into(), run, "c".into(), "github".into(), "ci".into(), None);
    v.can_respond_approvals = true;
    v.approvals = vec![PipelineApproval { id: "g".into(), name: "prod".into(), can_respond: true }];
    let keys = keys_of(&pipeline_facts(&v, false), false);
    assert!(keys.contains(&Key::Char('L')) && keys.contains(&Key::Char('X')) && keys.contains(&Key::Char('A')));
    v.logs = Some(LogView::with_lines("Logs", "j", vec![]));
    let keys = keys_of(&pipeline_facts(&v, false), true);
    assert!(keys.contains(&Key::Char('/')) && keys.contains(&Key::Escape) && keys.contains(&Key::Char('w')));
    assert!(!keys.contains(&Key::Char('n')), "no search yet");
    assert!(keys.ends_with(&[Key::Char('p'), Key::Char('P')]), "a focused preview can go back to the list");
}

#[test]
fn other_screens_list_their_own_keys() {
    assert_eq!(keys_of(&ScreenFacts::Launchpad { entry_selected: true }, false)[0], Key::Char('D'));
    assert_eq!(keys_of(&ScreenFacts::Inbox { row_url: None }, false), vec![Key::Char('r')]);
    assert_eq!(keys_of(&ScreenFacts::Inbox { row_url: Some(true) }, false).len(), 4);
    assert_eq!(keys_of(&ScreenFacts::Config { has_connection: true }, false).last(), Some(&Key::Char('x')));
    assert_eq!(keys_of(&ScreenFacts::WiView { has_url: false }, false).len(), 4);
}

#[test]
fn a_help_sections_keys_run_only_on_the_screen_it_describes() {
    let pr = pr_screen(false);
    // The global Refresh `r` must not run in a PR view, where `r` replies.
    let global_in_pr = runnable_keys("Global", &pr, false);
    assert!(!global_in_pr.contains(&Key::Char('r')));
    assert!(global_in_pr.contains(&Key::Ctrl('k')), "the palette's own row still runs");
    assert!(!global_in_pr.contains(&Key::Char('i')), "the inbox opens from a list or the Launchpad");

    let list = ScreenFacts::List { section: 0, filter_active: false, saved_views: 3, has_selection: true, has_preview: false };
    let global_in_list = runnable_keys("Global", &list, false);
    assert!(global_in_list.contains(&Key::Char('r')));
    assert!(global_in_list.contains(&Key::Char('i')));
    assert!(global_in_list.contains(&Key::Char('n')));
    assert_eq!(runnable_keys("PR view (after Enter)", &pr, false), keys_of(&pr, false));
    assert!(runnable_keys("Work Items (list)", &list, false).is_empty(), "the work-item section on the PR list");
    assert!(runnable_keys("nonsense", &list, false).is_empty());
}
