use forgetop_tui::keys::Key;
use forgetop_tui::lists::ReviewVote;
use forgetop_tui::prview::{on_pr_view_key, on_wi_view_key, PrPanes, ViewKeyAction};
use forgetop_tui::review::{DiffFocus, DiffView, FileChange};

fn diff(files: Vec<FileChange>) -> DiffView {
    DiffView {
        pr_label: "PR".into(),
        url: None,
        files,
        selected: 0,
        scroll: 0,
        focus: DiffFocus::FileList,
        cursor: 0,
        commit_label: None,
        viewed: Vec::new(),
    }
}

fn changed(path: &str, patch: Option<&str>) -> FileChange {
    FileChange { path: path.into(), patch: patch.map(Into::into) }
}

fn panes(tab: usize) -> PrPanes {
    PrPanes { tab, scroll: 0, commit_sel: 0, pr_files: vec![], diff: diff(vec![]) }
}

#[test]
fn commit_diff_scope_restores_whole_pr() {
    let mut d = diff(vec![changed("b.rs", Some("@@ -1 +1 @@\n-p\n+q"))]);
    d.selected = 0;
    d.scroll = 5;
    d.focus = DiffFocus::Patch;
    d.cursor = 2;
    d.commit_label = Some("abc1234 msg".into());
    let mut v = PrPanes {
        tab: 3,
        commit_sel: 0,
        pr_files: vec![changed("a.rs", Some("@@ -1 +1 @@\n-x\n+y"))],
        scroll: 0,
        diff: d,
    };

    v.reset_diff_scope();
    assert_eq!(v.diff.commit_label, None, "scope cleared");
    assert_eq!(v.diff.files.len(), 1);
    assert_eq!(v.diff.files[0].path, "a.rs", "whole-PR files restored");
    assert_eq!(v.diff.selected, 0);
    assert_eq!(v.diff.focus, DiffFocus::FileList);
}

#[test]
fn merged_pr_offers_revert_not_merge() {
    // Open PR: `m` asks for the merge, `R` does nothing.
    let mut v = panes(0);
    assert_eq!(on_pr_view_key(&mut v, Key::Char('m'), 0, 0, false, 0), ViewKeyAction::Merge, "an open PR can merge");
    assert_eq!(on_pr_view_key(&mut v, Key::Char('R'), 0, 0, false, 0), ViewKeyAction::Stay, "an open PR has no revert");

    // Merged PR: `m` is inert, `R` asks for the revert.
    assert_eq!(on_pr_view_key(&mut v, Key::Char('m'), 0, 0, true, 0), ViewKeyAction::Stay, "a merged PR can't be merged again");
    assert_eq!(on_pr_view_key(&mut v, Key::Char('R'), 0, 0, true, 0), ViewKeyAction::Revert, "a merged PR reverts");
}

#[test]
fn esc_with_pending_comments_prompts_before_leaving() {
    let mut v = panes(0);
    let a = on_pr_view_key(&mut v, Key::Escape, 0, 1, false, 0);
    assert_eq!(a, ViewKeyAction::PromptPendingExit, "does not leave while comments are unsubmitted");
}

#[test]
fn q_with_pending_comments_prompts_instead_of_leaving() {
    let mut v = panes(0);
    let a = on_pr_view_key(&mut v, Key::Char('q'), 0, 1, false, 0);
    assert_eq!(a, ViewKeyAction::PromptPendingExit);
}

/// `q` is a second spelling of Esc, not a quit: it closes the view it is pressed in.
#[test]
fn q_without_pending_comments_leaves_the_pr_view() {
    let mut v = panes(0);
    assert_eq!(on_pr_view_key(&mut v, Key::Char('q'), 0, 0, false, 0), ViewKeyAction::Leave, "it closes the view instead");
}

#[test]
fn esc_without_pending_leaves_the_pr_view() {
    let mut v = panes(0);
    assert_eq!(on_pr_view_key(&mut v, Key::Escape, 0, 0, false, 0), ViewKeyAction::Leave);
}

#[test]
fn esc_in_the_patch_cursor_steps_back_to_the_file_list() {
    let mut v = panes(3);
    v.diff = diff(vec![changed("a.rs", Some("@@ -1 +1 @@\n-x\n+y"))]);
    assert_eq!(on_pr_view_key(&mut v, Key::Enter, 0, 2, false, 0), ViewKeyAction::Stay);
    assert_eq!(v.diff.focus, DiffFocus::Patch);
    assert_eq!(on_pr_view_key(&mut v, Key::Escape, 0, 2, false, 0), ViewKeyAction::Stay, "not out of the view");
    assert_eq!(v.diff.focus, DiffFocus::FileList);
    assert_eq!(on_pr_view_key(&mut v, Key::Escape, 0, 2, false, 0), ViewKeyAction::PromptPendingExit);
}

#[test]
fn changing_sub_tab_wraps_starts_at_the_top_and_restores_the_whole_diff() {
    let mut v = panes(0);
    v.scroll = 7;
    on_pr_view_key(&mut v, Key::Left, 0, 0, false, 20);
    assert_eq!(v.tab, 3, "left from the first tab wraps to the Diff tab");
    assert_eq!(v.scroll, 0);
    v.diff.commit_label = Some("abc".into());
    v.pr_files = vec![changed("whole.rs", None)];
    on_pr_view_key(&mut v, Key::Char('l'), 0, 0, false, 20);
    assert_eq!(v.tab, 0, "right from the last tab wraps to the first");
    assert_eq!(v.diff.commit_label, None);
    assert_eq!(v.diff.files[0].path, "whole.rs");
}

#[test]
fn the_arrows_move_what_the_sub_tab_shows() {
    // Conversation: the scroll, capped at the maximum.
    let mut v = panes(0);
    on_pr_view_key(&mut v, Key::PageDown, 0, 0, false, 15);
    assert_eq!(v.scroll, 10);
    on_pr_view_key(&mut v, Key::Char(' '), 0, 0, false, 15);
    assert_eq!(v.scroll, 15, "stops at the maximum");
    on_pr_view_key(&mut v, Key::Char('k'), 0, 0, false, 15);
    assert_eq!(v.scroll, 14);
    on_pr_view_key(&mut v, Key::PageUp, 0, 0, false, 15);
    on_pr_view_key(&mut v, Key::PageUp, 0, 0, false, 15);
    assert_eq!(v.scroll, 0, "never above the top");

    // Commits: the commit cursor, inside the commits.
    let mut v = panes(1);
    on_pr_view_key(&mut v, Key::Down, 2, 0, false, 15);
    on_pr_view_key(&mut v, Key::Down, 2, 0, false, 15);
    assert_eq!(v.commit_sel, 1);
    on_pr_view_key(&mut v, Key::Up, 2, 0, false, 15);
    on_pr_view_key(&mut v, Key::Up, 2, 0, false, 15);
    assert_eq!(v.commit_sel, 0);

    // Diff: the file list, then the line cursor.
    let mut v = panes(3);
    v.diff = diff(vec![changed("a.rs", Some("@@ -1,2 +1,3 @@\n ctx\n+added\n-removed")), changed("b.rs", None)]);
    on_pr_view_key(&mut v, Key::Down, 0, 0, false, 0);
    assert_eq!(v.diff.selected, 1);
    on_pr_view_key(&mut v, Key::Down, 0, 0, false, 0);
    assert_eq!(v.diff.selected, 0, "the file list wraps");
    on_pr_view_key(&mut v, Key::Enter, 0, 0, false, 0);
    on_pr_view_key(&mut v, Key::PageDown, 0, 0, false, 0);
    assert_eq!(v.diff.cursor, 3, "a page clamps to the last patch line");
    on_pr_view_key(&mut v, Key::Char('v'), 0, 0, false, 0);
    assert!(v.diff.is_viewed("a.rs"));
    assert_eq!(on_pr_view_key(&mut v, Key::Char(']'), 0, 0, false, 0), ViewKeyAction::JumpThread(1));
    assert_eq!(on_pr_view_key(&mut v, Key::Char('['), 0, 0, false, 0), ViewKeyAction::JumpThread(-1));
}

#[test]
fn the_action_keys_go_back_to_the_app() {
    let mut v = panes(2);
    assert_eq!(on_pr_view_key(&mut v, Key::Char('a'), 0, 0, false, 0), ViewKeyAction::Vote(ReviewVote::Approved));
    assert_eq!(on_pr_view_key(&mut v, Key::Char('x'), 0, 0, false, 0), ViewKeyAction::Vote(ReviewVote::Rejected));
    assert_eq!(on_pr_view_key(&mut v, Key::Char('a'), 0, 0, true, 0), ViewKeyAction::Stay, "a merged PR takes no votes");
    assert_eq!(on_pr_view_key(&mut v, Key::Char('o'), 0, 0, false, 0), ViewKeyAction::OpenSelected);
    assert_eq!(on_pr_view_key(&mut v, Key::Char('c'), 0, 0, false, 0), ViewKeyAction::Comment);
    assert_eq!(on_pr_view_key(&mut v, Key::Char('r'), 0, 0, false, 0), ViewKeyAction::Reply);
    assert_eq!(on_pr_view_key(&mut v, Key::Char('s'), 0, 0, false, 0), ViewKeyAction::SubmitReview);
    assert_eq!(on_pr_view_key(&mut v, Key::Char(']'), 0, 0, false, 0), ViewKeyAction::Stay, "thread jumps belong to the Diff tab");
}

#[test]
fn the_work_item_view_scrolls_and_hands_over_its_actions() {
    let mut scroll: u16 = 0;
    assert_eq!(on_wi_view_key(&mut scroll, Key::Char('j'), 5), ViewKeyAction::Stay);
    assert_eq!(scroll, 1);
    on_wi_view_key(&mut scroll, Key::PageDown, 5);
    assert_eq!(scroll, 5, "capped at the maximum");
    on_wi_view_key(&mut scroll, Key::Char('b'), 5);
    assert_eq!(scroll, 0);
    assert_eq!(on_wi_view_key(&mut scroll, Key::Escape, 5), ViewKeyAction::Leave);
    assert_eq!(on_wi_view_key(&mut scroll, Key::Char('o'), 5), ViewKeyAction::OpenSelected);
    assert_eq!(on_wi_view_key(&mut scroll, Key::Char('c'), 5), ViewKeyAction::Comment);
    assert_eq!(on_wi_view_key(&mut scroll, Key::Char('e'), 5), ViewKeyAction::Edit);
}

#[test]
fn a_commit_diff_sorts_its_files_and_names_the_commit() {
    let mut v = panes(1);
    v.diff.selected = 2;
    v.diff.focus = DiffFocus::Patch;
    v.diff.cursor = 4;
    assert!(!v.show_commit_diff(vec![], "abcdef0123", "msg"), "no per-commit diff");
    assert_eq!(v.tab, 1);
    assert_eq!(v.diff.cursor, 4);
    let files = vec![changed("src/b.rs", None), changed("README.md", None), changed("src/a.rs", None)];
    assert!(v.show_commit_diff(files, "abcdef0123", "Fix the thing"));
    assert_eq!(v.tab, 3);
    let paths: Vec<&str> = v.diff.files.iter().map(|f| f.path.as_str()).collect();
    assert_eq!(paths, vec!["README.md", "src/a.rs", "src/b.rs"]);
    assert_eq!((v.diff.selected, v.diff.cursor), (0, 0));
    assert_eq!(v.diff.focus, DiffFocus::FileList);
    assert_eq!(v.diff.commit_label.as_deref(), Some("abcdef0 Fix the thing"));
    let long: String = "x".repeat(60);
    assert!(v.show_commit_diff(vec![changed("a", None)], "123", &long));
    assert_eq!(v.diff.commit_label.as_deref(), Some(format!("123 {}", "x".repeat(50)).as_str()));
}
