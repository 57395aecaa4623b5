use forgetop_tui::review::{DiffFocus, DiffView, FileChange};

fn diff(files: Vec<FileChange>) -> DiffView {
    DiffView {
        pr_label: "PR".into(),
        url: None,
        files,
        selected: 0,
        scroll: 0,
        focus: DiffFocus::FileList,
        cursor: 0,
        commit_label: None,
        viewed: Vec::new(),
    }
}

fn changed(path: &str, patch: Option<&str>) -> FileChange {
    FileChange { path: path.into(), patch: patch.map(Into::into) }
}

#[test]
fn diff_line_cursor_navigates_and_clamps() {
    // 4 patch lines (indices 0..3).
    let mut d = diff(vec![changed("a.rs", Some("@@ -1,2 +1,3 @@\n ctx\n+added\n-removed"))]);
    d.enter_patch();
    assert_eq!(d.focus, DiffFocus::Patch);
    assert_eq!(d.cursor, 0);
    d.move_cursor(1);
    assert_eq!(d.cursor, 1);
    d.move_cursor(100); // clamps to last line
    assert_eq!(d.cursor, 3);
    d.move_cursor(-100); // clamps to first line
    assert_eq!(d.cursor, 0);
    d.exit_patch();
    assert_eq!(d.focus, DiffFocus::FileList);
    // Switching files resets the cursor.
    d.cursor = 2;
    d.select_file(0);
    assert_eq!(d.cursor, 0);
}

#[test]
fn diff_enter_patch_is_noop_without_a_patch() {
    let mut d = diff(vec![changed("bin", None)]);
    d.enter_patch();
    assert_eq!(d.focus, DiffFocus::FileList, "no patch → stay in the file list");
}

#[test]
fn diff_toggle_viewed_tracks_progress() {
    let mut d = diff(vec![changed("a.rs", None), changed("b.rs", None)]);
    assert_eq!(d.viewed_count(), 0);
    d.toggle_viewed(); // marks a.rs (selected == 0)
    assert!(d.is_viewed("a.rs"));
    assert_eq!(d.viewed_count(), 1);
    d.select_file(1);
    d.toggle_viewed(); // marks b.rs
    assert_eq!(d.viewed_count(), 2);
    d.toggle_viewed(); // unmarks b.rs
    assert!(!d.is_viewed("b.rs"));
    assert_eq!(d.viewed_count(), 1);
}

#[test]
fn file_selection_wraps_both_ways() {
    let mut d = diff(vec![changed("a", None), changed("b", None), changed("c", None)]);
    d.select_file(-1);
    assert_eq!(d.selected, 2);
    d.select_file(2);
    assert_eq!(d.selected, 1);
    d.scroll = 9;
    d.select_file(0);
    assert_eq!(d.scroll, 0, "a file switch resets the scroll");
    let mut empty = diff(vec![]);
    empty.select_file(1);
    assert_eq!(empty.selected, 0);
    assert!(empty.current().is_none());
}

#[test]
fn the_patch_scroll_stops_at_the_top() {
    let mut d = diff(vec![]);
    d.scroll_by(5);
    assert_eq!(d.scroll, 5);
    d.scroll_by(-9);
    assert_eq!(d.scroll, 0);
}

#[test]
fn diff_jump_thread_moves_cursor_to_thread_lines() {
    // new-side lines: 20 (ctx, idx 1), 21 (added, idx 2); a thread on line 21 sits at patch line 2.
    let mut d = diff(vec![changed("a.rs", Some("@@ -10,3 +20,4 @@\n ctx\n+added\n-removed"))]);
    let threads = vec![2usize];
    d.jump_thread(&threads, 1); // next thread from cursor 0 → the one at patch line 2
    assert_eq!(d.focus, DiffFocus::Patch);
    assert_eq!(d.cursor, 2);
    d.jump_thread(&threads, 1); // only one thread → wraps back to it
    assert_eq!(d.cursor, 2);
}

#[test]
fn diff_jump_thread_is_noop_without_located_threads() {
    let mut d = diff(vec![changed("a.rs", Some("@@ -1,1 +1,1 @@\n ctx"))]);
    d.jump_thread(&vec![], 1); // no threads
    assert_eq!(d.focus, DiffFocus::FileList);
    assert_eq!(d.cursor, 0);
}

#[test]
fn jumping_between_threads_wraps_both_ways() {
    let mut d = diff(vec![changed("a.rs", Some("x"))]);
    let threads = vec![7usize, 3, 9, 3];
    d.cursor = 4;
    d.jump_thread(&threads, 1);
    assert_eq!(d.cursor, 7);
    d.jump_thread(&threads, 1);
    assert_eq!(d.cursor, 9);
    d.jump_thread(&threads, 1);
    assert_eq!(d.cursor, 3, "wraps to the first");
    d.jump_thread(&threads, -1);
    assert_eq!(d.cursor, 9, "and back to the last");
    d.jump_thread(&threads, -1);
    assert_eq!(d.cursor, 7);
}
