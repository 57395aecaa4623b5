use forgetop_tui::diff::{comment_target, cursor_line_label, parse_hunk_header, pending_marks, DiffSide, LineComment};

#[test]
fn cursor_line_label_maps_hunk_lines_to_file_lines() {
    let patch = "@@ -10,3 +20,4 @@\n ctx\n+new\n-old";
    assert_eq!(cursor_line_label(patch, 0).as_deref(), Some("hunk @ 20"));
    assert_eq!(cursor_line_label(patch, 1).as_deref(), Some("line 20")); // context → new line 20
    assert_eq!(cursor_line_label(patch, 2).as_deref(), Some("line 21")); // added → new line 21
    assert_eq!(cursor_line_label(patch, 3).as_deref(), Some("line 11 (old)")); // removed → old line 11
}

#[test]
fn parse_hunk_header_reads_starts() {
    assert_eq!(parse_hunk_header("@@ -10,3 +20,4 @@ fn foo()"), Some((10, 20)));
    assert_eq!(parse_hunk_header("@@ -1 +1 @@"), Some((1, 1)));
    assert_eq!(parse_hunk_header(" not a hunk"), None);
}

#[test]
fn comment_target_picks_side_and_line() {
    let patch = "@@ -10,3 +20,4 @@\n ctx\n+new\n-old";
    assert_eq!(comment_target(patch, 0), None); // hunk header
    assert_eq!(comment_target(patch, 1), Some((20, DiffSide::New)));
    assert_eq!(comment_target(patch, 2), Some((21, DiffSide::New)));
    assert_eq!(comment_target(patch, 3), Some((11, DiffSide::Old)));
}

#[test]
fn pending_marks_flags_commented_lines() {
    let patch = "@@ -10,3 +20,4 @@\n ctx\n+new\n-old";
    let pending = vec![
        LineComment { path: "a.rs".into(), line: 21, side: DiffSide::New, body: "x".into() },
        LineComment { path: "other.rs".into(), line: 20, side: DiffSide::New, body: "y".into() },
    ];
    let marks = pending_marks(patch, "a.rs", &pending);
    assert!(marks.contains(&2)); // the +new line
    assert!(!marks.contains(&1));
    assert_eq!(marks.len(), 1);
}

#[test]
fn hunk_header_lines_are_never_comment_targets() {
    let patch = "@@ -3 +7 @@\n+a\n@@ -9,2 +14,2 @@\n x\n-y";
    assert_eq!(comment_target(patch, 0), None);
    assert_eq!(comment_target(patch, 2), None);
    assert_eq!(comment_target(patch, 1), Some((7, DiffSide::New)));
    assert_eq!(comment_target(patch, 3), Some((14, DiffSide::New)));
    assert_eq!(comment_target(patch, 4), Some((10, DiffSide::Old)));
    assert_eq!(comment_target(patch, 9), None);
}

#[test]
fn a_header_without_numbers_is_not_a_hunk() {
    assert_eq!(parse_hunk_header("@@ -x +y @@"), None);
    assert_eq!(parse_hunk_header("@@ -5,1 @@"), None);
    assert_eq!(parse_hunk_header("@@ -5,1 +0,0 @@"), Some((5, 0)));
}

#[test]
fn the_header_starts_come_from_its_own_ranges_not_the_context_text() {
    assert_eq!(parse_hunk_header("@@ -10,3 +20,4 @@ -1"), Some((10, 20)));
    assert_eq!(parse_hunk_header("@@ -10,3 +20,4 @@ x = -1 +7"), Some((10, 20)));
    assert_eq!(parse_hunk_header("@@ +1,2 @@"), None);
    assert_eq!(parse_hunk_header("@@ -1,2 @@ +3"), None, "a range after the closing marker is context");
    assert_eq!(parse_hunk_header("@@ -x +1 @@"), None);
    assert_eq!(parse_hunk_header("@@ -1 -x +2 @@"), None, "the last range of a sign is the one read");
    assert_eq!(parse_hunk_header("@@ -1 -5 +2 @@"), Some((5, 2)));
}

#[test]
fn a_deleted_files_removed_lines_are_commentable() {
    let patch = "@@ -1,2 +0,0 @@\n-a\n-b";
    assert_eq!(comment_target(patch, 0), None);
    assert_eq!(comment_target(patch, 1), Some((1, DiffSide::Old)));
    assert_eq!(comment_target(patch, 2), Some((2, DiffSide::Old)));
    assert_eq!(cursor_line_label(patch, 2).as_deref(), Some("line 2 (old)"));
    assert_eq!(comment_target("ctx before\n@@ -1 +1 @@\n x", 0), None, "before the first hunk");
}
