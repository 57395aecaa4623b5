use forgetop_tui::click::{wheel_key, ClickAction, Hit, LpCursor, WheelAction};
use forgetop_tui::keys::Key;
use forgetop_tui::inbox::{Inbox, InboxRow};
use forgetop_tui::prview::PrPanes;
use forgetop_tui::review::{DiffFocus, DiffView, FileChange};
use forgetop_tui::tabs::{Navigation, ScreenKind};

fn diff(files: Vec<FileChange>) -> DiffView {
    DiffView {
        pr_label: "PR".into(),
        url: None,
        files,
        selected: 0,
        scroll: 0,
        focus: DiffFocus::FileList,
        cursor: 0,
        commit_label: None,
        viewed: Vec::new(),
    }
}

fn changed(path: &str, patch: Option<&str>) -> FileChange {
    FileChange { path: path.into(), patch: patch.map(Into::into) }
}

#[test]
fn clicking_a_tab_switches_to_it_unless_comments_are_pending() {
    let lens = vec![1, 0, 0];
    let mut app = Navigation::new();
    assert_eq!(app.click_tab(2, false, &lens), ClickAction::Nothing);
    assert!(matches!(app.screen, ScreenKind::List) && app.active == 1);
    app.click_tab(0, false, &lens);
    assert!(matches!(app.screen, ScreenKind::Launchpad));

    app.screen = ScreenKind::PrView;
    assert_eq!(app.click_tab(1, true, &lens), ClickAction::PendingExitPrompt);
    assert!(matches!(app.screen, ScreenKind::PrView), "the view stays until the prompt is answered");
}

#[test]
fn a_second_click_on_the_selected_row_opens_it() {
    let mut app = Navigation::new();
    app.content_h = 2;
    assert_eq!(app.click_list_row(3), ClickAction::Nothing);
    assert_eq!(app.selected(), Some(3));
    assert_eq!(app.list_scroll, 2, "the clicked row is kept in view");
    assert_eq!(app.click_list_row(3), ClickAction::Enter);

    let row = |id: &str| InboxRow { connection_id: "c".into(), id: id.into(), unread: true };
    let mut inbox = Inbox { rows: vec![row("a"), row("b")], sel: 0 };
    assert_eq!(inbox.click_row(1), ClickAction::Nothing);
    assert_eq!(inbox.sel, 1);
    assert_eq!(inbox.click_row(1), ClickAction::Enter);
}

#[test]
fn clicking_a_diff_line_puts_the_cursor_there_and_a_second_click_comments() {
    let mut v = PrPanes {
        tab: 0,
        scroll: 4,
        commit_sel: 0,
        pr_files: vec![],
        diff: diff(vec![changed("a.rs", Some("@@ -1,2 +1,3 @@\n ctx\n+added line\n-removed"))]),
    };
    v.click_pr_tab(3);
    assert_eq!(v.tab, 3, "the Diff sub-tab is clickable");
    assert_eq!(v.scroll, 0);
    assert_eq!(v.click_diff_line(2), ClickAction::Nothing);
    assert_eq!((v.diff.focus, v.diff.cursor), (DiffFocus::Patch, 2));
    assert_eq!(v.click_diff_line(2), ClickAction::Comment, "second click comments on the line");

    // Back to the file list: a click on the selected file first takes the keys, then opens it.
    assert_eq!(v.click_diff_file(0), ClickAction::Nothing);
    assert_eq!(v.diff.focus, DiffFocus::FileList);
    assert_eq!(v.diff.cursor, 2, "the same file keeps its cursor");
    assert_eq!(v.click_diff_file(0), ClickAction::Enter);

    assert_eq!(v.click_commit_row(1), ClickAction::Nothing);
    assert_eq!(v.commit_sel, 1);
    assert_eq!(v.click_commit_row(1), ClickAction::Enter);
}

#[test]
fn the_wheel_moves_a_list_one_row_and_stops_at_the_ends() {
    let mut app = Navigation::new();
    app.sel = vec![Some(0), None, None];
    app.wheel_list(-1, 2);
    assert_eq!(app.selected(), Some(0), "no wrap to the bottom");
    app.wheel_list(1, 2);
    app.wheel_list(1, 2);
    assert_eq!(app.selected(), Some(1), "no wrap to the top");
    app.wheel_list(1, 0);
    assert_eq!(app.selected(), Some(1), "an empty list: no move");

    let row = |id: &str| InboxRow { connection_id: "c".into(), id: id.into(), unread: false };
    let mut inbox = Inbox { rows: vec![row("a"), row("b")], sel: 1 };
    inbox.wheel(1);
    assert_eq!(inbox.sel, 1);
    inbox.wheel(-1);
    inbox.wheel(-1);
    assert_eq!(inbox.sel, 0);
    assert_eq!(wheel_key(-1), Key::Up);
    assert_eq!(wheel_key(1), Key::Down);
}

#[test]
fn the_wheel_over_a_pull_request_scrolls_the_patch_or_repeats_the_arrows() {
    let mut v = PrPanes { tab: 3, scroll: 0, commit_sel: 0, pr_files: vec![], diff: diff(vec![changed("a.rs", None)]) };
    assert_eq!(v.on_wheel(Some(Hit::DiffPatch), 1), WheelAction::Stay);
    assert_eq!(v.diff.scroll, 3, "three lines a notch over the patch");
    assert_eq!(v.on_wheel(Some(Hit::DiffFile(0)), 1), WheelAction::Keys(Key::Down, 1), "over the file list it moves the file");
    v.tab = 0;
    assert_eq!(v.on_wheel(None, -1), WheelAction::Keys(Key::Up, 3), "text tabs scroll three at a time");
    v.tab = 1;
    assert_eq!(v.on_wheel(None, 1), WheelAction::Keys(Key::Down, 1));
}

#[test]
fn the_command_center_cursor_follows_clicks_moves_and_clamps() {
    let mut c = LpCursor::new();
    c.anim = 5;
    c.click_column(0);
    assert_eq!(c.anim, 5, "the column it is in stays as it is");
    c.click_column(1);
    assert_eq!((c.side, c.anim), (1, 0));
    c.anim = 3;
    assert_eq!(c.click_row(1, 2), ClickAction::Nothing);
    assert_eq!((c.side, c.sel, c.anim), (1, (0, 2), 0));
    assert_eq!(c.click_row(1, 2), ClickAction::Enter, "a second click opens");
    assert_eq!(c.click_row(0, 0), ClickAction::Nothing, "the same slot in the other column only selects");
    assert_eq!(c.side, 0);
    c.move_by(1, 3);
    c.move_by(1, 3);
    c.move_by(1, 3);
    assert_eq!(c.selected(), 2, "stops at the last slot");
    c.move_by(-5, 3);
    assert_eq!(c.selected(), 0);
    c.switch_side(-1);
    assert_eq!(c.side, 0);
    c.switch_side(1);
    c.switch_side(1);
    assert_eq!(c.side, 1);
    c.sel = (4, 9);
    c.clamp_to(2, 0);
    assert_eq!(c.sel, (1, 0));
    c.anim = usize::MAX;
    c.tick_anim();
    assert_eq!(c.anim, 0);
}
