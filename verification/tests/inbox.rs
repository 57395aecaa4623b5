use forgetop_tui::inbox::{Inbox, InboxKeyAction, InboxRow};
use forgetop_tui::keys::Key;

fn n(id: &str, unread: bool) -> InboxRow {
    InboxRow { connection_id: "github".into(), id: id.into(), unread }
}

#[test]
fn inbox_unread_count_and_move_wraps() {
    let mut app = Inbox { rows: vec![n("a", true), n("b", false), n("c", true)], sel: 0 };
    assert_eq!(app.unread_count(), 2);
    app.inbox_move(1);
    assert_eq!(app.sel, 1);
    app.inbox_move(-1);
    assert_eq!(app.sel, 0);
    app.inbox_move(-1);
    assert_eq!(app.sel, 2, "moving up past the top wraps to the end");
}

#[test]
fn marking_read_touches_only_the_named_notification() {
    let mut other = n("a", true);
    other.connection_id = "azure".into();
    let mut app = Inbox { rows: vec![n("a", true), other, n("c", true)], sel: 0 };
    app.mark_read("github", "a");
    assert!(!app.rows[0].unread);
    assert!(app.rows[1].unread, "the same id on another connection is another notification");
    assert!(app.rows[2].unread);
    assert_eq!(app.unread_count(), 2);
    app.mark_all_read();
    assert_eq!(app.unread_count(), 0);
    assert_eq!(app.rows.len(), 3);
}

#[test]
fn the_cursor_stays_on_a_row_when_the_rows_shrink() {
    let mut app = Inbox { rows: vec![n("a", true)], sel: 4 };
    app.clamp_inbox_sel();
    assert_eq!(app.sel, 0);
    assert_eq!(app.selected_key(), Some(("github".to_string(), "a".to_string())));
    app.rows.clear();
    app.clamp_inbox_sel();
    assert_eq!(app.sel, 0);
    assert_eq!(app.selected_key(), None);
    app.inbox_move(1);
    assert_eq!(app.sel, 0, "no rows: no move");
}

#[test]
fn keys_in_the_inbox() {
    let mut app = Inbox { rows: vec![n("a", true), n("b", true)], sel: 0 };
    assert_eq!(app.on_inbox_key(Key::Char('k')), InboxKeyAction::Stay);
    assert_eq!(app.sel, 1, "up from the top wraps");
    assert_eq!(app.on_inbox_key(Key::Down), InboxKeyAction::Stay);
    assert_eq!(app.sel, 0);
    assert_eq!(app.on_inbox_key(Key::Escape), InboxKeyAction::Leave);
    assert_eq!(app.on_inbox_key(Key::Enter), InboxKeyAction::Open);
    assert_eq!(app.on_inbox_key(Key::Char('o')), InboxKeyAction::OpenLink);
    assert_eq!(app.on_inbox_key(Key::Char('x')), InboxKeyAction::MarkRead);
    assert_eq!(app.on_inbox_key(Key::Char('A')), InboxKeyAction::MarkAllRead);
    assert_eq!(app.on_inbox_key(Key::Char('r')), InboxKeyAction::Reload);
    assert_eq!(app.on_inbox_key(Key::Char('q')), InboxKeyAction::Stay);
}
