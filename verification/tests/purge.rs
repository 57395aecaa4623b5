use forgetop_tui::inbox::InboxRow;
use forgetop_tui::purge::{drop_connection, retain_bound};

fn row(conn: &str, id: &str) -> InboxRow {
    InboxRow { connection_id: conn.into(), id: id.into(), unread: true }
}

fn ids(rows: &[InboxRow]) -> Vec<String> {
    rows.iter().map(|r| r.id.clone()).collect()
}

#[test]
fn removing_a_connection_drops_its_rows_and_keeps_the_rest_in_order() {
    let mut rows = vec![row("a", "1"), row("b", "2"), row("a", "3"), row("c", "4")];
    drop_connection(&mut rows, "a");
    assert_eq!(ids(&rows), vec!["2", "4"]);
    drop_connection(&mut rows, "zzz");
    assert_eq!(ids(&rows), vec!["2", "4"], "an unknown connection drops nothing");
}

#[test]
fn unbinding_keeps_only_the_bound_connections_rows() {
    let mut rows = vec![row("a", "1"), row("b", "2"), row("c", "3")];
    retain_bound(&mut rows, &vec!["c".to_string(), "a".to_string()]);
    assert_eq!(ids(&rows), vec!["1", "3"]);
    retain_bound(&mut rows, &vec![]);
    assert!(rows.is_empty(), "nothing bound: nothing stays");
}
