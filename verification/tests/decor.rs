use forgetop_tui::decor::{Decorations, PR_DECORATE_CAP};

fn key(c: &str, id: &str) -> (String, String) {
    (c.to_string(), id.to_string())
}

fn shown(c: &str, id: &str, needs: bool) -> (String, String, bool) {
    (c.to_string(), id.to_string(), needs)
}

#[test]
fn a_failed_decoration_is_not_requeued_until_the_next_reload() {
    let mut d: Decorations<u32> = Decorations::new();
    let rows = vec![shown("c", "1", true)];
    let k = key("c", "1");
    d.land(vec![(k.clone(), None)]);
    assert!(d.failed.contains(&k), "the failure is remembered");
    assert!(d.get(&k.0, &k.1).is_none(), "but not cached as a blank decoration");
    let asked = d.request(&rows);
    assert!(asked.is_empty());
    assert!(d.inflight.is_empty(), "a failed row does not requeue itself");
    d.reload(&vec![k.clone()]);
    assert_eq!(d.request(&rows), vec![k], "the next reload retries it");
}

#[test]
fn decorations_merge_into_derived_rows_and_failures_are_not_cached() {
    let mut d: Decorations<u32> = Decorations::new();
    let rows = vec![shown("c", "1", true), shown("c", "2", true)];
    assert_eq!(d.request(&rows), vec![key("c", "1"), key("c", "2")]);
    assert_eq!(d.inflight.len(), 2);
    d.land(vec![(key("c", "1"), Some(42)), (key("c", "2"), None)]);
    assert_eq!(d.get(&"c".to_string(), &"1".to_string()), Some(&42), "a fetched decoration lands on the row");
    assert!(d.get(&"c".to_string(), &"2".to_string()).is_none(), "and a failed one is not cached");
    assert!(d.inflight.is_empty());
}

#[test]
fn a_request_asks_once_per_row_and_caps_the_batch() {
    let mut d: Decorations<u32> = Decorations::new();
    let rows: Vec<(String, String, bool)> = (0..40).map(|i| shown("c", &i.to_string(), true)).collect();
    let first = d.request(&rows);
    assert_eq!(first.len(), PR_DECORATE_CAP);
    let second = d.request(&rows);
    assert_eq!(second.len(), 40 - PR_DECORATE_CAP, "in-flight rows are not asked for again");
    assert!(d.request(&rows).is_empty());
    let mut d: Decorations<u32> = Decorations::new();
    assert!(d.request(&vec![shown("c", "1", false)]).is_empty(), "a connection whose list decorates");
}

#[test]
fn a_reload_forgets_failures_and_drops_rows_it_no_longer_holds() {
    let mut d: Decorations<u32> = Decorations::new();
    d.land(vec![(key("c", "1"), Some(1)), (key("c", "2"), Some(2)), (key("c", "3"), None)]);
    d.land(vec![(key("c", "1"), Some(10))]);
    assert_eq!(d.get(&"c".to_string(), &"1".to_string()), Some(&10), "a newer decoration replaces");
    d.reload(&vec![key("c", "1")]);
    assert!(d.failed.is_empty());
    assert_eq!(d.done.len(), 1);
    assert!(d.get(&"c".to_string(), &"2".to_string()).is_none());
}
