use forgetop_tui::lists::{parse_pr_filter, PullRequestFilter};
use forgetop_tui::sections::{default_views, SavedView};
use forgetop_tui::order::SortPref;
use forgetop_tui::views::{snapshot_view, sorted_strings, view_name, view_settings, ViewShelf};

fn named(name: &str) -> SavedView {
    SavedView { name: name.into(), filter: None, query: String::new(), sort: None, hidden_states: vec![] }
}

#[test]
fn saved_views_defaults_and_seeding() {
    assert_eq!(default_views(0).iter().map(|v| v.name.clone()).collect::<Vec<_>>(), vec!["All", "Mine", "Review"]);
    assert_eq!(default_views(1).len(), 1);
    assert_eq!(parse_pr_filter(Some("mine")), PullRequestFilter::Mine);
    assert_eq!(parse_pr_filter(Some("review")), PullRequestFilter::ReviewRequested);
    assert_eq!(parse_pr_filter(None), PullRequestFilter::All);

    // Empty sections get the defaults; a saved set is kept verbatim.
    let mut app = ViewShelf::new();
    app.apply_views(vec![], vec![], vec![]);
    assert_eq!(app.views[0].len(), 3);
    assert_eq!(app.views[1].len(), 1);

    let custom = vec![SavedView { name: "Stale".into(), filter: None, query: "old".into(), sort: None, hidden_states: vec![] }];
    app.apply_views(custom, vec![], vec![]);
    assert_eq!(app.views[0].len(), 1);
    assert_eq!(app.views[0][0].name, "Stale");
}

#[test]
fn switching_views_wraps_and_a_single_view_stays() {
    let mut shelf = ViewShelf::new();
    shelf.apply_views(vec![], vec![], vec![]);
    assert_eq!(shelf.switch_view(0, -1), Some(2), "back from the first wraps to the last");
    assert_eq!(shelf.active_view(0).map(|v| v.name.as_str()), Some("Review"));
    assert_eq!(shelf.switch_view(0, 1), Some(0), "and forward comes back");
    assert_eq!(shelf.switch_view(1, 1), None, "one view: nothing to switch to");
    assert!(!shelf.select_view(0, 7), "past the views");
    assert_eq!(shelf.view_idx[0], 0);
}

#[test]
fn saving_makes_the_new_view_current_and_deleting_never_takes_the_last() {
    let mut shelf = ViewShelf::new();
    shelf.apply_views(vec![], vec![], vec![]);
    shelf.save_view(1, named("Bugs"));
    assert_eq!(shelf.views[1].len(), 2);
    assert_eq!(shelf.view_idx[1], 1);
    assert_eq!(shelf.active_view(1).map(|v| v.name.as_str()), Some("Bugs"));

    assert!(shelf.can_delete_view(1));
    assert_eq!(shelf.delete_view(1).map(|v| v.name), Some("Bugs".to_string()));
    assert_eq!(shelf.view_idx[1], 0, "the new last view becomes current");
    assert!(!shelf.can_delete_view(1), "can't delete the last view");
    assert!(shelf.delete_view(1).is_none());
    assert_eq!(shelf.views[1].len(), 1);

    // Deleting from the middle keeps the cursor on the view that moved up.
    shelf.select_view(0, 1);
    assert_eq!(shelf.delete_view(0).map(|v| v.name), Some("Mine".to_string()));
    assert_eq!(shelf.active_view(0).map(|v| v.name.as_str()), Some("Review"));
}

#[test]
fn a_view_name_is_trimmed_and_a_blank_one_refused() {
    assert_eq!(view_name("  My PRs \t"), Some("My PRs".to_string()));
    assert_eq!(view_name("x"), Some("x".to_string()));
    assert_eq!(view_name("   "), None);
    assert_eq!(view_name(""), None);
}

#[test]
fn a_snapshot_saves_the_sections_own_settings_and_applies_back() {
    let sort = Some(SortPref { key: "updated".into(), desc: true });
    let hidden = vec!["Done".to_string(), "Closed".to_string(), "Active".to_string()];
    let pr = snapshot_view(0, "mine".into(), PullRequestFilter::Mine, &"fix".to_string(), &sort, &hidden);
    assert_eq!(pr.filter.as_deref(), Some("mine"));
    assert_eq!(pr.query, "fix");
    assert!(pr.hidden_states.is_empty(), "hidden states belong to work items");
    let back = view_settings(0, &pr);
    assert_eq!(back.pr_filter, Some(PullRequestFilter::Mine));
    assert_eq!(back.query, "fix");
    assert_eq!(back.sort.as_ref().map(|s| (s.key.as_str(), s.desc)), Some(("updated", true)));
    assert!(back.hidden_states.is_none());

    let wi = snapshot_view(1, "w".into(), PullRequestFilter::All, &String::new(), &None, &hidden);
    assert!(wi.filter.is_none());
    assert_eq!(wi.hidden_states, vec!["Active", "Closed", "Done"], "sorted");
    let back = view_settings(1, &wi);
    assert_eq!(back.hidden_states, Some(vec!["Active".to_string(), "Closed".into(), "Done".into()]));
    assert!(back.pr_filter.is_none());
}

#[test]
fn sorted_strings_orders_by_text() {
    let v = vec!["b".to_string(), "a".into(), "B".into(), "ab".into()];
    assert_eq!(sorted_strings(&v), vec!["B", "a", "ab", "b"]);
}
