use forgetop_tui::scope::{chosen_repos, repo_scope_items, repo_scope_toast, scope_summary, ScopeConn, ScopeSummary};

fn scope(selected: usize, available: Option<usize>, truncated: bool) -> ScopeSummary {
    ScopeSummary { connections: vec!["c".into()], selected, available, truncated, none_selected: false }
}

#[test]
fn the_scope_label_counts_and_marks_a_truncated_total() {
    assert_eq!(scope(5, Some(37), false).label(), "Repos · 5 of 37");
    assert_eq!(scope(5, Some(37), true).label(), "Repos · 5 of 37+", "truncation is marked, never silent");
    assert_eq!(scope(12, None, true).label(), "Repos · 12", "no denominator before discovery");
}

fn conn(id: &str, addressed: bool, scope: Option<Vec<&str>>, own: bool, catalog: Option<(usize, bool)>) -> ScopeConn {
    ScopeConn {
        id: id.into(),
        repo_addressed: addressed,
        repo_scope: scope.map(|v| v.into_iter().map(String::from).collect()),
        has_repository: own,
        catalog,
    }
}

#[test]
fn the_scope_summary_counts_only_repo_addressed_connections() {
    assert!(scope_summary(&vec![]).is_none());
    assert!(scope_summary(&vec![conn("ado", false, Some(vec!["a"]), false, Some((3, false)))]).is_none());
    let s = scope_summary(&vec![
        conn("gh", true, Some(vec!["a", "b"]), false, Some((10, true))),
        conn("gl", true, None, true, None),
        conn("ado", false, Some(vec!["x"]), false, Some((99, false))),
    ])
    .unwrap();
    assert_eq!(s.connections, vec!["gh", "gl"]);
    assert_eq!(s.selected, 3);
    assert_eq!(s.available, Some(10));
    assert!(s.truncated);
    assert!(!s.none_selected);
    assert_eq!(s.label(), "Repos · 3 of 10+");
}

#[test]
fn nothing_chosen_nothing_found_is_no_scope_but_an_emptied_scope_is() {
    assert!(scope_summary(&vec![conn("demo", true, None, false, None)]).is_none());
    let s = scope_summary(&vec![conn("gh", true, Some(vec![]), false, None)]).unwrap();
    assert!(s.none_selected);
    assert_eq!(s.selected, 0);
    assert_eq!(s.available, None);
}

#[test]
fn the_repository_checklist_keeps_chosen_repos_first() {
    let chosen = vec!["b/saved".to_string(), "a/x".to_string()];
    let discovered = vec!["a/x".to_string(), "c/y".to_string()];
    let items = repo_scope_items(&chosen, &discovered);
    let got: Vec<(&str, bool)> = items.iter().map(|i| (i.id.as_str(), i.on)).collect();
    assert_eq!(got, vec![("b/saved", true), ("a/x", true), ("c/y", false)]);
    assert!(repo_scope_items(&vec![], &vec![]).is_empty());
    assert_eq!(chosen_repos(&None, &Some("own/repo".into())), vec!["own/repo"]);
    assert_eq!(chosen_repos(&Some(vec!["s".into()]), &Some("own/repo".into())), vec!["s"]);
    assert!(chosen_repos(&None, &None).is_empty());
}

#[test]
fn the_repository_scope_toast_counts() {
    assert_eq!(repo_scope_toast(0), "No repositories selected \u{2014} nothing will be fetched");
    assert_eq!(repo_scope_toast(1), "Fetching from 1 repository");
    assert_eq!(repo_scope_toast(12), "Fetching from 12 repositories");
}
