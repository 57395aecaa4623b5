use forgetop_tui::order::SortPref;
use forgetop_tui::sections::{
    dashboard_target, default_desc, default_views, feed_queries, index_of, pick_sort, pipeline_detail_cache_key,
    pr_detail_cache_key, section_of, sort_cols, sort_picker_selected, sort_toast, take_inline_section, take_section,
    wi_detail_cache_key, ItemRef, PipelineDefinition, PipelineSubscription, Section, SectionsOk,
};

#[test]
fn pr_detail_cache_key_distinguishes_the_same_id_in_different_repos() {
    let a = pr_detail_cache_key("c", &ItemRef::in_repo("acme/pay", "7"));
    let b = pr_detail_cache_key("c", &ItemRef::in_repo("acme/other", "7"));
    assert_ne!(a, b, "same connection and id, different repo, must not collide");
}

#[test]
fn wi_detail_cache_key_distinguishes_the_same_id_in_different_repos() {
    let a = wi_detail_cache_key("c", &ItemRef::in_repo("acme/pay", "7"));
    let b = wi_detail_cache_key("c", &ItemRef::in_repo("acme/other", "7"));
    assert_ne!(a, b, "same connection and id, different repo, must not collide");
}

#[test]
fn pipeline_detail_cache_key_distinguishes_the_same_id_in_different_repos() {
    let a = pipeline_detail_cache_key("c", &ItemRef::in_repo("acme/pay", "7"));
    let b = pipeline_detail_cache_key("c", &ItemRef::in_repo("acme/other", "7"));
    assert_ne!(a, b, "same connection and id, different repo, must not collide");
}

#[test]
fn detail_keys_spell_out_their_address() {
    assert_eq!(pr_detail_cache_key("c", &ItemRef::in_repo("acme/pay", "7")), "detail.pr.c.acme/pay.7");
    assert_eq!(wi_detail_cache_key("c", &ItemRef { id: "ENG-1".into(), repo: None }), "detail.wi.c.-.ENG-1");
}

#[test]
fn an_inline_reload_that_failed_leaves_the_rows_that_are_on_screen() {
    let mut rows = vec!["row".to_string()];
    let mut errors = Vec::new();
    let before = errors.len();
    errors.push("PRs (GitHub): 502".to_string());
    take_inline_section(&mut rows, Vec::new(), &errors, before);
    assert_eq!(rows.len(), 1, "an outage erased the answer, not the pull requests");
}

#[test]
fn an_inline_reload_that_answered_replaces_the_rows_even_with_nothing() {
    let mut rows = vec!["row".to_string()];
    let errors: Vec<String> = Vec::new();
    take_inline_section(&mut rows, Vec::new(), &errors, 0);
    assert!(rows.is_empty());
}

#[test]
fn a_partly_failed_inline_reload_still_takes_the_rows_that_came_back() {
    let mut rows = vec!["https://old".to_string()];
    let errors = vec!["PRs (GitLab): 502".to_string()];
    take_inline_section(&mut rows, vec!["https://fresh".to_string()], &errors, 0);
    assert_eq!(rows[0], "https://fresh");
}

#[test]
fn an_inline_reload_judges_only_the_failures_it_added_itself() {
    let mut rows = vec!["row".to_string()];
    let errors = vec!["Work items (GitHub): 502".to_string()];
    take_inline_section(&mut rows, Vec::new(), &errors, errors.len());
    assert!(rows.is_empty(), "the work-item failure says nothing about the PR fetch");
}

#[test]
fn a_failed_empty_section_keeps_what_is_on_screen() {
    let mut rows = vec![1, 2];
    take_section(&mut rows, vec![], false);
    assert_eq!(rows, vec![1, 2]);
    take_section(&mut rows, vec![3], false);
    assert_eq!(rows, vec![3]);
    take_section(&mut rows, vec![], true);
    assert!(rows.is_empty());
}

#[test]
fn sections_and_tabs_map_both_ways() {
    assert_eq!(section_of(0), Section::PullRequests);
    assert_eq!(section_of(1), Section::WorkItems);
    assert_eq!(section_of(2), Section::Pipelines);
    assert_eq!(section_of(7), Section::Pipelines);
    for s in [Section::PullRequests, Section::WorkItems, Section::Pipelines] {
        assert_eq!(section_of(index_of(s)), s);
    }
    let ok = SectionsOk { prs: true, wis: true, pipes: true, inbox: true, lp_mine: true, lp_review: true };
    assert!(ok.all());
    assert!(!SectionsOk { inbox: false, ..ok }.all());
}

#[test]
fn dashboard_targets_drop_a_stale_fragment() {
    assert_eq!(dashboard_target("http://127.0.0.1:8177/?t=x#/old", "#/prs"), "http://127.0.0.1:8177/?t=x#/prs");
    assert_eq!(dashboard_target("http://h/", "#/a"), "http://h/#/a");
    assert_eq!(dashboard_target("http://h/#", ""), "http://h/");
}

#[test]
fn saved_views_defaults() {
    assert_eq!(default_views(0).iter().map(|v| v.name.clone()).collect::<Vec<_>>(), vec!["All", "Mine", "Review"]);
    assert_eq!(default_views(0)[1].filter.as_deref(), Some("mine"));
    assert_eq!(default_views(1).len(), 1);
    assert_eq!(default_views(2)[0].filter, None);
}

#[test]
fn sort_columns_and_their_first_direction() {
    assert_eq!(sort_cols(0).iter().map(|c| c.key).collect::<Vec<_>>(), vec!["updated", "number", "title", "author", "checks", "status"]);
    assert_eq!(sort_cols(1).len(), 5);
    assert_eq!(sort_cols(9)[0].label, "Started");
    assert!(default_desc("updated") && default_desc("started") && default_desc("status"));
    assert!(!default_desc("title") && !default_desc("branch"));
}

#[test]
fn feed_queries_address_each_definition_at_its_repository() {
    let defs = vec![
        PipelineDefinition { id: "1".into(), name: "CI".into(), repository: Some("acme/a".into()) },
        PipelineDefinition { id: "2".into(), name: "Release".into(), repository: None },
    ];
    let all = PipelineSubscription { auto_discover_all: true, definition_ids: vec!["1".into()] };
    let q = feed_queries(&all, &defs);
    assert_eq!(q.len(), 1);
    assert_eq!((q[0].definition_id.clone(), q[0].limit), (None, Some(20)));
    let some = PipelineSubscription { auto_discover_all: false, definition_ids: vec!["2".into(), "1".into(), "9".into()] };
    let q = feed_queries(&some, &defs);
    assert_eq!(q.iter().map(|x| x.repository.clone()).collect::<Vec<_>>(), vec![None, Some("acme/a".to_string()), None]);
    assert!(q.iter().all(|x| x.limit == Some(10) && x.branch.is_none()));
    let none = PipelineSubscription { auto_discover_all: false, definition_ids: vec![] };
    assert_eq!(feed_queries(&none, &defs).len(), 1, "nothing subscribed discovers everything");
}

#[test]
fn picking_a_sort_column_flips_the_same_one_and_starts_a_new_one_at_its_default() {
    let pick = |section: usize, index: usize, current: &Option<SortPref>| {
        pick_sort(section, index, current).map(|p| (p.key, p.desc))
    };
    assert_eq!(pick(0, 0, &None), Some(("updated".to_string(), true)), "time starts newest first");
    assert_eq!(pick(0, 2, &None), Some(("title".to_string(), false)), "text starts A→Z");
    let current = Some(SortPref { key: "title".into(), desc: false });
    assert_eq!(pick(0, 2, &current), Some(("title".to_string(), true)), "re-picking flips");
    assert_eq!(pick(0, 0, &current), Some(("updated".to_string(), true)));
    assert_eq!(pick(1, 9, &current), None, "past the columns");
    assert_eq!(sort_toast("Updated", true), "Sorted by Updated ↓");
    assert_eq!(sort_toast("Title", false), "Sorted by Title ↑");
    assert_eq!(sort_picker_selected(2, &Some(SortPref { key: "branch".into(), desc: false })), 5);
    assert_eq!(sort_picker_selected(2, &Some(SortPref { key: "nope".into(), desc: false })), 0);
    assert_eq!(sort_picker_selected(1, &None), 0);
}
