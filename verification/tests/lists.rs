use forgetop_tui::lists::{
    pr_status_items, wi_state_choices, apply_wi_states, shown_statuses, states_toast, distinct_wi_states, filtered_pr_indices, filtered_wi_indices, hidden_states_in_view, parse_pr_filter,
    parse_pr_status, pr_filter_key, pr_filter_label, pr_label, pr_matches, pr_review_transitions, pr_status_key,
    pr_status_summary, prs_cache_key, vote_message, wi_label, wi_matches, CheckStatus, PrRow, PullRequest,
    PullRequestFilter, PullRequestStatus, ReviewVote, User, WiRow, WorkItem, WorkItemStateCategory,
};
use forgetop_tui::keys::Key;
use forgetop_tui::order::SortPref;
use forgetop_tui::tabs::Navigation;

fn pr(url: Option<&str>) -> PullRequest {
    PullRequest {
        id: "1".into(),
        number: Some(1),
        title: "t".into(),
        author: User { id: "a".into(), display_name: "A".into(), handle: None },
        status: PullRequestStatus::Open,
        is_draft: false,
        source_ref: None,
        labels: vec![],
        checks: CheckStatus::NoChecks,
        updated_at: None,
        url: url.map(Into::into),
    }
}

fn wi(url: Option<&str>) -> WorkItem {
    WorkItem {
        id: "w".into(),
        identifier: None,
        title: "t".into(),
        state: "Todo".into(),
        state_category: WorkItemStateCategory::Backlog,
        work_item_type: None,
        assignee: None,
        updated_at: None,
        url: url.map(Into::into),
        repository: None,
        description: None,
    }
}

fn pr_row(pr: PullRequest) -> PrRow {
    PrRow { connection_id: "c".into(), connection: "GH".into(), provider: "github".into(), pr }
}

fn wi_row(wi: WorkItem) -> WiRow {
    WiRow { connection_id: "c".into(), connection: "GH".into(), provider: "github".into(), wi }
}

/// The statuses the PR list shows out of the box.
fn shown() -> Vec<PullRequestStatus> {
    vec![PullRequestStatus::Open, PullRequestStatus::Draft]
}

#[test]
fn pr_status_summary_reads_in_canonical_order() {
    let set = vec![PullRequestStatus::Merged, PullRequestStatus::Open];
    assert_eq!(pr_status_summary(&set), "Open, Merged");
    let all = vec![PullRequestStatus::Open, PullRequestStatus::Draft, PullRequestStatus::Merged, PullRequestStatus::Closed];
    assert_eq!(pr_status_summary(&all), "all statuses");
}

#[test]
fn sort_orders_rows_and_respects_direction() {
    let mut a = pr(None);
    a.number = Some(3);
    a.title = "banana".into();
    let mut b = pr(None);
    b.number = Some(1);
    b.title = "cherry".into();
    let mut c = pr(None);
    c.number = Some(2);
    c.title = "apple".into();
    let prs = vec![pr_row(a), pr_row(b), pr_row(c)]; // provider order: numbers 3, 1, 2

    // No sort → provider order.
    assert_eq!(filtered_pr_indices(&prs, &shown(), "", &None), vec![0, 1, 2]);

    // By number, ascending then descending.
    let by = |key: &str, desc: bool| Some(SortPref { key: key.into(), desc });
    assert_eq!(filtered_pr_indices(&prs, &shown(), "", &by("number", false)), vec![1, 2, 0]); // 1,2,3
    assert_eq!(filtered_pr_indices(&prs, &shown(), "", &by("number", true)), vec![0, 2, 1]); // 3,2,1

    // By title (case-insensitive) ascending: apple, banana, cherry.
    assert_eq!(filtered_pr_indices(&prs, &shown(), "", &by("title", false)), vec![2, 0, 1]);

    // Sort composes with the quick filter (only matching rows, still sorted).
    assert_eq!(filtered_pr_indices(&prs, &shown(), "e", &by("title", false)), vec![2, 1]); // apple(2) then cherry(1)
}

#[test]
fn quick_filter_narrows_by_every_token() {
    let mut a = pr(None);
    a.title = "Fix login bug".into();
    let mut b = pr(None);
    b.title = "Update deploy pipeline".into();
    b.author.display_name = "Dana".into();
    let mut c = pr(None);
    c.title = "Refactor login flow".into();
    let prs = vec![pr_row(a), pr_row(b), pr_row(c)];
    assert_eq!(filtered_pr_indices(&prs, &shown(), "", &None), vec![0, 1, 2]);
    assert_eq!(filtered_pr_indices(&prs, &shown(), "LOGIN", &None), vec![0, 2]);
    assert_eq!(filtered_pr_indices(&prs, &shown(), "deploy dana", &None), vec![1]);
    assert!(filtered_pr_indices(&prs, &shown(), "zzz", &None).is_empty());
}

#[test]
fn wi_state_visibility_hides_and_composes_with_quick_filter() {
    let mut a = wi(None);
    a.state = "Todo".into();
    a.title = "one".into();
    let mut b = wi(None);
    b.state = "In Progress".into();
    b.title = "two".into();
    let mut c = wi(None);
    c.state = "Done".into();
    c.title = "three".into();
    let wis = vec![wi_row(a), wi_row(b), wi_row(c)];
    let mut hidden: Vec<String> = vec![];

    // Nothing hidden → all rows show, distinct states in first-seen order.
    assert_eq!(filtered_wi_indices(&wis, &hidden, "", &None), vec![0, 1, 2]);
    assert_eq!(distinct_wi_states(&wis), vec!["Todo", "In Progress", "Done"]);

    // Hiding a state drops its rows.
    hidden.push("Done".into());
    assert_eq!(filtered_wi_indices(&wis, &hidden, "", &None), vec![0, 1]);
    assert_eq!(hidden_states_in_view(&wis, &hidden), 1);

    // State-visibility composes with the `/` quick filter (AND).
    assert_eq!(filtered_wi_indices(&wis, &hidden, "two", &None), vec![1]);

    // A hidden state that isn't currently present is simply inert.
    hidden.push("Archived".into());
    assert_eq!(filtered_wi_indices(&wis, &hidden, "", &None), vec![0, 1]);
    assert_eq!(hidden_states_in_view(&wis, &hidden), 1);
}

#[test]
fn work_items_sort_by_state_category_then_name() {
    let mk = |state: &str, cat: WorkItemStateCategory| {
        let mut w = wi(None);
        w.state = state.into();
        w.state_category = cat;
        wi_row(w)
    };
    let wis = vec![
        mk("Done", WorkItemStateCategory::Completed),
        mk("doing", WorkItemStateCategory::Started),
        mk("Blocked", WorkItemStateCategory::Started),
        mk("New", WorkItemStateCategory::Triage),
    ];
    let sort = Some(SortPref { key: "state".into(), desc: false });
    assert_eq!(filtered_wi_indices(&wis, &vec![], "", &sort), vec![3, 2, 1, 0]);
    let sort = Some(SortPref { key: "nonsense".into(), desc: true });
    assert_eq!(filtered_wi_indices(&wis, &vec![], "", &sort), vec![0, 1, 2, 3], "an unknown column keeps the list order");
}

#[test]
fn labels_cut_titles_at_forty_characters() {
    let mut p = pr(None);
    p.number = Some(42);
    p.title = "x".repeat(50);
    assert_eq!(pr_label(&p), format!("PR #42 \u{2014} {}", "x".repeat(40)));
    p.number = None;
    p.title = "short".into();
    assert_eq!(pr_label(&p), "PR \u{2014} short");
    let mut w = wi(None);
    w.identifier = Some("ENG-7".into());
    assert_eq!(wi_label(&w), "ENG-7 \u{2014} t");
    w.identifier = None;
    assert_eq!(wi_label(&w), "\u{2014} t");
}

#[test]
fn the_quick_filter_reads_number_branch_labels_and_assignee() {
    let mut p = pr(None);
    p.number = Some(412);
    p.source_ref = Some("feat/pay-412".into());
    p.labels = vec!["Urgent".into(), "backend".into()];
    assert!(pr_matches(&p, "#412"));
    assert!(pr_matches(&p, "feat/pay urgent backend"));
    assert!(!pr_matches(&p, "frontend"));
    let mut w = wi(None);
    w.assignee = Some(User { id: "u".into(), display_name: "Dana Scully".into(), handle: None });
    w.work_item_type = Some("Bug".into());
    assert!(wi_matches(&w, "dana bug todo"));
    assert!(!wi_matches(&w, "mulder"));
}

#[test]
fn filters_statuses_and_votes_have_stable_spellings() {
    for f in [PullRequestFilter::All, PullRequestFilter::Mine, PullRequestFilter::ReviewRequested] {
        assert_eq!(parse_pr_filter(Some(pr_filter_key(f))), f);
    }
    assert_eq!(parse_pr_filter(Some("mine")), PullRequestFilter::Mine);
    assert_eq!(parse_pr_filter(Some("review")), PullRequestFilter::ReviewRequested);
    assert_eq!(parse_pr_filter(None), PullRequestFilter::All);
    assert_eq!(parse_pr_filter(Some("bogus")), PullRequestFilter::All);
    assert_eq!(pr_filter_label(PullRequestFilter::ReviewRequested), "review-requested");
    for s in [PullRequestStatus::Open, PullRequestStatus::Draft, PullRequestStatus::Merged, PullRequestStatus::Closed] {
        assert_eq!(parse_pr_status(pr_status_key(s)), Some(s));
    }
    assert_eq!(parse_pr_status("open"), None);
    assert_eq!(vote_message(ReviewVote::Rejected), "Requested changes");
    assert_eq!(vote_message(ReviewVote::NoVote), "Vote reset");
}

#[test]
fn the_pr_cache_key_carries_the_filter_and_completed_ness() {
    assert_eq!(prs_cache_key(PullRequestFilter::ReviewRequested, true), "list.prs.ReviewRequested.true");
    assert_eq!(prs_cache_key(PullRequestFilter::All, false), "list.prs.All.false");
    assert_ne!(prs_cache_key(PullRequestFilter::Mine, false), prs_cache_key(PullRequestFilter::Mine, true));
}

#[test]
fn review_transitions_fire_only_on_newly_cast_votes() {
    assert_eq!(pr_review_transitions(None, (true, false)), (true, false), "first-seen approval fires");
    assert_eq!(pr_review_transitions(Some((true, false)), (true, false)), (false, false), "already-approved doesn't re-fire");
    assert_eq!(pr_review_transitions(Some((false, false)), (false, true)), (false, true));
}

#[test]
fn quick_filter_input_edits_and_clears() {
    let mut a = pr(None);
    a.title = "alpha".into();
    let mut b = pr(None);
    b.title = "beta".into();
    let prs = vec![pr_row(a), pr_row(b)];
    let mut app = Navigation::new();
    app.active = 0;
    let rows = |app: &Navigation| filtered_pr_indices(&prs, &shown(), app.active_filter(), &None);

    app.start_filter();
    assert!(app.filtering);
    for ch in "beta".chars() {
        if app.on_filter_key(Key::Char(ch)) {
            let n = rows(&app).len();
            app.reset_filter_selection(n);
        }
    }
    assert_eq!(rows(&app), vec![1]);
    // Selection re-anchors to the first match as the query changes.
    assert_eq!(app.selected(), Some(0));

    // Backspace widens the match.
    app.on_filter_key(Key::Backspace);
    assert_eq!(app.active_filter(), "bet");

    // Enter applies and closes the input, keeping the filter.
    app.on_filter_key(Key::Enter);
    assert!(!app.filtering);
    assert_eq!(app.active_filter(), "bet");

    // Esc while typing clears the filter and closes the input.
    app.start_filter();
    app.on_filter_key(Key::Escape);
    assert!(!app.filtering);
    assert!(app.active_filter().is_empty());
    assert_eq!(rows(&app), vec![0, 1]);
}

#[test]
fn the_state_checklist_hides_the_unticked_states_in_view_only() {
    let mut a = wi(None);
    a.state = "Todo".into();
    let mut b = wi(None);
    b.state = "Done".into();
    let wis = vec![wi_row(a), wi_row(b)];
    // "Blocked" is hidden from another provider's states and not in view now.
    let mut hidden: Vec<String> = vec!["Blocked".into(), "Todo".into()];
    apply_wi_states(&mut hidden, &wis, &vec!["Todo".to_string()]);
    hidden.sort();
    assert_eq!(hidden, vec!["Blocked".to_string(), "Done".to_string()], "Todo shown again, Done hidden, Blocked untouched");
    assert_eq!(hidden_states_in_view(&wis, &hidden), 1);
    assert_eq!(states_toast(1), "1 state(s) hidden");
    assert_eq!(states_toast(0), "Showing all states");
}

#[test]
fn the_status_checklist_keeps_the_statuses_it_names() {
    let shown = shown_statuses(&vec!["Merged".to_string(), "bogus".to_string(), "Open".to_string()]);
    assert_eq!(shown, vec![PullRequestStatus::Merged, PullRequestStatus::Open]);
    assert_eq!(pr_status_summary(&shown), "Open, Merged");
}

#[test]
fn the_status_checklist_ticks_the_shown_statuses_and_applies_back_unchanged() {
    let shown = vec![PullRequestStatus::Draft, PullRequestStatus::Closed];
    let items = pr_status_items(&shown);
    assert_eq!(items.iter().map(|i| i.id.as_str()).collect::<Vec<_>>(), vec!["Open", "Draft", "Merged", "Closed"]);
    assert_eq!(items.iter().map(|i| i.on).collect::<Vec<_>>(), vec![false, true, false, true]);
    let ticked: Vec<String> = items.into_iter().filter(|i| i.on).map(|i| i.id).collect();
    assert_eq!(shown_statuses(&ticked), shown);
}

fn strings(v: &[&str]) -> Vec<String> {
    v.iter().map(|s| s.to_string()).collect()
}

#[test]
fn the_state_picker_falls_back_and_preselects_the_current_state() {
    let (rows, sel) = wi_state_choices(strings(&["New", "Active", "Closed"]), vec![], &"Active".to_string());
    assert_eq!(rows, strings(&["New", "Active", "Closed"]));
    assert_eq!(sel, 1);
    let (rows, sel) = wi_state_choices(vec![], strings(&["Open", "Done"]), &"Blocked".to_string());
    assert_eq!(rows, strings(&["Blocked", "Open", "Done"]), "the current state is put first");
    assert_eq!(sel, 0);
    let (rows, sel) = wi_state_choices(vec![], strings(&["Open"]), &String::new());
    assert_eq!(rows, strings(&["Todo", "In Progress", "Done"]), "fewer than two seen: the plain flow");
    assert_eq!(sel, 0);
    let (rows, sel) = wi_state_choices(vec![], vec![], &"Done".to_string());
    assert_eq!(rows, strings(&["Todo", "In Progress", "Done"]));
    assert_eq!(sel, 2);
}

#[test]
fn quick_filter_narrows_and_maps_selection() {
    let mut a = pr(None);
    a.title = "Fix login bug".into();
    let mut b = pr(None);
    b.title = "Update deploy pipeline".into();
    b.author.display_name = "Dana".into();
    let mut c = pr(None);
    c.title = "Refactor login flow".into();
    let prs = vec![pr_row(a), pr_row(b), pr_row(c)];

    assert_eq!(filtered_pr_indices(&prs, &shown(), "", &None), vec![0, 1, 2]);

    let idx = filtered_pr_indices(&prs, &shown(), "LOGIN", &None);
    assert_eq!(idx, vec![0, 2]);

    let selected = Some(1usize);
    assert_eq!(selected.and_then(|p| idx.get(p)).map(|&i| prs[i].pr.title.as_str()), Some("Refactor login flow"));

    assert_eq!(filtered_pr_indices(&prs, &shown(), "deploy dana", &None), vec![1]);

    let none = filtered_pr_indices(&prs, &shown(), "zzz", &None);
    assert!(none.is_empty());
    assert_eq!(none.len(), 0);
}
