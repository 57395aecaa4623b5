use forgetop_tui::inbox::InboxRow;
use forgetop_tui::lists::{CheckStatus, PrRow, PullRequest, PullRequestStatus, User, WiRow, WorkItem, WorkItemStateCategory};
use forgetop_tui::reload::{
    apply_reloaded, cache_writes, reload_status, CacheSection, ConnHealth, ListsState, PrPool, Reloaded, RepoPage,
};
use forgetop_tui::sections::SectionsOk;

fn ok(all: bool) -> SectionsOk {
    SectionsOk { prs: all, wis: all, pipes: all, inbox: all, lp_mine: all, lp_review: all }
}

fn note(id: &str) -> InboxRow {
    InboxRow { connection_id: "c".into(), id: id.into(), unread: true }
}

fn pr_row(id: &str) -> PrRow {
    PrRow {
        connection_id: "c".into(),
        connection: "GH".into(),
        provider: "github".into(),
        pr: PullRequest {
            id: id.into(),
            number: None,
            title: "t".into(),
            author: User { id: "me".into(), display_name: "me".into(), handle: None },
            status: PullRequestStatus::Open,
            is_draft: false,
            source_ref: None,
            labels: vec![],
            checks: CheckStatus::NoChecks,
            updated_at: None,
            url: None,
        },
    }
}

fn wi_row() -> WiRow {
    WiRow {
        connection_id: "c".into(),
        connection: "GH".into(),
        provider: "github".into(),
        wi: WorkItem {
            id: "w".into(),
            identifier: None,
            title: "t".into(),
            state: "Todo".into(),
            state_category: WorkItemStateCategory::Backlog,
            work_item_type: None,
            assignee: None,
            updated_at: None,
            url: None,
            repository: None,
            description: None,
        },
    }
}

fn pool(rows: Vec<PrRow>) -> PrPool {
    let mut p = PrPool::new();
    p.open = rows;
    p
}

fn empty_reload(ok: SectionsOk, errors: Vec<String>) -> Reloaded {
    Reloaded {
        pr_pool: PrPool::new(),
        prs: vec![],
        lp_prs_mine: vec![],
        lp_prs_review: vec![],
        wis: vec![],
        pipes: vec![],
        inbox: vec![],
        health: vec![],
        catalog: None,
        scan: None,
        errors,
        ok,
    }
}

#[test]
fn the_status_line_counts_or_lists_the_errors() {
    assert_eq!(reload_status(3, 1, 0, &vec![]), "3 PRs \u{b7} 1 work items \u{b7} 0 runs");
    assert_eq!(reload_status(3, 1, 0, &vec!["a".into(), "b".into()]), "a  |  b");
}

#[test]
fn apply_reloaded_swaps_data_and_clears_refresh_flags() {
    let mut s: ListsState<u32> = ListsState::new();
    s.reloading = true;
    let mut r = empty_reload(ok(true), vec![]);
    r.pr_pool = pool(vec![pr_row("1"), pr_row("2")]);
    r.prs = vec![pr_row("1"), pr_row("2")];
    r.wis = vec![wi_row()];
    let e = apply_reloaded(&mut s, r);
    assert_eq!(s.prs.len(), 2);
    assert_eq!(s.wis.len(), 1);
    assert!(s.pr_pool_loaded);
    assert!(!s.reloading && !s.loading, "refresh flags cleared");
    assert!(s.status.contains("2 PRs") && s.status.contains("1 work items"), "status summarises");
    assert!(!e.log_failure);
}

#[test]
fn a_wholly_failed_reload_keeps_the_rows_the_pool_and_their_age() {
    let mut s: ListsState<u32> = ListsState::new();
    assert_eq!(s.status, "Loading\u{2026}");
    s.pr_pool = pool(vec![pr_row("1")]);
    s.inbox.rows = vec![note("1"), note("2")];
    s.inbox.sel = 1;
    s.data_age = Some(120);
    let e = apply_reloaded(&mut s, empty_reload(ok(false), vec!["PRs: 502".into()]));
    assert!(e.toast.is_none());
    assert!(e.log_failure, "a failed refresh is logged");
    assert!(e.cache.is_empty(), "nothing partial is cached");
    assert_eq!(s.pr_pool.open.len(), 1, "a failed PR section that brought nothing keeps the pool");
    assert!(!s.pr_pool_loaded);
    assert_eq!(s.inbox.rows.len(), 2, "an outage that brought nothing keeps the rows");
    assert_eq!(s.data_age, Some(120), "and still says how old they are");
    assert_eq!(s.status, "PRs: 502");
    assert!(!s.loading && !s.reloading);
}

#[test]
fn a_clean_reload_takes_health_catalog_and_retires_the_waiting_card() {
    let mut s: ListsState<u32> = ListsState::new();
    s.inbox.rows = vec![note("1"), note("2"), note("3")];
    s.inbox.sel = 2;
    s.data_age = Some(60);
    s.awaiting_browser_setup = true;
    s.decorations.land(vec![(("c".into(), "gone".into()), Some(5)), (("c".into(), "x".into()), None)]);
    let mut r = empty_reload(ok(true), vec![]);
    r.inbox = vec![note("9")];
    r.health = vec![ConnHealth { connection_id: "c".into(), healthy: true }];
    r.catalog = Some(vec![("c".into(), RepoPage { repositories: vec!["a/b".into()], truncated: false })]);
    let e = apply_reloaded(&mut s, r);
    assert_eq!(e.toast.as_deref(), Some("Connection added \u{2014} you're all set"));
    assert_eq!(e.cache.len(), 6);
    assert!(!s.awaiting_browser_setup);
    assert_eq!(s.inbox.sel, 0);
    assert_eq!(s.data_age, None);
    assert_eq!(s.health.len(), 1);
    assert_eq!(s.catalog.len(), 1);
    assert!(s.decorations.done.is_empty(), "decorations of rows the pool no longer holds go");
    assert!(s.decorations.failed.is_empty(), "and failures are retried");
    assert_eq!(s.status, "0 PRs \u{b7} 0 work items \u{b7} 0 runs");
    // A reload that ran no discovery leaves the catalog alone.
    apply_reloaded(&mut s, empty_reload(ok(true), vec![]));
    assert_eq!(s.catalog.len(), 1);
}

#[test]
fn a_partial_section_is_not_written_through_but_the_others_are() {
    let partial = SectionsOk { prs: false, ..ok(true) };
    assert_eq!(
        cache_writes(partial),
        vec![CacheSection::WorkItems, CacheSection::Pipelines, CacheSection::Inbox, CacheSection::LaunchpadMine, CacheSection::LaunchpadReview]
    );
    let lp_down = SectionsOk { lp_mine: false, lp_review: false, ..ok(true) };
    assert!(!cache_writes(lp_down).contains(&CacheSection::LaunchpadMine));
}

#[test]
fn a_wholly_failed_reload_keeps_the_seeded_rows_and_their_age() {
    let seeded: i64 = 1_200;
    let mut s: ListsState<u32> = ListsState::new();
    s.prs = vec![pr_row("1")];
    s.wis = vec![wi_row()];
    s.data_age = Some(seeded);
    assert_eq!(s.prs.len(), 1, "sanity: seeded before any fetch");
    s.inbox.rows = vec![note("a"), note("b")];
    s.inbox.sel = 1;

    let r = empty_reload(ok(false), vec![]);
    apply_reloaded(&mut s, r);

    assert_eq!(s.prs.len(), 1, "an outage must not blank what the cache seeded");
    assert_eq!(s.wis.len(), 1);
    assert_eq!(s.inbox.rows.len(), 2, "the inbox is kept too");
    assert_eq!(s.inbox.sel, 1, "and the selection still points into the list that stayed");
    assert_eq!(s.data_age, Some(seeded), "rows are still cached, so the footer keeps saying so");
}

#[test]
fn a_short_live_section_is_taken_but_only_a_clean_reload_clears_the_age() {
    let mut s: ListsState<u32> = ListsState::new();
    s.prs = vec![pr_row("1"), pr_row("2"), pr_row("3")];
    s.data_age = Some(3_600);

    let mut partial = empty_reload(ok(true), vec![]);
    partial.prs = vec![pr_row("4")];
    partial.ok.prs = false;
    apply_reloaded(&mut s, partial);
    assert_eq!(s.prs.len(), 1, "partial live rows beat stale ones on screen");
    assert!(s.data_age.is_some(), "but one section short still means the age is real");

    apply_reloaded(&mut s, empty_reload(ok(true), vec![]));
    assert!(s.prs.is_empty(), "an answered empty section does clear the list");
    assert!(s.data_age.is_none(), "nothing on screen is cached any more");
}
