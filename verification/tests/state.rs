use forgetop_tui::lists::{PullRequestFilter, PullRequestStatus};
use forgetop_tui::pipes::PipeGroup;
use forgetop_tui::sections::Section;
use forgetop_tui::setup::{wizard_connection, wizard_outcome, WizardDraft};
use forgetop_tui::actions::{context_actions, ScreenFacts};
use forgetop_tui::inbox::InboxRow;
use forgetop_tui::keys::Key;
use forgetop_tui::routing::{list_key, route_key, KeyContext, KeyRoute, ListKey};
use forgetop_tui::prview::{on_wi_view_key, ViewKeyAction};
use forgetop_tui::reload::{PrPool, Reloaded};
use forgetop_tui::sections::SectionsOk;
use forgetop_tui::state::{view_origin, AppState, ListKeyLeft};
use forgetop_tui::tabs::ScreenKind;

#[test]
fn the_app_starts_on_the_command_center_loading_with_open_and_draft_prs() {
    let a: AppState<u32> = AppState::new("slate".into());
    assert_eq!(a.theme, "slate");
    assert_eq!(a.nav.screen, ScreenKind::Launchpad);
    assert_eq!(a.nav.active, 0);
    assert_eq!(a.nav.visible, vec![true, true, true]);
    assert_eq!(a.lists.status, "Loading\u{2026}");
    assert!(a.lists.loading && !a.lists.reloading && !a.should_quit);
    assert_eq!(a.pr_filter, PullRequestFilter::All);
    assert_eq!(a.pr_shown_statuses, vec![PullRequestStatus::Open, PullRequestStatus::Draft]);
    assert_eq!(a.pipe_group, PipeGroup::Pipeline);
    assert!(a.toast.is_none() && !a.overlay_open);
}

#[test]
fn a_left_item_view_goes_back_where_it_was_opened_from() {
    assert_eq!(view_origin(true, true), ScreenKind::Inbox);
    assert_eq!(view_origin(false, true), ScreenKind::Launchpad);
    assert_eq!(view_origin(false, false), ScreenKind::List);
    let mut a: AppState<u32> = AppState::new("slate".into());
    a.nav.screen = ScreenKind::PrView;
    a.lp_origin = true;
    a.leave_view();
    assert_eq!(a.nav.screen, ScreenKind::Launchpad);
    assert!(!a.should_quit);
}

fn draft(provider: Option<&str>, name: &str) -> WizardDraft {
    WizardDraft {
        provider: provider.map(Into::into),
        display_name: name.into(),
        base_url: None,
        organization: Some("acme".into()),
        project: None,
        repository: None,
        username: None,
        bind_sections: vec![Section::PullRequests],
    }
}

#[test]
fn the_wizard_needs_a_provider_and_names_a_nameless_connection_after_it() {
    match wizard_connection(&draft(None, "x"), "id1".into()) {
        Err(m) => assert_eq!(m, "No provider chosen"),
        Ok(_) => panic!("no provider, no connection"),
    }
    let c = wizard_connection(&draft(Some("github"), ""), "id1".into()).unwrap();
    assert_eq!((c.id.as_str(), c.provider.as_str(), c.display_name.as_str()), ("id1", "github", "github"));
    assert_eq!(c.organization.as_deref(), Some("acme"));
    assert!(c.repo_scope.is_none());
    let c = wizard_connection(&draft(Some("github"), "Work"), "id1".into()).unwrap();
    assert_eq!(c.display_name, "Work");
}

#[test]
fn the_wizard_reports_what_it_bound() {
    let o = wizard_outcome("github", 2, &vec![], Some(5), false);
    assert_eq!(o.toast, "Added github connection \u{b7} 5 repositories \u{b7} 2 sections");
    assert!(o.reload && !o.error && !o.open_notifications);
    assert_eq!(wizard_outcome("gitlab", 1, &vec![], None, false).toast, "Added gitlab connection \u{b7} 1 section");
    assert_eq!(wizard_outcome("gitlab", 0, &vec![], None, false).toast, "Added gitlab connection");
    let o = wizard_outcome("gitlab", 1, &vec!["Work items: 403".into(), "Pipelines: 500".into()], None, true);
    assert_eq!(o.toast, "Added, but binding failed \u{2014} Work items: 403; Pipelines: 500");
    assert!(o.error && o.reload && !o.open_notifications);
    let o = wizard_outcome("gitlab", 1, &vec![], None, true);
    assert_eq!(o.toast, "Choose which notifications you want");
    assert!(o.open_notifications);
}

fn list_context(screen: ScreenKind) -> KeyContext {
    KeyContext {
        wizard: false,
        overlay: false,
        filtering: false,
        screen,
        log_search: false,
        logs_have_keys: false,
        pending_comments: false,
    }
}

#[test]
fn ctrl_c_quits_and_keeps_the_toast() {
    let mut a: AppState<u32> = AppState::new("slate".into());
    a.toast = Some("saved".into());
    let r = route_key(list_context(ScreenKind::List), Key::Quit);
    assert!(a.take_route(r, &vec![0, 0, 0]));
    assert!(a.should_quit);
    assert_eq!(a.toast.as_deref(), Some("saved"));
}

#[test]
fn help_opens_a_dialog_and_clears_the_toast() {
    let mut a: AppState<u32> = AppState::new("slate".into());
    a.toast = Some("saved".into());
    let r = route_key(list_context(ScreenKind::Launchpad), Key::Char('?'));
    assert!(a.take_route(r, &vec![0, 0, 0]));
    assert!(a.overlay_open && a.toast.is_none() && !a.should_quit);
}

#[test]
fn i_shows_the_inbox_with_its_cursor_on_a_row() {
    let mut a: AppState<u32> = AppState::new("slate".into());
    a.nav.screen = ScreenKind::List;
    a.lists.inbox.rows = vec![
        InboxRow { connection_id: "c".into(), id: "1".into(), unread: true },
        InboxRow { connection_id: "c".into(), id: "2".into(), unread: false },
    ];
    a.lists.inbox.sel = 7;
    let r = route_key(list_context(ScreenKind::List), Key::Char('i'));
    assert_eq!(r, KeyRoute::Inbox);
    assert!(a.take_route(r, &vec![0, 0, 0]));
    assert_eq!(a.nav.screen, ScreenKind::Inbox);
    assert_eq!(a.lists.inbox.sel, 1);
}

#[test]
fn tab_walks_the_strip_and_wraps() {
    let mut a: AppState<u32> = AppState::new("slate".into());
    let lens = vec![2, 0, 5];
    assert!(a.take_route(route_key(list_context(ScreenKind::Launchpad), Key::Tab), &lens));
    assert_eq!(a.nav.screen, ScreenKind::List);
    assert_eq!(a.nav.active, 0);
    assert!(a.take_route(route_key(list_context(ScreenKind::List), Key::BackTab), &lens));
    assert_eq!(a.nav.screen, ScreenKind::Launchpad);
    assert!(a.take_route(route_key(list_context(ScreenKind::Launchpad), Key::BackTab), &lens));
    assert_eq!(a.nav.screen, ScreenKind::List);
    assert_eq!(a.nav.active, 2);
}

#[test]
fn a_screen_key_is_left_to_the_app_with_the_toast_gone() {
    let mut a: AppState<u32> = AppState::new("slate".into());
    a.toast = Some("saved".into());
    let r = route_key(list_context(ScreenKind::List), Key::Down);
    assert_eq!(r, KeyRoute::Screen);
    assert!(!a.take_route(r, &vec![0, 0, 0]));
    assert!(a.toast.is_none());
    assert_eq!(a.nav.screen, ScreenKind::Launchpad);
}

#[test]
fn the_list_actions_follow_the_active_sections_own_state() {
    let mut a: AppState<u32> = AppState::new("slate".into());
    a.nav.active = 1;
    a.nav.filters[1] = "blocked".into();
    a.nav.sel[1] = Some(0);
    let f = a.list_facts(false);
    assert!(matches!(
        f,
        ScreenFacts::List { section: 1, filter_active: true, saved_views: 0, has_selection: true, has_preview: false }
    ));
    let out = context_actions(&f, false);
    assert_eq!(out[0], ("Clear quick filter", Key::Escape));
    assert!(out.contains(&("Open selected in browser", Key::Char('o'))));
    assert!(!out.contains(&("Focus the preview pane", Key::Char('p'))));
}

#[test]
fn refresh_and_action_diagnostics_never_receive_private_provider_errors() {
    let private_error = "failed https://github.com/acme/private-repo?t=dashboard-secret";

    let mut app: AppState<u32> = AppState::new("slate".into());
    let mut refresh_logs = Vec::new();
    app.apply_reloaded_with_logger(
        Reloaded {
            pr_pool: PrPool::new(),
            prs: Vec::new(),
            lp_prs_mine: Vec::new(),
            lp_prs_review: Vec::new(),
            wis: Vec::new(),
            pipes: Vec::new(),
            inbox: Vec::new(),
            health: Vec::new(),
            catalog: None,
            scan: None,
            errors: vec![private_error.into()],
            ok: SectionsOk { prs: true, wis: true, pipes: true, inbox: true, lp_mine: true, lp_review: true },
        },
        |context: &str, message: &str| refresh_logs.push((context.to_owned(), message.to_owned())),
    );
    assert!(app.lists.status.contains(private_error), "the transient UI keeps useful detail");
    assert_eq!(refresh_logs, vec![("tui.refresh".to_owned(), "operation failed".to_owned())]);

    let mut action_logs = Vec::new();
    app.toast_error_with_logger(private_error.into(), |context: &str, message: &str| {
        action_logs.push((context.to_owned(), message.to_owned()))
    });
    assert_eq!(app.toast.as_deref(), Some(private_error));
    assert_eq!(action_logs, vec![("tui.action".to_owned(), "operation failed".to_owned())]);

    for (context, message) in refresh_logs.into_iter().chain(action_logs) {
        assert!(!context.contains("private-repo") && !context.contains("dashboard-secret"));
        assert!(!message.contains("private-repo") && !message.contains("dashboard-secret"));
    }
}

#[test]
fn a_clean_refresh_logs_nothing() {
    let mut app: AppState<u32> = AppState::new("slate".into());
    let mut logged = 0;
    app.apply_reloaded_with_logger(
        Reloaded {
            pr_pool: PrPool::new(),
            prs: Vec::new(),
            lp_prs_mine: Vec::new(),
            lp_prs_review: Vec::new(),
            wis: Vec::new(),
            pipes: Vec::new(),
            inbox: Vec::new(),
            health: Vec::new(),
            catalog: None,
            scan: None,
            errors: Vec::new(),
            ok: SectionsOk { prs: true, wis: true, pipes: true, inbox: true, lp_mine: true, lp_review: true },
        },
        |_: &str, _: &str| logged += 1,
    );
    assert_eq!(logged, 0);
    assert!(!app.lists.loading);
}

#[test]
fn escape_returns_to_the_launchpad_when_opened_from_it() {
    let mut app: AppState<u32> = AppState::new("slate".into());

    let mut scroll: u16 = 0;

    app.lp_origin = true;
    app.nav.screen = ScreenKind::WiView;
    assert!(matches!(on_wi_view_key(&mut scroll, Key::Escape, 10), ViewKeyAction::Leave));
    app.leave_view();
    assert_eq!(app.nav.screen, ScreenKind::Launchpad);

    app.lp_origin = false;
    app.nav.screen = ScreenKind::WiView;
    assert!(matches!(on_wi_view_key(&mut scroll, Key::Escape, 10), ViewKeyAction::Leave));
    app.leave_view();
    assert_eq!(app.nav.screen, ScreenKind::List);
}

fn on_list(active: usize) -> AppState<u32> {
    let mut a: AppState<u32> = AppState::new("slate".into());
    a.nav.screen = ScreenKind::List;
    a.nav.active = active;
    a.nav.content_h = 3;
    a
}

#[test]
fn escape_on_a_list_clears_the_filter_first_then_goes_back() {
    let mut a = on_list(1);
    a.nav.filters[1] = "bug".into();
    a.nav.sel[1] = Some(2);
    a.nav.list_scroll = 4;
    assert_eq!(a.take_list_key(list_key(Key::Escape), 1, 5), ListKeyLeft::Nothing);
    assert!(a.nav.filters[1].is_empty());
    assert_eq!(a.nav.sel[1], Some(0));
    assert_eq!(a.nav.list_scroll, 0);
    assert_eq!(a.nav.screen, ScreenKind::List);
    a.take_list_key(ListKey::Leave, 5, 5);
    assert_eq!(a.nav.screen, ScreenKind::Launchpad);
}

#[test]
fn the_arrows_wrap_and_keep_the_cursor_in_view() {
    let mut a = on_list(0);
    a.take_list_key(list_key(Key::Down), 5, 5);
    assert_eq!(a.nav.sel[0], Some(0), "nothing selected: the first row");
    a.take_list_key(ListKey::Up, 5, 5);
    assert_eq!(a.nav.sel[0], Some(4), "up from the top wraps to the bottom");
    assert_eq!(a.nav.list_scroll, 2, "scrolled so the last row shows in a 3-row view");
    a.take_list_key(ListKey::Down, 5, 5);
    assert_eq!(a.nav.sel[0], Some(0));
    assert_eq!(a.nav.list_scroll, 0);
}

#[test]
fn the_page_keys_scroll_by_eight_and_saturate() {
    let mut a = on_list(2);
    a.take_list_key(list_key(Key::PageDown), 0, 0);
    assert_eq!(a.nav.list_scroll, 8);
    a.take_list_key(ListKey::PageUp, 0, 0);
    a.take_list_key(ListKey::PageUp, 0, 0);
    assert_eq!(a.nav.list_scroll, 0);
}

#[test]
fn enter_on_a_list_opens_from_the_list_and_chars_go_back_to_the_app() {
    let mut a = on_list(0);
    a.lp_origin = true;
    a.from_inbox = true;
    assert_eq!(a.take_list_key(list_key(Key::Enter), 2, 2), ListKeyLeft::Open);
    assert!(!a.lp_origin && !a.from_inbox);
    assert_eq!(a.take_list_key(list_key(Key::Char('r')), 2, 2), ListKeyLeft::Char('r'));
    assert_eq!(a.take_list_key(list_key(Key::Left), 2, 2), ListKeyLeft::Nothing);
}
