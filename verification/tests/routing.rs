use forgetop_tui::keys::Key;
use forgetop_tui::routing::{
    clears_toast, list_command, list_key, route_key, screen_route, KeyContext, KeyRoute, ListCommand, ListKey, ScreenRoute,
};
use forgetop_tui::tabs::{Navigation, ScreenKind};

fn cx(screen: ScreenKind) -> KeyContext {
    KeyContext {
        wizard: false,
        overlay: false,
        filtering: false,
        screen,
        log_search: false,
        logs_have_keys: false,
        pending_comments: false,
    }
}

const SCREENS: [ScreenKind; 7] = [
    ScreenKind::Launchpad,
    ScreenKind::List,
    ScreenKind::Pipeline,
    ScreenKind::Config,
    ScreenKind::PrView,
    ScreenKind::WiView,
    ScreenKind::Inbox,
];

#[test]
fn neither_escape_nor_q_is_routed_to_quitting_on_any_screen() {
    for s in SCREENS {
        for key in [Key::Escape, Key::Char('q')] {
            assert_ne!(route_key(cx(s), key), KeyRoute::Quit, "{key:?} on {s:?}");
        }
        assert_eq!(route_key(cx(s), Key::Quit), KeyRoute::Quit, "Ctrl-C quits from {s:?}");
    }
    let mut busy = cx(ScreenKind::List);
    busy.overlay = true;
    assert_eq!(route_key(busy, Key::Quit), KeyRoute::Quit, "even over a dialog");
}

#[test]
fn input_modes_take_every_key_in_order() {
    let mut c = cx(ScreenKind::List);
    c.filtering = true;
    assert_eq!(route_key(c, Key::Char('?')), KeyRoute::Filter, "typing ? into the filter");
    c.overlay = true;
    assert_eq!(route_key(c, Key::Tab), KeyRoute::Overlay);
    c.wizard = true;
    assert_eq!(route_key(c, Key::Char('n')), KeyRoute::Wizard);
    assert_eq!(route_key(c, Key::Redraw), KeyRoute::Redraw, "a resize only redraws");
}

#[test]
fn the_log_pane_keeps_its_prompt_and_match_keys() {
    let mut c = cx(ScreenKind::Pipeline);
    c.logs_have_keys = true;
    assert_eq!(route_key(c, Key::Char('n')), KeyRoute::PipelineLogs, "next match, not add-connection");
    assert_eq!(route_key(c, Key::Char('N')), KeyRoute::PipelineLogs);
    assert_eq!(route_key(c, Key::Char('?')), KeyRoute::Help);
    c.logs_have_keys = false;
    assert_eq!(route_key(c, Key::Char('n')), KeyRoute::SetupPicker);
    c.log_search = true;
    assert_eq!(route_key(c, Key::Tab), KeyRoute::PipelineLogs, "the prompt takes Tab too");
}

#[test]
fn the_global_keys_answer_everywhere() {
    for s in SCREENS {
        assert_eq!(route_key(cx(s), Key::Ctrl('k')), KeyRoute::Palette);
        assert_eq!(route_key(cx(s), Key::Ctrl('p')), KeyRoute::Palette);
        assert_eq!(route_key(cx(s), Key::Char('B')), KeyRoute::Dashboard);
        assert_eq!(route_key(cx(s), Key::Char('F')), KeyRoute::Feedback);
        assert_eq!(route_key(cx(s), Key::Char('n')), KeyRoute::SetupPicker);
        assert_eq!(route_key(cx(s), Key::Char('N')), KeyRoute::NotificationsToggle);
    }
    assert_eq!(route_key(cx(ScreenKind::List), Key::Char('i')), KeyRoute::Inbox);
    assert_eq!(route_key(cx(ScreenKind::Launchpad), Key::Char('i')), KeyRoute::Inbox);
    assert_eq!(route_key(cx(ScreenKind::PrView), Key::Char('i')), KeyRoute::Screen, "an item view keeps i");
}

#[test]
fn tab_walks_the_strip_unless_comments_are_pending() {
    for s in SCREENS {
        assert_eq!(route_key(cx(s), Key::Tab), KeyRoute::SwitchTab(1));
        assert_eq!(route_key(cx(s), Key::BackTab), KeyRoute::SwitchTab(-1));
    }
    let mut c = cx(ScreenKind::PrView);
    c.pending_comments = true;
    assert_eq!(route_key(c, Key::Tab), KeyRoute::PendingExitPrompt, "same prompt Esc raises");
}

#[test]
fn the_screens_answer_the_rest() {
    assert_eq!(route_key(cx(ScreenKind::List), Key::Down), KeyRoute::Screen);
    assert_eq!(screen_route(ScreenKind::PrView, Key::Enter, 1), ScreenRoute::CommitDiff);
    assert_eq!(screen_route(ScreenKind::PrView, Key::Enter, 3), ScreenRoute::PrView);
    assert_eq!(screen_route(ScreenKind::WiView, Key::Char('u'), 0), ScreenRoute::WiState);
    assert_eq!(screen_route(ScreenKind::WiView, Key::Char('@'), 0), ScreenRoute::WiAssign);
    assert_eq!(screen_route(ScreenKind::WiView, Key::Char('c'), 0), ScreenRoute::WiView);
    assert_eq!(screen_route(ScreenKind::Pipeline, Key::Enter, 0), ScreenRoute::PipelineScreen);
    assert_eq!(screen_route(ScreenKind::List, Key::Escape, 0), ScreenRoute::List(ListKey::Leave));
    assert_eq!(list_key(Key::Left), ListKey::Nothing, "the arrows sideways switch nothing");
    assert_eq!(list_key(Key::Char('r')), ListKey::Char('r'));
    assert!(clears_toast(Key::Down));
    assert!(!clears_toast(Key::Redraw));
}

#[test]
fn page_keys_scroll_the_list_by_eight_and_stop_at_the_ends() {
    let mut n = Navigation::new();
    n.scroll_list_page(true);
    assert_eq!(n.list_scroll, 8);
    n.scroll_list_page(false);
    n.scroll_list_page(false);
    assert_eq!(n.list_scroll, 0);
    n.list_scroll = u16::MAX - 3;
    n.scroll_list_page(true);
    assert_eq!(n.list_scroll, u16::MAX);
}

#[test]
fn list_commands_follow_the_active_section() {
    assert_eq!(list_command('1', 0), ListCommand::SetTab(0), "1 = the Launchpad");
    assert_eq!(list_command('4', 1), ListCommand::SetTab(3));
    assert_eq!(list_command('[', 2), ListCommand::SwitchView(-1));
    assert_eq!(list_command(']', 2), ListCommand::SwitchView(1));
    assert_eq!(list_command('f', 0), ListCommand::PrStatusToggle);
    assert_eq!(list_command('f', 1), ListCommand::WiStatesToggle);
    assert_eq!(list_command('f', 2), ListCommand::Nothing, "the Pipelines list has no status filter");
    assert_eq!(list_command('T', 2), ListCommand::PipelineTrigger);
    assert_eq!(list_command('T', 0), ListCommand::Nothing);
    assert_eq!(list_command('G', 2), ListCommand::CycleGroup);
    assert_eq!(list_command(' ', 2), ListCommand::EnterPipelineLine);
    assert_eq!(list_command('z', 2), ListCommand::AllGroups(false));
    assert_eq!(list_command('Z', 2), ListCommand::AllGroups(true));
    assert_eq!(list_command('g', 1), ListCommand::RepoScope);
    assert_eq!(list_command('q', 1), ListCommand::Leave);
    assert_eq!(list_command('u', 0), ListCommand::Nothing, "item actions live in the opened view");
}
