use forgetop_tui::sections::{index_of, Section};
use forgetop_tui::tabs::{Navigation, ScreenKind};

fn lens() -> Vec<usize> {
    vec![4, 2, 3]
}

#[test]
fn hiding_a_section_skips_it_in_tabs_and_navigation() {
    let mut app = Navigation::new();
    app.apply_hidden_sections(&[Section::WorkItems]);
    assert_eq!(app.visible_indices(), vec![0, 2]);

    // Tab strip is [Launchpad, Pull Requests, Pipelines] (Work Items hidden).
    // Start on the Launchpad (the default screen).
    app.switch_tab(1, &lens()); // Launchpad -> PR
    assert!(matches!(app.screen, ScreenKind::List));
    assert_eq!(app.active, 0);
    app.switch_tab(1, &lens()); // PR -> Pipelines, skipping the hidden Work Items
    assert_eq!(app.active, 2);
    app.switch_tab(1, &lens()); // wraps back to the Launchpad
    assert!(matches!(app.screen, ScreenKind::Launchpad));

    app.set_tab(1, &lens()); // tab 1 = Pull Requests
    assert!(matches!(app.screen, ScreenKind::List));
    assert_eq!(app.active, 0);
    app.set_tab(2, &lens()); // tab 2 = Pipelines
    assert_eq!(app.active, 2);
}

#[test]
fn hiding_the_active_section_falls_back_to_first_visible() {
    let mut app = Navigation::new();
    app.active = 1; // Work Items
    app.apply_hidden_sections(&[Section::WorkItems]);
    assert!(!app.visible[1]);
    assert_eq!(app.active, 0);
}

#[test]
fn hiding_every_section_keeps_pull_requests() {
    let mut app = Navigation::new();
    app.active = 2;
    app.apply_hidden_sections(&[Section::Pipelines, Section::PullRequests, Section::WorkItems]);
    assert_eq!(app.visible, vec![true, false, false]);
    assert_eq!(app.active, 0);
    assert_eq!(app.first_visible(), 0);
}

#[test]
fn tab_leaves_an_item_view_from_the_section_it_belongs_to() {
    // A PR opened from elsewhere leaves `active` on the Pipelines: Tab still leaves from
    // Pull Requests.
    let mut app = Navigation::new();
    app.active = index_of(Section::Pipelines);
    app.screen = ScreenKind::PrView;
    assert_eq!(app.screen_section(), 0);
    assert_eq!(app.top_pos(), 1);
    app.switch_tab(1, &lens());
    assert!(matches!(app.screen, ScreenKind::List));
    assert_eq!(app.active, index_of(Section::WorkItems));

    // Pipelines is the last tab, so Tab wraps round to the Launchpad.
    let mut app = Navigation::new();
    app.screen = ScreenKind::Pipeline;
    app.switch_tab(1, &lens());
    assert!(matches!(app.screen, ScreenKind::Launchpad));

    // The inbox isn't on the strip; Tab enters from the section active behind it.
    let mut app = Navigation::new();
    app.active = index_of(Section::PullRequests);
    app.screen = ScreenKind::Inbox;
    app.switch_tab(1, &lens());
    assert!(matches!(app.screen, ScreenKind::List));
    assert_eq!(app.active, index_of(Section::WorkItems));
}

#[test]
fn shift_tab_undoes_tab_and_a_backwards_lap_comes_round() {
    let mut app = Navigation::new();
    app.set_tab(1, &lens());
    let start = app.top_pos();
    let n = 1 + app.visible_indices().len();
    app.switch_tab(1, &lens());
    app.switch_tab(-1, &lens());
    assert_eq!(app.top_pos(), start, "Shift-Tab undoes Tab");
    app.switch_tab(-1, &lens());
    assert_eq!(app.top_pos(), (start + n - 1) % n, "Shift-Tab steps back, wrapping past the first tab");
    for _ in 0..n {
        app.switch_tab(-1, &lens());
    }
    assert_eq!(app.top_pos(), (start + n - 1) % n, "a full backwards lap returns to the same tab");
}

#[test]
fn entering_a_section_clamps_its_cursor_and_scrolls_to_the_top() {
    let mut app = Navigation::new();
    app.sel = vec![Some(9), None, Some(1)];
    app.list_scroll = 5;
    app.set_tab(1, &lens());
    assert_eq!(app.selected(), Some(3), "past the end moves to the last row");
    assert_eq!(app.list_scroll, 0);
    app.set_tab(2, &vec![4, 0, 3]);
    assert_eq!(app.selected(), None, "an empty list selects nothing");
    app.set_tab(9, &lens());
    assert_eq!(app.active, 1, "a position past the strip changes nothing");
}

#[test]
fn the_cursor_wraps_both_ways_and_fixing_clamps_every_section() {
    let mut app = Navigation::new();
    app.set_tab(1, &lens());
    assert_eq!(app.selected(), Some(0));
    app.move_up(4);
    assert_eq!(app.selected(), Some(3), "up from the top wraps to the bottom");
    app.move_down(4);
    assert_eq!(app.selected(), Some(0), "down from the bottom wraps to the top");
    app.move_down(0);
    assert_eq!(app.selected(), Some(0), "an empty list keeps the cursor");
    app.sel = vec![Some(7), None, Some(2)];
    app.fix_selection(&vec![3, 0, 5]);
    assert_eq!(app.sel, vec![Some(2), None, Some(2)]);
    app.clamp_selection(0);
    assert_eq!(app.selected(), None);
    assert_eq!(app.selected_index(), 0);
}

#[test]
fn the_viewport_follows_the_cursor() {
    let mut app = Navigation::new();
    app.content_h = 3;
    app.sel = vec![Some(5), None, None];
    app.ensure_visible();
    assert_eq!(app.list_scroll, 3, "a row below the viewport scrolls it down");
    app.sel = vec![Some(1), None, None];
    app.ensure_visible();
    assert_eq!(app.list_scroll, 1, "a row above it scrolls it up");
    app.sel = vec![Some(2), None, None];
    app.ensure_visible();
    assert_eq!(app.list_scroll, 1, "a row inside it leaves it");
}

#[test]
fn the_preview_shows_only_when_wide_enough_and_not_switched_off() {
    let mut app = Navigation::new();
    app.content_w = 139;
    assert!(!app.preview_shown());
    app.content_w = 140;
    assert!(app.preview_shown());
    app.apply_preview_hidden(&[Section::PullRequests]);
    assert_eq!(app.preview_hidden, vec![true, false, false]);
    assert!(!app.preview_shown());
    app.active = 1;
    assert!(app.preview_shown());
}

#[test]
fn esc_on_a_list_clears_the_filter_before_leaving() {
    let mut app = Navigation::new();
    app.set_tab(1, &lens());
    app.filters[0] = "wip".into();
    assert!(app.leave_section_list(), "a filter is cleared first");
    assert!(app.filters[0].is_empty());
    assert!(matches!(app.screen, ScreenKind::List));
    assert!(!app.leave_section_list());
    assert!(matches!(app.screen, ScreenKind::Launchpad), "then back to the Launchpad");
}

#[test]
fn the_tab_checklist_shows_the_ticked_sections_and_persists_the_rest() {
    let mut app = Navigation::new();
    app.set_tab(2, &lens());
    assert_eq!(app.active, 1);
    let hidden = app.apply_visible_sections(&[Section::PullRequests, Section::Pipelines], &lens());
    assert_eq!(hidden, vec![Section::WorkItems]);
    assert_eq!(app.visible, vec![true, false, true]);
    assert_eq!(app.active, 0, "the active section left, so the first shown one takes over");
    assert_eq!(app.list_scroll, 0);

    // What was persisted brings back the same strip.
    let mut next = Navigation::new();
    next.apply_hidden_sections(&hidden);
    assert_eq!(next.visible, app.visible);

    let hidden = app.apply_visible_sections(&[], &lens());
    assert_eq!(app.visible, vec![true, false, false], "unticking everything keeps Pull Requests");
    assert_eq!(hidden, vec![Section::WorkItems, Section::Pipelines]);
}

#[test]
fn goto_section_leaves_the_launchpad_for_a_section() {
    let mut app = Navigation::new();
    app.screen = ScreenKind::Launchpad;
    app.goto_section(Section::Pipelines, &lens());
    assert!(matches!(app.screen, ScreenKind::List), "now on a section list");
    assert_eq!(app.active, index_of(Section::Pipelines), "the Pipelines section is active");
    assert_eq!(app.list_scroll, 0);
    assert_eq!(app.sel[2], Some(0));
}
