use forgetop_tui::keys::Key;
use forgetop_tui::preview::{preview_key, preview_plan, PreviewFetch, PreviewKey, PreviewPlan, PREVIEW_SETTLE_TICKS};

#[test]
fn preview_fetches_only_once_the_cursor_has_settled() {
    let mut f = PreviewFetch::new();
    for _ in 1..PREVIEW_SETTLE_TICKS {
        assert!(!f.tick());
        assert!(!f.sent, "still settling");
    }
    assert!(f.tick());
    assert!(f.sent, "sent after the settle ticks");
    assert!(!f.tick(), "and only once");
    f.resend();
    assert!(f.tick(), "a refreshed pipeline row asks again at the next tick");
}

#[test]
fn the_preview_is_kept_rebuilt_or_dropped() {
    let key = Some("pr:c:1".to_string());
    let shown = Some((0usize, "pr:c:1".to_string()));
    assert_eq!(preview_plan(true, true, &key, &shown, 0), PreviewPlan::Keep);
    assert_eq!(preview_plan(true, true, &Some("pr:c:2".to_string()), &shown, 0), PreviewPlan::Rebuild, "the cursor moved");
    assert_eq!(preview_plan(true, true, &key, &shown, 1), PreviewPlan::Rebuild, "another section");
    assert_eq!(preview_plan(true, true, &key, &None, 0), PreviewPlan::Rebuild);
    assert_eq!(preview_plan(false, true, &key, &shown, 0), PreviewPlan::Drop, "not on a list");
    assert_eq!(preview_plan(true, false, &key, &shown, 0), PreviewPlan::Drop, "pane off or too narrow");
    assert_eq!(preview_plan(true, true, &None, &shown, 0), PreviewPlan::Drop, "no row");
}

#[test]
fn preview_keys_focus_hand_back_and_toggle() {
    assert!(matches!(preview_key(Key::Enter, true, false, true, false, false, 200), PreviewKey::Focus));
    assert!(matches!(preview_key(Key::Enter, true, false, true, true, false, 200), PreviewKey::Pass), "a group header keeps Enter");
    assert!(matches!(preview_key(Key::Char('p'), true, false, true, false, false, 200), PreviewKey::Focus));
    assert!(matches!(preview_key(Key::Char('p'), true, false, false, false, false, 200), PreviewKey::Stay));
    assert!(matches!(preview_key(Key::Char('p'), false, true, false, false, false, 200), PreviewKey::HandBack));
    assert!(matches!(preview_key(Key::Char('P'), false, true, false, false, false, 200), PreviewKey::TogglePane));
    assert!(matches!(preview_key(Key::Char('P'), false, false, false, false, false, 200), PreviewKey::Pass));
    assert!(matches!(preview_key(Key::Char('x'), true, false, true, false, false, 200), PreviewKey::Pass));
}

#[test]
fn p_without_a_pane_says_why() {
    match preview_key(Key::Char('p'), true, false, false, false, true, 200) {
        PreviewKey::Toast(t) => assert_eq!(t, "The preview is off here. P turns it on."),
        other => panic!("expected a toast, got {other:?}"),
    }
    match preview_key(Key::Char('p'), true, false, false, false, false, 139) {
        PreviewKey::Toast(t) => assert_eq!(t, "The preview needs a terminal at least 140 columns wide."),
        other => panic!("expected a toast, got {other:?}"),
    }
}
