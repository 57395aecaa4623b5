use forgetop_tui::notify::{notification_items, notifications_toast, prefs_from_ticked, NotificationPrefs};

#[test]
fn notifications_toggle_reflects_current_prefs() {
    let prefs = NotificationPrefs {
        pipeline_failed: true,
        review_requested: false,
        pr_approved: true,
        pr_changes_requested: false,
        pipeline_approval_needed: false,
    };
    let items = notification_items(&prefs);
    assert_eq!(items.len(), 5);
    let on: Vec<&str> = items.iter().filter(|i| i.on).map(|i| i.id.as_str()).collect();
    assert_eq!(on, vec!["pipeline_failed", "pr_approved"]);
}

#[test]
fn applying_the_checklist_unchanged_keeps_the_prefs() {
    let prefs = NotificationPrefs {
        pipeline_failed: false,
        review_requested: true,
        pr_approved: false,
        pr_changes_requested: true,
        pipeline_approval_needed: true,
    };
    let ticked: Vec<String> = notification_items(&prefs).into_iter().filter(|i| i.on).map(|i| i.id).collect();
    assert_eq!(prefs_from_ticked(&ticked), prefs);
    let none = prefs_from_ticked(&vec!["bogus".to_string()]);
    assert!(!none.any());
    assert_eq!(notifications_toast(&none), "All notifications off");
    assert_eq!(notifications_toast(&prefs), "Notifications updated");
}
