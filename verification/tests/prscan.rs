use forgetop_tui::lists::{CheckStatus, PrRow, PullRequest, PullRequestStatus, User};
use forgetop_tui::notify::NotificationPrefs;
use forgetop_tui::prscan::{pr_scan_wanted, scan_pr_notifications, PrEvent, PrScanState};

fn row(conn: &str, id: &str) -> PrRow {
    PrRow {
        connection_id: conn.into(),
        connection: conn.into(),
        provider: "github".into(),
        pr: PullRequest {
            id: id.into(),
            number: None,
            title: "t".into(),
            author: User { id: "me".into(), display_name: "me".into(), handle: None },
            status: PullRequestStatus::Open,
            is_draft: false,
            source_ref: None,
            labels: vec![],
            checks: CheckStatus::NoChecks,
            updated_at: None,
            url: None,
        },
    }
}

fn prefs(review: bool, approved: bool, changes: bool) -> NotificationPrefs {
    NotificationPrefs {
        pipeline_failed: false,
        review_requested: review,
        pr_approved: approved,
        pr_changes_requested: changes,
        pipeline_approval_needed: false,
    }
}

fn key(a: &str, b: &str) -> (String, String) {
    (a.to_string(), b.to_string())
}

#[test]
fn no_scan_when_nothing_is_watched_or_no_feed_came_back() {
    let p = prefs(false, false, false);
    assert!(!pr_scan_wanted(p));
    let feeds = Some(vec!["c".to_string()]);
    assert!(scan_pr_notifications(p, true, &feeds, &vec![], &vec![], &[], &[]).is_none());
    let p = prefs(true, false, false);
    assert!(pr_scan_wanted(p));
    assert!(scan_pr_notifications(p, true, &None, &vec![], &vec![], &[], &[]).is_none());
    assert!(scan_pr_notifications(p, true, &Some(vec![]), &vec![], &vec![], &[], &[]).is_none());
}

#[test]
fn the_first_scan_seeds_without_pinging() {
    let feeds = Some(vec!["c".to_string()]);
    let review = vec![row("c", "1"), row("other", "2")];
    let mine = vec![(row("c", "3"), (true, false))];
    let s = scan_pr_notifications(prefs(true, true, true), false, &feeds, &vec![], &vec![], &review, &mine).unwrap();
    assert!(s.pings.is_empty());
    assert_eq!(s.review_seen.unwrap(), vec![key("c", "1")], "rows of other connections are not feeds' rows");
    assert_eq!(s.pr_review_seen.unwrap(), vec![(key("c", "3"), (true, false))]);
}

#[test]
fn new_review_requests_and_vote_flips_ping_once() {
    let feeds = Some(vec!["c".to_string()]);
    let review = vec![row("c", "1"), row("c", "2")];
    let mine = vec![(row("c", "3"), (true, true)), (row("c", "4"), (false, true))];
    let prev_seen = vec![key("c", "1")];
    let prev_votes = vec![(key("c", "3"), (false, false)), (key("c", "4"), (false, true))];
    let s = scan_pr_notifications(prefs(true, true, true), true, &feeds, &prev_seen, &prev_votes, &review, &mine)
        .unwrap();
    assert_eq!(
        s.pings,
        vec![(PrEvent::ReviewRequested, 1), (PrEvent::Approved, 0), (PrEvent::ChangesRequested, 0)]
    );
    let seen = s.review_seen.unwrap();
    let votes = s.pr_review_seen.unwrap();
    let again = scan_pr_notifications(prefs(true, true, true), true, &feeds, &seen, &votes, &review, &mine).unwrap();
    assert!(again.pings.is_empty(), "a second scan over the same rows is quiet");
}

#[test]
fn only_watched_events_ping_and_only_watched_sets_are_kept() {
    let feeds = Some(vec!["c".to_string()]);
    let review = vec![row("c", "1")];
    let mine = vec![(row("c", "3"), (true, true))];
    let s = scan_pr_notifications(prefs(false, true, false), true, &feeds, &vec![], &vec![], &review, &mine).unwrap();
    assert_eq!(s.pings, vec![(PrEvent::Approved, 0)]);
    assert!(s.review_seen.is_none());
    assert!(s.pr_review_seen.is_some());
    let s = scan_pr_notifications(prefs(true, false, false), true, &feeds, &vec![], &vec![], &review, &mine).unwrap();
    assert_eq!(s.pings, vec![(PrEvent::ReviewRequested, 0)]);
    assert!(s.pr_review_seen.is_none());
}

#[test]
fn the_scan_state_takes_in_a_scan_and_pings_once() {
    let feeds = Some(vec!["c".to_string()]);
    let review = vec![row("c", "1")];
    let mine = vec![(row("c", "3"), (true, false))];
    let p = prefs(true, true, false);
    let mut st = PrScanState::new();
    let first = scan_pr_notifications(p, st.seeded, &feeds, &st.review_seen, &st.pr_review_seen, &review, &mine).unwrap();
    assert!(first.pings.is_empty(), "seeding");
    st.absorb(first);
    assert!(st.seeded);
    let more = vec![row("c", "1"), row("c", "2")];
    let second = scan_pr_notifications(p, st.seeded, &feeds, &st.review_seen, &st.pr_review_seen, &more, &mine).unwrap();
    assert_eq!(second.pings, vec![(PrEvent::ReviewRequested, 1)]);
    st.absorb(second);
    let third = scan_pr_notifications(p, st.seeded, &feeds, &st.review_seen, &st.pr_review_seen, &more, &mine).unwrap();
    assert!(third.pings.is_empty());
    st.reseed();
    assert!(!st.seeded);
    assert_eq!(st.review_seen.len(), 2);
}
