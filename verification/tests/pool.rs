use forgetop_tui::lists::{CheckStatus, PrRow, PullRequest, PullRequestStatus, User};
use forgetop_tui::pool::{derive_pool_rows, PR_VIEW_CAP};

fn pool_pr(conn: &str, id: &str, author: &str) -> PrRow {
    PrRow {
        connection_id: conn.into(),
        connection: conn.into(),
        provider: "github".into(),
        pr: PullRequest {
            id: id.into(),
            number: None,
            title: "t".into(),
            author: User { id: author.into(), display_name: author.into(), handle: Some(author.into()) },
            status: PullRequestStatus::Open,
            is_draft: false,
            source_ref: None,
            labels: vec![],
            checks: CheckStatus::NoChecks,
            updated_at: None,
            url: None,
        },
    }
}

fn mine(rows: &[PrRow]) -> Vec<bool> {
    rows.iter().map(|r| r.pr.author.id == "me").collect()
}

#[test]
fn the_cap_counts_filtered_rows_not_the_pool() {
    // 60 of someone else's in front of 60 of yours: a pool capped at 50 first would yield none.
    let mut rows: Vec<PrRow> = (0..60).map(|i| pool_pr("c", &format!("t{i}"), "them")).collect();
    rows.extend((0..60).map(|i| pool_pr("c", &format!("m{i}"), "me")));
    let kept = derive_pool_rows(&rows, &mine(&rows));
    assert_eq!(kept.len(), PR_VIEW_CAP);
    assert!(kept.iter().all(|&i| rows[i].pr.id.starts_with('m')));
    assert_eq!(kept[0], 60, "in the pool's order");
}

#[test]
fn one_busy_connection_does_not_crowd_another_off() {
    let mut rows: Vec<PrRow> = (0..60).map(|i| pool_pr("a", &format!("a{i}"), "me")).collect();
    rows.extend((0..10).map(|i| pool_pr("b", &format!("b{i}"), "me")));
    let kept = derive_pool_rows(&rows, &mine(&rows));
    assert_eq!(kept.iter().filter(|&&i| rows[i].connection_id == "a").count(), PR_VIEW_CAP);
    assert_eq!(kept.iter().filter(|&&i| rows[i].connection_id == "b").count(), 10, "b keeps all of its own");
    assert!(derive_pool_rows(&[], &vec![]).is_empty());
}
