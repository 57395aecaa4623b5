//! The pull-request notification scan: which review requests and vote changes ping, and
//! what the scan remembers for the next one.
use vstd::prelude::*;

use crate::lists::{pr_review_transitions, PrRow};
use crate::notify::NotificationPrefs;
use crate::pipes::{seen_pair, seen_pair_exec};

verus! {

/// A pull-request event that can ping.
#[derive(Debug, Clone, Copy, PartialEq, Eq, Structural)]
pub enum PrEvent {
    /// A review was requested of the user.
    ReviewRequested,
    /// One of the user's pull requests was approved.
    Approved,
    /// Changes were requested on one of the user's pull requests.
    ChangesRequested,
}

/// What a scan found: the pings to fire and the seen-sets for the next scan.
pub struct PrScan {
    /// The pings, in order: the event and its row (an index into the review-requested rows
    /// for `ReviewRequested`, into the user's own rows otherwise).
    pub pings: Vec<(PrEvent, usize)>,
    /// The (connection id, PR id) pairs now awaiting the user's review; `None` when review
    /// requests are not watched.
    pub review_seen: Option<Vec<(String, String)>>,
    /// The (approved, changes requested) rollup of each of the user's PRs, by (connection
    /// id, PR id); `None` when votes are not watched.
    pub pr_review_seen: Option<Vec<((String, String), (bool, bool))>>,
}

/// A vote rollup as remembered per (connection id, PR id).
pub type VoteEntry = ((String, String), (bool, bool));

/// Whether vote changes are watched at all.
pub open spec fn votes_wanted(p: NotificationPrefs) -> bool {
    p.pr_approved || p.pr_changes_requested
}

/// Whether the scan has anything to watch.
pub open spec fn scan_wanted(p: NotificationPrefs) -> bool {
    p.review_requested || votes_wanted(p)
}

/// Whether a scan is worth running: review requests or votes are watched.
pub fn pr_scan_wanted(p: NotificationPrefs) -> (r: bool)
    ensures
        r == scan_wanted(p),
{
    p.review_requested || p.pr_approved || p.pr_changes_requested
}

/// `s` with the pair `k` added, as a set: unchanged when it already holds it.
pub open spec fn with_key(s: Seq<(String, String)>, k: (String, String)) -> Seq<(String, String)> {
    if seen_pair(s, k.0@, k.1@) {
        s
    } else {
        s.push(k)
    }
}

/// The position of the first entry of `m` keyed by (`conn`, `id`), or -1.
pub open spec fn vote_index(m: Seq<VoteEntry>, conn: Seq<char>, id: Seq<char>) -> int
    decreases m.len(),
{
    if m.len() == 0 {
        -1
    } else if m[0].0.0@ == conn && m[0].0.1@ == id {
        0
    } else {
        let j = vote_index(m.drop_first(), conn, id);
        if j < 0 {
            -1
        } else {
            j + 1
        }
    }
}

/// The rollup `m` remembers for (`conn`, `id`).
pub open spec fn vote_lookup(m: Seq<VoteEntry>, conn: Seq<char>, id: Seq<char>) -> Option<(bool, bool)> {
    let j = vote_index(m, conn, id);
    if j < 0 {
        None
    } else {
        Some(m[j].1)
    }
}

/// `m` with the entry for key `k` set to `v`, as a map: replaced where present, else added.
pub open spec fn with_vote(m: Seq<VoteEntry>, k: (String, String), v: (bool, bool)) -> Seq<VoteEntry> {
    let j = vote_index(m, k.0@, k.1@);
    if j < 0 {
        m.push((k, v))
    } else {
        m.update(j, (k, v))
    }
}

/// Which vote states newly flipped on (see `pr_review_transitions`).
pub open spec fn transitions(prev: Option<(bool, bool)>, now: (bool, bool)) -> (bool, bool) {
    match prev {
        Some(p) => (now.0 && !p.0, now.1 && !p.1),
        None => now,
    }
}

/// The review-requested pairs of feed `conn` among the first `n` rows, added to `acc`.
pub open spec fn review_keys_for(acc: Seq<(String, String)>, conn: Seq<char>, review: Seq<PrRow>, n: int) -> Seq<
    (String, String),
>
    decreases n,
{
    if n <= 0 {
        acc
    } else {
        let a = review_keys_for(acc, conn, review, n - 1);
        let r = review[n - 1];
        if r.connection_id@ == conn {
            with_key(a, (r.connection_id, r.pr.id))
        } else {
            a
        }
    }
}

/// The review-request pings of feed `conn` among the first `n` rows: each row of the feed
/// not in the previous scan's set, once a first scan has seeded it.
pub open spec fn review_pings_for(
    conn: Seq<char>,
    review: Seq<PrRow>,
    prev: Seq<(String, String)>,
    seeded: bool,
    n: int,
) -> Seq<(PrEvent, usize)>
    decreases n,
{
    if n <= 0 {
        seq![]
    } else {
        let r = review[n - 1];
        review_pings_for(conn, review, prev, seeded, n - 1) + if r.connection_id@ == conn && seeded
            && !seen_pair(prev, conn, r.pr.id@) {
            seq![(PrEvent::ReviewRequested, (n - 1) as usize)]
        } else {
            seq![]
        }
    }
}

/// The rollups of feed `conn` among the first `n` of the user's rows, written into `acc`.
pub open spec fn votes_for(acc: Seq<VoteEntry>, conn: Seq<char>, mine: Seq<(PrRow, (bool, bool))>, n: int) -> Seq<
    VoteEntry,
>
    decreases n,
{
    if n <= 0 {
        acc
    } else {
        let a = votes_for(acc, conn, mine, n - 1);
        let r = mine[n - 1];
        if r.0.connection_id@ == conn {
            with_vote(a, (r.0.connection_id, r.0.pr.id), r.1)
        } else {
            a
        }
    }
}

/// The pings one of the user's rows gives: the vote states that flipped on since the
/// previous scan and are watched.
pub open spec fn row_vote_pings(
    prefs: NotificationPrefs,
    prev: Seq<VoteEntry>,
    r: (PrRow, (bool, bool)),
    i: usize,
) -> Seq<(PrEvent, usize)> {
    let t = transitions(vote_lookup(prev, r.0.connection_id@, r.0.pr.id@), r.1);
    (if t.0 && prefs.pr_approved {
        seq![(PrEvent::Approved, i)]
    } else {
        seq![]
    }) + (if t.1 && prefs.pr_changes_requested {
        seq![(PrEvent::ChangesRequested, i)]
    } else {
        seq![]
    })
}

/// The vote pings of feed `conn` among the first `n` of the user's rows.
pub open spec fn vote_pings_for(
    conn: Seq<char>,
    mine: Seq<(PrRow, (bool, bool))>,
    prefs: NotificationPrefs,
    prev: Seq<VoteEntry>,
    seeded: bool,
    n: int,
) -> Seq<(PrEvent, usize)>
    decreases n,
{
    if n <= 0 {
        seq![]
    } else {
        let r = mine[n - 1];
        vote_pings_for(conn, mine, prefs, prev, seeded, n - 1) + if r.0.connection_id@ == conn
            && seeded {
            row_vote_pings(prefs, prev, r, (n - 1) as usize)
        } else {
            seq![]
        }
    }
}

/// The pings of one feed: its review requests, then its votes, as far as each is watched.
pub open spec fn feed_pings(
    conn: Seq<char>,
    prefs: NotificationPrefs,
    seeded: bool,
    prev_seen: Seq<(String, String)>,
    prev_votes: Seq<VoteEntry>,
    review: Seq<PrRow>,
    mine: Seq<(PrRow, (bool, bool))>,
) -> Seq<(PrEvent, usize)> {
    (if prefs.review_requested {
        review_pings_for(conn, review, prev_seen, seeded, review.len() as int)
    } else {
        seq![]
    }) + (if votes_wanted(prefs) {
        vote_pings_for(conn, mine, prefs, prev_votes, seeded, mine.len() as int)
    } else {
        seq![]
    })
}

/// The pings of the first `k` feeds, feed by feed.
pub open spec fn scan_pings(
    feeds: Seq<String>,
    k: int,
    prefs: NotificationPrefs,
    seeded: bool,
    prev_seen: Seq<(String, String)>,
    prev_votes: Seq<VoteEntry>,
    review: Seq<PrRow>,
    mine: Seq<(PrRow, (bool, bool))>,
) -> Seq<(PrEvent, usize)>
    decreases k,
{
    if k <= 0 {
        seq![]
    } else {
        scan_pings(feeds, k - 1, prefs, seeded, prev_seen, prev_votes, review, mine) + feed_pings(
            feeds[k - 1]@,
            prefs,
            seeded,
            prev_seen,
            prev_votes,
            review,
            mine,
        )
    }
}

/// The review-requested set after the first `k` feeds.
pub open spec fn scan_review_seen(feeds: Seq<String>, k: int, review: Seq<PrRow>) -> Seq<(String, String)>
    decreases k,
{
    if k <= 0 {
        seq![]
    } else {
        review_keys_for(scan_review_seen(feeds, k - 1, review), feeds[k - 1]@, review, review.len() as int)
    }
}

/// The rollups after the first `k` feeds.
pub open spec fn scan_votes(feeds: Seq<String>, k: int, mine: Seq<(PrRow, (bool, bool))>) -> Seq<VoteEntry>
    decreases k,
{
    if k <= 0 {
        seq![]
    } else {
        votes_for(scan_votes(feeds, k - 1, mine), feeds[k - 1]@, mine, mine.len() as int)
    }
}

/// Adds the pair (`conn`, `id`) to the set `acc`.
fn insert_seen(acc: &mut Vec<(String, String)>, conn: &String, id: &String)
    ensures
        final(acc)@ == with_key(old(acc)@, (*conn, *id)),
{
    if !seen_pair_exec(acc, conn, id) {
        acc.push((conn.clone(), id.clone()));
    }
}

proof fn lemma_vote_index_first(m: Seq<VoteEntry>, conn: Seq<char>, id: Seq<char>, i: int)
    requires
        0 <= i <= m.len(),
        forall|j: int| 0 <= j < i ==> !(#[trigger] m[j].0.0@ == conn && m[j].0.1@ == id),
    ensures
        i == m.len() ==> vote_index(m, conn, id) == -1,
        i < m.len() && m[i].0.0@ == conn && m[i].0.1@ == id ==> vote_index(m, conn, id) == i,
    decreases i,
{
    if m.len() > 0 && i > 0 {
        let t = m.drop_first();
        assert forall|j: int| 0 <= j < i - 1 implies !(#[trigger] t[j].0.0@ == conn && t[j].0.1@ == id) by {
            assert(t[j] == m[j + 1]);
        }
        lemma_vote_index_first(t, conn, id, i - 1);
        if i < m.len() {
            assert(t[i - 1] == m[i]);
        }
    }
}

/// Sets the rollup of (`conn`, `id`) in `acc` to `v`.
fn insert_vote(acc: &mut Vec<VoteEntry>, conn: &String, id: &String, v: (bool, bool))
    ensures
        final(acc)@ == with_vote(old(acc)@, (*conn, *id), v),
{
    let mut i: usize = 0;
    while i < acc.len()
        invariant
            i <= acc@.len(),
            acc@ == old(acc)@,
            forall|j: int| 0 <= j < i ==> !(#[trigger] acc@[j].0.0@ == conn@ && acc@[j].0.1@ == id@),
        decreases acc@.len() - i,
    {
        if acc[i].0.0 == *conn && acc[i].0.1 == *id {
            proof {
                lemma_vote_index_first(acc@, conn@, id@, i as int);
            }
            acc.set(i, ((conn.clone(), id.clone()), v));
            return;
        }
        i += 1;
    }
    proof {
        lemma_vote_index_first(acc@, conn@, id@, i as int);
    }
    acc.push(((conn.clone(), id.clone()), v));
}

/// The rollup `acc` remembers for (`conn`, `id`).
fn lookup_vote(acc: &Vec<VoteEntry>, conn: &String, id: &String) -> (r: Option<(bool, bool)>)
    ensures
        r == vote_lookup(acc@, conn@, id@),
{
    let mut i: usize = 0;
    while i < acc.len()
        invariant
            i <= acc@.len(),
            forall|j: int| 0 <= j < i ==> !(#[trigger] acc@[j].0.0@ == conn@ && acc@[j].0.1@ == id@),
        decreases acc@.len() - i,
    {
        if acc[i].0.0 == *conn && acc[i].0.1 == *id {
            proof {
                lemma_vote_index_first(acc@, conn@, id@, i as int);
            }
            return Some(acc[i].1);
        }
        i += 1;
    }
    proof {
        lemma_vote_index_first(acc@, conn@, id@, i as int);
    }
    None
}

/// The review-request part of one feed: adds its pairs to `seen` and its pings to `pings`.
fn scan_review_feed(
    conn: &String,
    review: &[PrRow],
    prev: &Vec<(String, String)>,
    seeded: bool,
    seen: &mut Vec<(String, String)>,
    pings: &mut Vec<(PrEvent, usize)>,
)
    ensures
        final(seen)@ == review_keys_for(old(seen)@, conn@, review@, review@.len() as int),
        final(pings)@ == old(pings)@ + review_pings_for(conn@, review@, prev@, seeded, review@.len() as int),
{
    let mut i: usize = 0;
    while i < review.len()
        invariant
            i <= review@.len(),
            seen@ == review_keys_for(old(seen)@, conn@, review@, i as int),
            pings@ == old(pings)@ + review_pings_for(conn@, review@, prev@, seeded, i as int),
        decreases review@.len() - i,
    {
        let r = &review[i];
        if r.connection_id == *conn {
            if seeded && !seen_pair_exec(prev, conn, &r.pr.id) {
                pings.push((PrEvent::ReviewRequested, i));
            }
            insert_seen(seen, &r.connection_id, &r.pr.id);
        }
        proof {
            assert(pings@ == old(pings)@ + review_pings_for(conn@, review@, prev@, seeded, i + 1));
        }
        i += 1;
    }
}

/// The vote part of one feed: writes its rollups into `votes` and its pings to `pings`.
fn scan_vote_feed(
    conn: &String,
    mine: &[(PrRow, (bool, bool))],
    prefs: NotificationPrefs,
    prev: &Vec<VoteEntry>,
    seeded: bool,
    votes: &mut Vec<VoteEntry>,
    pings: &mut Vec<(PrEvent, usize)>,
)
    ensures
        final(votes)@ == votes_for(old(votes)@, conn@, mine@, mine@.len() as int),
        final(pings)@ == old(pings)@ + vote_pings_for(conn@, mine@, prefs, prev@, seeded, mine@.len() as int),
{
    let mut i: usize = 0;
    while i < mine.len()
        invariant
            i <= mine@.len(),
            votes@ == votes_for(old(votes)@, conn@, mine@, i as int),
            pings@ == old(pings)@ + vote_pings_for(conn@, mine@, prefs, prev@, seeded, i as int),
        decreases mine@.len() - i,
    {
        let r = &mine[i];
        if r.0.connection_id == *conn {
            if seeded {
                let before = lookup_vote(prev, &r.0.connection_id, &r.0.pr.id);
                let (approved, changes) = pr_review_transitions(before, r.1);
                if approved && prefs.pr_approved {
                    pings.push((PrEvent::Approved, i));
                }
                if changes && prefs.pr_changes_requested {
                    pings.push((PrEvent::ChangesRequested, i));
                }
            }
            insert_vote(votes, &r.0.connection_id, &r.0.pr.id, r.1);
        }
        proof {
            assert(pings@ == old(pings)@ + vote_pings_for(conn@, mine@, prefs, prev@, seeded, i + 1));
        }
        i += 1;
    }
}

/// The pull-request notification scan. `feeds` are the connection ids of the PR feeds, as
/// fetched (`None` when the fetch failed); `review` the review-requested rows; `mine` the
/// user's own rows, each with its (approved, changes requested) rollup; `review_seen` and
/// `pr_review_seen` what the previous scan left; `seeded` whether a scan ran before (the
/// first one only seeds the sets and pings nothing). No scan (`None`) when nothing is
/// watched or no feed came back.
pub fn scan_pr_notifications(
    prefs: NotificationPrefs,
    seeded: bool,
    feeds: &Option<Vec<String>>,
    review_seen: &Vec<(String, String)>,
    pr_review_seen: &Vec<VoteEntry>,
    review: &[PrRow],
    mine: &[(PrRow, (bool, bool))],
) -> (r: Option<PrScan>)
    ensures
        r.is_none() <==> (!scan_wanted(prefs) || feeds.is_none() || feeds.unwrap()@.len() == 0),
        r matches Some(s) ==> ({
            let f = feeds.unwrap()@;
            &&& s.pings@ == scan_pings(
                f,
                f.len() as int,
                prefs,
                seeded,
                review_seen@,
                pr_review_seen@,
                review@,
                mine@,
            )
            &&& s.review_seen.is_some() == prefs.review_requested
            &&& (s.review_seen matches Some(v) ==> v@ == scan_review_seen(f, f.len() as int, review@))
            &&& s.pr_review_seen.is_some() == votes_wanted(prefs)
            &&& (s.pr_review_seen matches Some(v) ==> v@ == scan_votes(f, f.len() as int, mine@))
        }),
{
    let want_review = prefs.review_requested;
    let want_votes = prefs.pr_approved || prefs.pr_changes_requested;
    if !want_review && !want_votes {
        return None;
    }
    let feeds = match feeds {
        Some(f) => f,
        None => return None,
    };
    if feeds.len() == 0 {
        return None;
    }
    let mut pings: Vec<(PrEvent, usize)> = Vec::new();
    let mut seen: Vec<(String, String)> = Vec::new();
    let mut votes: Vec<VoteEntry> = Vec::new();
    let mut k: usize = 0;
    while k < feeds.len()
        invariant
            k <= feeds@.len(),
            want_review == prefs.review_requested,
            want_votes == votes_wanted(prefs),
            pings@ == scan_pings(feeds@, k as int, prefs, seeded, review_seen@, pr_review_seen@, review@, mine@),
            want_review ==> seen@ == scan_review_seen(feeds@, k as int, review@),
            want_votes ==> votes@ == scan_votes(feeds@, k as int, mine@),
        decreases feeds@.len() - k,
    {
        let conn = &feeds[k];
        let ghost before = pings@;
        if want_review {
            scan_review_feed(conn, review, review_seen, seeded, &mut seen, &mut pings);
        }
        if want_votes {
            scan_vote_feed(conn, mine, prefs, pr_review_seen, seeded, &mut votes, &mut pings);
        }
        proof {
            let fp = feed_pings(feeds@[k as int]@, prefs, seeded, review_seen@, pr_review_seen@, review@, mine@);
            assert(pings@ == before + fp);
        }
        k += 1;
    }
    Some(
        PrScan {
            pings,
            review_seen: if want_review {
                Some(seen)
            } else {
                None
            },
            pr_review_seen: if want_votes {
                Some(votes)
            } else {
                None
            },
        },
    )
}

/// Whether the user's rows give one rollup per pull request: rows with the same
/// (connection id, PR id) carry the same (approved, changes requested) flags.
pub open spec fn one_rollup_per_pr(mine: Seq<(PrRow, (bool, bool))>) -> bool {
    forall|a: int, b: int|
        0 <= a < mine.len() && 0 <= b < mine.len() && #[trigger] mine[a].0.connection_id@
            == #[trigger] mine[b].0.connection_id@ && mine[a].0.pr.id@ == mine[b].0.pr.id@
            ==> mine[a].1 == mine[b].1
}

pub(crate) proof fn lemma_with_key_has(s: Seq<(String, String)>, k: (String, String), c: Seq<char>, i: Seq<char>)
    ensures
        seen_pair(with_key(s, k), c, i) <==> (seen_pair(s, c, i) || (k.0@ == c && k.1@ == i)),
{
    if !seen_pair(s, k.0@, k.1@) {
        let t = s.push(k);
        if seen_pair(s, c, i) {
            let w = choose|w: int| 0 <= w < s.len() && #[trigger] s[w].0@ == c && s[w].1@ == i;
            assert(t[w] == s[w]);
        }
        if k.0@ == c && k.1@ == i {
            assert(t[s.len() as int] == k);
        }
        if seen_pair(t, c, i) {
            let w = choose|w: int| 0 <= w < t.len() && #[trigger] t[w].0@ == c && t[w].1@ == i;
            if w < s.len() {
                assert(t[w] == s[w]);
            }
        }
    }
}

proof fn lemma_review_keys_cover(acc: Seq<(String, String)>, conn: Seq<char>, review: Seq<PrRow>, n: int)
    requires
        n <= review.len(),
    ensures
        forall|c: Seq<char>, i: Seq<char>|
            seen_pair(acc, c, i) ==> #[trigger] seen_pair(review_keys_for(acc, conn, review, n), c, i),
        forall|j: int|
            0 <= j < n && #[trigger] review[j].connection_id@ == conn ==> seen_pair(
                review_keys_for(acc, conn, review, n),
                conn,
                review[j].pr.id@,
            ),
    decreases n,
{
    if n > 0 {
        lemma_review_keys_cover(acc, conn, review, n - 1);
        let a = review_keys_for(acc, conn, review, n - 1);
        let r = review[n - 1];
        if r.connection_id@ == conn {
            assert forall|c: Seq<char>, i: Seq<char>| seen_pair(a, c, i) implies #[trigger] seen_pair(
                with_key(a, (r.connection_id, r.pr.id)),
                c,
                i,
            ) by {
                lemma_with_key_has(a, (r.connection_id, r.pr.id), c, i);
            }
            lemma_with_key_has(a, (r.connection_id, r.pr.id), conn, r.pr.id@);
        }
    }
}

proof fn lemma_scan_review_seen_covers(feeds: Seq<String>, k: int, review: Seq<PrRow>)
    requires
        k <= feeds.len(),
    ensures
        forall|j: int, f: int|
            #![trigger review[j], feeds[f]]
            0 <= j < review.len() && 0 <= f < k && review[j].connection_id@ == feeds[f]@
                ==> seen_pair(scan_review_seen(feeds, k, review), feeds[f]@, review[j].pr.id@),
    decreases k,
{
    if k > 0 {
        lemma_scan_review_seen_covers(feeds, k - 1, review);
        lemma_review_keys_cover(scan_review_seen(feeds, k - 1, review), feeds[k - 1]@, review, review.len() as int);
    }
}

proof fn lemma_vote_index_push(m: Seq<VoteEntry>, x: VoteEntry, c: Seq<char>, i: Seq<char>)
    ensures
        vote_index(m.push(x), c, i) == if vote_index(m, c, i) >= 0 {
            vote_index(m, c, i)
        } else if x.0.0@ == c && x.0.1@ == i {
            m.len() as int
        } else {
            -1
        },
        -1 <= vote_index(m, c, i) < m.len(),
    decreases m.len(),
{
    if m.len() > 0 {
        assert(m.push(x).drop_first() == m.drop_first().push(x));
        assert(m.push(x)[0] == m[0]);
        lemma_vote_index_push(m.drop_first(), x, c, i);
    } else {
        assert(m.push(x).drop_first().len() == 0);
        assert(vote_index(m.push(x).drop_first(), c, i) == -1);
        assert(m.push(x)[0] == x);
    }
}

proof fn lemma_vote_index_update(m: Seq<VoteEntry>, j: int, x: VoteEntry, c: Seq<char>, i: Seq<char>)
    requires
        0 <= j < m.len(),
        x.0.0@ == m[j].0.0@,
        x.0.1@ == m[j].0.1@,
    ensures
        vote_index(m.update(j, x), c, i) == vote_index(m, c, i),
    decreases m.len(),
{
    if j > 0 {
        assert(m.update(j, x).drop_first() == m.drop_first().update(j - 1, x));
        lemma_vote_index_update(m.drop_first(), j - 1, x, c, i);
    } else {
        assert(m.update(j, x).drop_first() == m.drop_first());
    }
}

proof fn lemma_vote_index_found(m: Seq<VoteEntry>, c: Seq<char>, i: Seq<char>)
    ensures
        -1 <= vote_index(m, c, i) < m.len(),
        vote_index(m, c, i) >= 0 ==> m[vote_index(m, c, i)].0.0@ == c && m[vote_index(m, c, i)].0.1@ == i,
    decreases m.len(),
{
    if m.len() > 0 {
        lemma_vote_index_found(m.drop_first(), c, i);
    }
}

/// Setting a rollup and reading it back: the key set reads the new flags, every other
/// key what it read before.
proof fn lemma_with_vote_lookup(m: Seq<VoteEntry>, k: (String, String), v: (bool, bool), c: Seq<char>, i: Seq<char>)
    ensures
        vote_lookup(with_vote(m, k, v), c, i) == if k.0@ == c && k.1@ == i {
            Some(v)
        } else {
            vote_lookup(m, c, i)
        },
{
    let j = vote_index(m, k.0@, k.1@);
    lemma_vote_index_found(m, k.0@, k.1@);
    lemma_vote_index_found(m, c, i);
    if j < 0 {
        lemma_vote_index_push(m, (k, v), c, i);
        let n = vote_index(m, c, i);
        if n >= 0 {
            assert(m.push((k, v))[n] == m[n]);
        }
    } else {
        lemma_vote_index_update(m, j, (k, v), c, i);
        if k.0@ == c && k.1@ == i {
            assert(vote_index(m, c, i) == j);
        }
    }
}

proof fn lemma_votes_for_keep(
    acc: Seq<VoteEntry>,
    conn: Seq<char>,
    mine: Seq<(PrRow, (bool, bool))>,
    n: int,
)
    requires
        n <= mine.len(),
        one_rollup_per_pr(mine),
    ensures
        forall|j: int|
            0 <= j < mine.len() && (vote_lookup(acc, mine[j].0.connection_id@, mine[j].0.pr.id@) == Some(
                mine[j].1,
            ) || (j < n && mine[j].0.connection_id@ == conn)) ==> #[trigger] vote_lookup(
                votes_for(acc, conn, mine, n),
                mine[j].0.connection_id@,
                mine[j].0.pr.id@,
            ) == Some(mine[j].1),
    decreases n,
{
    if n > 0 {
        lemma_votes_for_keep(acc, conn, mine, n - 1);
        let a = votes_for(acc, conn, mine, n - 1);
        let r = mine[n - 1];
        if r.0.connection_id@ == conn {
            assert forall|j: int|
                0 <= j < mine.len() && (vote_lookup(acc, mine[j].0.connection_id@, mine[j].0.pr.id@)
                    == Some(mine[j].1) || (j < n && mine[j].0.connection_id@ == conn)) implies #[trigger] vote_lookup(
                votes_for(acc, conn, mine, n),
                mine[j].0.connection_id@,
                mine[j].0.pr.id@,
            ) == Some(mine[j].1) by {
                lemma_with_vote_lookup(a, (r.0.connection_id, r.0.pr.id), r.1, mine[j].0.connection_id@, mine[j].0.pr.id@);
                if j < n - 1 || vote_lookup(acc, mine[j].0.connection_id@, mine[j].0.pr.id@) == Some(mine[j].1) {
                    assert(vote_lookup(a, mine[j].0.connection_id@, mine[j].0.pr.id@) == Some(mine[j].1));
                }
                if r.0.connection_id@ == mine[j].0.connection_id@ && r.0.pr.id@ == mine[j].0.pr.id@ {
                    assert(mine[n - 1].1 == mine[j].1);
                }
            }
        }
    }
}

proof fn lemma_scan_votes_cover(feeds: Seq<String>, k: int, mine: Seq<(PrRow, (bool, bool))>)
    requires
        k <= feeds.len(),
        one_rollup_per_pr(mine),
    ensures
        forall|j: int, f: int|
            #![trigger mine[j], feeds[f]]
            0 <= j < mine.len() && 0 <= f < k && mine[j].0.connection_id@ == feeds[f]@
                ==> vote_lookup(scan_votes(feeds, k, mine), mine[j].0.connection_id@, mine[j].0.pr.id@)
                == Some(mine[j].1),
    decreases k,
{
    if k > 0 {
        lemma_scan_votes_cover(feeds, k - 1, mine);
        lemma_votes_for_keep(scan_votes(feeds, k - 1, mine), feeds[k - 1]@, mine, mine.len() as int);
    }
}

proof fn lemma_review_pings_quiet(conn: Seq<char>, review: Seq<PrRow>, prev: Seq<(String, String)>, n: int)
    requires
        n <= review.len(),
        forall|j: int|
            0 <= j < n && #[trigger] review[j].connection_id@ == conn ==> seen_pair(prev, conn, review[j].pr.id@),
    ensures
        review_pings_for(conn, review, prev, true, n) == Seq::<(PrEvent, usize)>::empty(),
    decreases n,
{
    if n > 0 {
        lemma_review_pings_quiet(conn, review, prev, n - 1);
        let r = review[n - 1];
        if r.connection_id@ == conn {
            assert(seen_pair(prev, conn, review[n - 1].pr.id@));
        }
    }
}

proof fn lemma_vote_pings_quiet(
    conn: Seq<char>,
    mine: Seq<(PrRow, (bool, bool))>,
    prefs: NotificationPrefs,
    prev: Seq<VoteEntry>,
    n: int,
)
    requires
        n <= mine.len(),
        forall|j: int|
            0 <= j < n && #[trigger] mine[j].0.connection_id@ == conn ==> vote_lookup(
                prev,
                mine[j].0.connection_id@,
                mine[j].0.pr.id@,
            ) == Some(mine[j].1),
    ensures
        vote_pings_for(conn, mine, prefs, prev, true, n) == Seq::<(PrEvent, usize)>::empty(),
    decreases n,
{
    if n > 0 {
        lemma_vote_pings_quiet(conn, mine, prefs, prev, n - 1);
        let r = mine[n - 1];
        if r.0.connection_id@ == conn {
            assert(vote_lookup(prev, mine[n - 1].0.connection_id@, mine[n - 1].0.pr.id@) == Some(mine[n - 1].1));
            assert(row_vote_pings(prefs, prev, r, (n - 1) as usize) =~= Seq::<(PrEvent, usize)>::empty());
        }
    }
}

/// The first scan only seeds: with nothing seen before, nothing pings.
pub proof fn lemma_first_scan_is_quiet(
    feeds: Seq<String>,
    k: int,
    prefs: NotificationPrefs,
    prev_seen: Seq<(String, String)>,
    prev_votes: Seq<VoteEntry>,
    review: Seq<PrRow>,
    mine: Seq<(PrRow, (bool, bool))>,
)
    ensures
        scan_pings(feeds, k, prefs, false, prev_seen, prev_votes, review, mine) == Seq::<(PrEvent, usize)>::empty(),
    decreases k,
{
    if k > 0 {
        lemma_first_scan_is_quiet(feeds, k - 1, prefs, prev_seen, prev_votes, review, mine);
        lemma_review_unseeded(feeds[k - 1]@, review, prev_seen, review.len() as int);
        lemma_votes_unseeded(feeds[k - 1]@, mine, prefs, prev_votes, mine.len() as int);
    }
}

proof fn lemma_review_unseeded(conn: Seq<char>, review: Seq<PrRow>, prev: Seq<(String, String)>, n: int)
    ensures
        review_pings_for(conn, review, prev, false, n) == Seq::<(PrEvent, usize)>::empty(),
    decreases n,
{
    if n > 0 {
        lemma_review_unseeded(conn, review, prev, n - 1);
    }
}

proof fn lemma_votes_unseeded(
    conn: Seq<char>,
    mine: Seq<(PrRow, (bool, bool))>,
    prefs: NotificationPrefs,
    prev: Seq<VoteEntry>,
    n: int,
)
    ensures
        vote_pings_for(conn, mine, prefs, prev, false, n) == Seq::<(PrEvent, usize)>::empty(),
    decreases n,
{
    if n > 0 {
        lemma_votes_unseeded(conn, mine, prefs, prev, n - 1);
    }
}

/// A scan remembers what it saw: scanning the same feeds and rows again, with the sets the
/// scan left, pings nothing (each pull request carrying one rollup).
pub proof fn lemma_rescan_is_quiet(
    feeds: Seq<String>,
    prefs: NotificationPrefs,
    review: Seq<PrRow>,
    mine: Seq<(PrRow, (bool, bool))>,
)
    requires
        one_rollup_per_pr(mine),
    ensures
        scan_pings(
            feeds,
            feeds.len() as int,
            prefs,
            true,
            scan_review_seen(feeds, feeds.len() as int, review),
            scan_votes(feeds, feeds.len() as int, mine),
            review,
            mine,
        ) == Seq::<(PrEvent, usize)>::empty(),
{
    let seen = scan_review_seen(feeds, feeds.len() as int, review);
    let votes = scan_votes(feeds, feeds.len() as int, mine);
    lemma_scan_review_seen_covers(feeds, feeds.len() as int, review);
    lemma_scan_votes_cover(feeds, feeds.len() as int, mine);
    lemma_rescan_prefix(feeds, feeds.len() as int, prefs, seen, votes, review, mine);
}

proof fn lemma_rescan_prefix(
    feeds: Seq<String>,
    k: int,
    prefs: NotificationPrefs,
    seen: Seq<(String, String)>,
    votes: Seq<VoteEntry>,
    review: Seq<PrRow>,
    mine: Seq<(PrRow, (bool, bool))>,
)
    requires
        k <= feeds.len(),
        prefs.review_requested ==> forall|j: int, f: int|
            #![trigger review[j], feeds[f]]
            0 <= j < review.len() && 0 <= f < k && review[j].connection_id@ == feeds[f]@
                ==> seen_pair(seen, feeds[f]@, review[j].pr.id@),
        votes_wanted(prefs) ==> forall|j: int, f: int|
            #![trigger mine[j], feeds[f]]
            0 <= j < mine.len() && 0 <= f < k && mine[j].0.connection_id@ == feeds[f]@
                ==> vote_lookup(votes, mine[j].0.connection_id@, mine[j].0.pr.id@) == Some(mine[j].1),
    ensures
        scan_pings(feeds, k, prefs, true, seen, votes, review, mine) == Seq::<(PrEvent, usize)>::empty(),
    decreases k,
{
    if k > 0 {
        lemma_rescan_prefix(feeds, k - 1, prefs, seen, votes, review, mine);
        let conn = feeds[k - 1]@;
        if prefs.review_requested {
            assert forall|j: int| 0 <= j < review.len() && #[trigger] review[j].connection_id@ == conn implies seen_pair(
                seen,
                conn,
                review[j].pr.id@,
            ) by {
                assert(review[j].connection_id@ == feeds[k - 1]@);
            }
            lemma_review_pings_quiet(conn, review, seen, review.len() as int);
        }
        if votes_wanted(prefs) {
            assert forall|j: int| 0 <= j < mine.len() && #[trigger] mine[j].0.connection_id@ == conn implies vote_lookup(
                votes,
                mine[j].0.connection_id@,
                mine[j].0.pr.id@,
            ) == Some(mine[j].1) by {
                assert(mine[j].0.connection_id@ == feeds[k - 1]@);
            }
            lemma_vote_pings_quiet(conn, mine, prefs, votes, mine.len() as int);
        }
    }
}

/// What the scan carries from one reload to the next: the sets the last scan left, and
/// whether a scan has run since the preferences last changed.
pub struct PrScanState {
    pub review_seen: Vec<(String, String)>,
    pub pr_review_seen: Vec<VoteEntry>,
    pub seeded: bool,
}

impl PrScanState {
    /// Nothing seen, not seeded: the first scan only seeds.
    pub fn new() -> (r: PrScanState)
        ensures
            r.review_seen@.len() == 0,
            r.pr_review_seen@.len() == 0,
            !r.seeded,
    {
        PrScanState { review_seen: Vec::new(), pr_review_seen: Vec::new(), seeded: false }
    }

    /// Takes in what a scan left: the sets it kept replace the old ones, and the state is
    /// seeded.
    pub fn absorb(&mut self, scan: PrScan)
        ensures
            final(self).seeded,
            final(self).review_seen@ == match scan.review_seen {
                Some(v) => v@,
                None => old(self).review_seen@,
            },
            final(self).pr_review_seen@ == match scan.pr_review_seen {
                Some(v) => v@,
                None => old(self).pr_review_seen@,
            },
    {
        match scan.review_seen {
            Some(v) => self.review_seen = v,
            None => {},
        }
        match scan.pr_review_seen {
            Some(v) => self.pr_review_seen = v,
            None => {},
        }
        self.seeded = true;
    }

    /// The preferences changed: the next scan seeds silently, so an event just switched on
    /// does not fire for what was already there.
    pub fn reseed(&mut self)
        ensures
            !final(self).seeded,
            final(self).review_seen@ == old(self).review_seen@,
            final(self).pr_review_seen@ == old(self).pr_review_seen@,
    {
        self.seeded = false;
    }
}

/// Notifications fire once: after the state takes in a scan, scanning the same feeds and
/// rows again pings nothing (each pull request carrying one rollup), whichever events are
/// watched.
pub proof fn lemma_absorbed_rescan_is_quiet(
    feeds: Seq<String>,
    prefs: NotificationPrefs,
    review: Seq<PrRow>,
    mine: Seq<(PrRow, (bool, bool))>,
    old_seen: Seq<(String, String)>,
    old_votes: Seq<VoteEntry>,
)
    requires
        one_rollup_per_pr(mine),
    ensures
        ({
            let n = feeds.len() as int;
            let seen = if prefs.review_requested {
                scan_review_seen(feeds, n, review)
            } else {
                old_seen
            };
            let votes = if votes_wanted(prefs) {
                scan_votes(feeds, n, mine)
            } else {
                old_votes
            };
            scan_pings(feeds, n, prefs, true, seen, votes, review, mine) == Seq::<(PrEvent, usize)>::empty()
        }),
{
    let n = feeds.len() as int;
    let seen = if prefs.review_requested {
        scan_review_seen(feeds, n, review)
    } else {
        old_seen
    };
    let votes = if votes_wanted(prefs) {
        scan_votes(feeds, n, mine)
    } else {
        old_votes
    };
    lemma_scan_review_seen_covers(feeds, n, review);
    lemma_scan_votes_cover(feeds, n, mine);
    lemma_rescan_prefix(feeds, n, prefs, seen, votes, review, mine);
}

} // verus!
