//! Folding a finished reload into the lists on screen: the pull-request pool and each
//! section's rows (a failed section that brought nothing keeps what is shown), the
//! decorations, the inbox cursor, the health list and repository catalog, the data age,
//! the notification scan's sets, the first-run waiting card, the status line, which
//! sections go to the cache, and whether the failure is logged.
use vstd::prelude::*;

use crate::decor::{kept_live, Decorations, RowKey};
use crate::inbox::{Inbox, InboxRow};
use crate::lists::{PrRow, WiRow};
use crate::pipes::PipeRow;
use crate::prscan::{PrScan, PrScanState};
use crate::sections::{take_section, taken, SectionsOk};
use crate::text::{dec_nat, push_str, push_u64};

verus! {

/// Every pull request the connections admit to, fetched once per reload, from which the
/// PR views are derived.
pub struct PrPool {
    pub open: Vec<PrRow>,
    pub completed: Vec<PrRow>,
    /// Per connection, the signed-in user's handle, when known.
    pub me: Vec<(String, Option<String>)>,
    /// Per connection, whether its list call leaves the decorations out.
    pub needs_decoration: Vec<(String, bool)>,
}

impl PrPool {
    /// An empty pool.
    pub fn new() -> (p: PrPool)
        ensures
            p.open@.len() == 0 && p.completed@.len() == 0 && p.me@.len() == 0 && p.needs_decoration@.len() == 0,
    {
        PrPool { open: Vec::new(), completed: Vec::new(), me: Vec::new(), needs_decoration: Vec::new() }
    }
}

/// Whether a pool brought any rows.
pub open spec fn pool_has_rows(p: PrPool) -> bool {
    p.open@.len() > 0 || p.completed@.len() > 0
}

/// The (connection id, PR id) keys of every row a pool holds.
pub open spec fn pool_keys(p: PrPool) -> Seq<RowKey> {
    (p.open@ + p.completed@).map_values(|r: PrRow| (r.connection_id, r.pr.id))
}

/// A connection's health, as the lists read it.
pub struct ConnHealth {
    pub connection_id: String,
    pub healthy: bool,
}

/// What repository discovery found for a connection.
pub struct RepoPage {
    pub repositories: Vec<String>,
    /// Discovery stopped at its page ceiling.
    pub truncated: bool,
}

/// A section a reload writes to the cache.
#[derive(Debug, Clone, Copy, PartialEq, Eq, Structural)]
pub enum CacheSection {
    /// The current PR view's rows, under the key of the filter they were derived under.
    Prs,
    WorkItems,
    Pipelines,
    Inbox,
    LaunchpadMine,
    LaunchpadReview,
}

/// The sections a reload caches: each only when its own fetch was complete, so a partial
/// list (one connection down) never replaces a complete cached one.
pub open spec fn cache_plan(ok: SectionsOk) -> Seq<CacheSection> {
    (if ok.prs { seq![CacheSection::Prs] } else { seq![] })
        + (if ok.wis { seq![CacheSection::WorkItems] } else { seq![] })
        + (if ok.pipes { seq![CacheSection::Pipelines] } else { seq![] })
        + (if ok.inbox { seq![CacheSection::Inbox] } else { seq![] })
        + (if ok.lp_mine { seq![CacheSection::LaunchpadMine] } else { seq![] })
        + (if ok.lp_review { seq![CacheSection::LaunchpadReview] } else { seq![] })
}

/// The sections to write through to the cache after a reload (see `cache_plan`).
pub fn cache_writes(ok: SectionsOk) -> (r: Vec<CacheSection>)
    ensures
        r@ == cache_plan(ok),
{
    let mut r: Vec<CacheSection> = Vec::new();
    if ok.prs {
        r.push(CacheSection::Prs);
    }
    if ok.wis {
        r.push(CacheSection::WorkItems);
    }
    if ok.pipes {
        r.push(CacheSection::Pipelines);
    }
    if ok.inbox {
        r.push(CacheSection::Inbox);
    }
    if ok.lp_mine {
        r.push(CacheSection::LaunchpadMine);
    }
    if ok.lp_review {
        r.push(CacheSection::LaunchpadReview);
    }
    assert(r@ =~= cache_plan(ok));
    r
}

/// The lists a reload refreshes, and what the app shows about them; `D` is what a row's
/// decoration holds.
pub struct ListsState<D> {
    /// The pool the PR views are derived from, and whether one has landed yet.
    pub pr_pool: PrPool,
    pub pr_pool_loaded: bool,
    /// The decorations fetched row by row.
    pub decorations: Decorations<D>,
    /// The pull requests of the current view, and the Command Center's two PR feeds.
    pub prs: Vec<PrRow>,
    pub lp_prs_mine: Vec<PrRow>,
    pub lp_prs_review: Vec<PrRow>,
    pub wis: Vec<WiRow>,
    pub pipes: Vec<PipeRow>,
    pub inbox: Inbox,
    /// Each connection's health.
    pub health: Vec<ConnHealth>,
    /// What repository discovery found, per connection id.
    pub catalog: Vec<(String, RepoPage)>,
    /// The age of the cached rows on screen, while any section still shows them.
    pub data_age: Option<i64>,
    /// The first-run card waiting for a connection set up in the browser.
    pub awaiting_browser_setup: bool,
    pub scan: PrScanState,
    pub status: String,
    pub loading: bool,
    pub reloading: bool,
}

/// What a finished reload brought: the pool and the PR lists the caller derived from the
/// pool it now shows, the other sections' rows, the health list, the notification scan,
/// discovery (when this fetch ran it), the errors, and which sections came back whole.
pub struct Reloaded {
    pub pr_pool: PrPool,
    pub prs: Vec<PrRow>,
    pub lp_prs_mine: Vec<PrRow>,
    pub lp_prs_review: Vec<PrRow>,
    pub wis: Vec<WiRow>,
    pub pipes: Vec<PipeRow>,
    pub inbox: Vec<InboxRow>,
    pub health: Vec<ConnHealth>,
    pub catalog: Option<Vec<(String, RepoPage)>>,
    pub scan: Option<PrScan>,
    pub errors: Vec<String>,
    pub ok: SectionsOk,
}

/// What the app does after a reload beyond the state: the toast to show, whether to log
/// the refresh as failed (with fixed text only: the errors may hold private detail), and
/// which sections to write through to the cache.
pub struct ReloadEffects {
    pub toast: Option<String>,
    pub log_failure: bool,
    pub cache: Vec<CacheSection>,
}

/// `parts` joined with `sep`.
pub open spec fn joined_by(parts: Seq<Seq<char>>, sep: Seq<char>) -> Seq<char>
    decreases parts.len(),
{
    if parts.len() == 0 {
        seq![]
    } else if parts.len() == 1 {
        parts[0]
    } else {
        joined_by(parts.drop_last(), sep) + sep + parts.last()
    }
}

pub open spec fn error_views(v: Seq<String>) -> Seq<Seq<char>> {
    v.map_values(|s: String| s@)
}

/// The status line after a reload: the counts when nothing failed, else every error,
/// separated by `  |  `.
pub open spec fn reload_status_text(prs: nat, wis: nat, runs: nat, errors: Seq<Seq<char>>) -> Seq<char> {
    if errors.len() == 0 {
        dec_nat(prs) + " PRs \u{b7} "@ + dec_nat(wis) + " work items \u{b7} "@ + dec_nat(runs) + " runs"@
    } else {
        joined_by(errors, "  |  "@)
    }
}

/// The status line after a reload (see `reload_status_text`).
pub fn reload_status(prs: usize, wis: usize, runs: usize, errors: &Vec<String>) -> (r: String)
    ensures
        r@ == reload_status_text(prs as nat, wis as nat, runs as nat, error_views(errors@)),
{
    let mut out = String::new();
    if errors.len() == 0 {
        push_u64(&mut out, prs as u64);
        push_str(&mut out, " PRs \u{b7} ");
        push_u64(&mut out, wis as u64);
        push_str(&mut out, " work items \u{b7} ");
        push_u64(&mut out, runs as u64);
        push_str(&mut out, " runs");
        return out;
    }
    let ghost ev = error_views(errors@);
    let mut i: usize = 0;
    while i < errors.len()
        invariant
            i <= errors@.len(),
            errors@.len() > 0,
            ev == error_views(errors@),
            i == 0 ==> out@.len() == 0,
            i > 0 ==> out@ == joined_by(ev.take(i as int), "  |  "@),
        decreases errors@.len() - i,
    {
        let ghost before = out@;
        if i > 0 {
            push_str(&mut out, "  |  ");
        }
        push_str(&mut out, errors[i].as_str());
        proof {
            let t = ev.take(i + 1);
            assert(t.drop_last() =~= ev.take(i as int));
            assert(t.last() == errors@[i as int]@);
            if i == 0 {
                assert(t.len() == 1);
                assert(out@ =~= t[0]);
            }
        }
        i += 1;
    }
    assert(ev.take(i as int) =~= ev);
    out
}

pub open spec fn lit_all_set() -> Seq<char> {
    "Connection added \u{2014} you're all set"@
}

fn pool_live_keys(p: &PrPool) -> (r: Vec<RowKey>)
    ensures
        r@ == pool_keys(*p),
{
    let mut r: Vec<RowKey> = Vec::new();
    let ghost all = p.open@ + p.completed@;
    let mut i: usize = 0;
    while i < p.open.len()
        invariant
            i <= p.open@.len(),
            all == p.open@ + p.completed@,
            r@ == all.take(i as int).map_values(|x: PrRow| (x.connection_id, x.pr.id)),
        decreases p.open@.len() - i,
    {
        assert(all[i as int] == p.open@[i as int]);
        r.push((p.open[i].connection_id.clone(), p.open[i].pr.id.clone()));
        i += 1;
        assert(r@ =~= all.take(i as int).map_values(|x: PrRow| (x.connection_id, x.pr.id)));
    }
    let mut k: usize = 0;
    while k < p.completed.len()
        invariant
            k <= p.completed@.len(),
            all == p.open@ + p.completed@,
            r@ == all.take(p.open@.len() + k).map_values(|x: PrRow| (x.connection_id, x.pr.id)),
        decreases p.completed@.len() - k,
    {
        assert(all[p.open@.len() + k] == p.completed@[k as int]);
        r.push((p.completed[k].connection_id.clone(), p.completed[k].pr.id.clone()));
        k += 1;
        assert(r@ =~= all.take(p.open@.len() + k).map_values(|x: PrRow| (x.connection_id, x.pr.id)));
    }
    assert(all.take(p.open@.len() + k) =~= all);
    r
}

/// What folding a finished reload `r` into the lists `o` leaves (`n`), and the effects `e`
/// it returns (see `apply_reloaded`).
pub open spec fn reload_applied<D>(o: ListsState<D>, n: ListsState<D>, r: Reloaded, e: ReloadEffects) -> bool {
    &&& ((r.ok.prs || pool_has_rows(r.pr_pool)) ==> ({
        &&& n.pr_pool == r.pr_pool
        &&& n.pr_pool_loaded
        &&& n.decorations.failed@.len() == 0
        &&& n.decorations.inflight@ == o.decorations.inflight@
        &&& n.decorations.done@ == kept_live(
            o.decorations.done@,
            pool_keys(r.pr_pool),
            o.decorations.done@.len() as int,
        )
    }))
    &&& (!(r.ok.prs || pool_has_rows(r.pr_pool)) ==> n.pr_pool == o.pr_pool && n.pr_pool_loaded
        == o.pr_pool_loaded && n.decorations == o.decorations)
    &&& (n.prs@ == taken(o.prs@, r.prs@, r.ok.prs))
    &&& (n.lp_prs_mine@ == taken(o.lp_prs_mine@, r.lp_prs_mine@, r.ok.lp_mine))
    &&& (n.lp_prs_review@ == taken(o.lp_prs_review@, r.lp_prs_review@, r.ok.lp_review))
    &&& (n.wis@ == taken(o.wis@, r.wis@, r.ok.wis))
    &&& (n.pipes@ == taken(o.pipes@, r.pipes@, r.ok.pipes))
    &&& (n.inbox.rows@ == taken(o.inbox.rows@, r.inbox@, r.ok.inbox))
    &&& (n.inbox.sel == (if o.inbox.sel >= n.inbox.rows@.len() {
        if n.inbox.rows@.len() == 0 { 0 } else { n.inbox.rows@.len() - 1 }
    } else {
        o.inbox.sel as int
    }))
    &&& (n.health == r.health)
    &&& (n.catalog == match r.catalog {
        Some(c) => c,
        None => o.catalog,
    })
    &&& (n.data_age == (if r.ok.prs && r.ok.wis && r.ok.pipes && r.ok.inbox && r.ok.lp_mine && r.ok.lp_review {
        None
    } else {
        o.data_age
    }))
    &&& ((o.awaiting_browser_setup && r.health@.len() > 0) ==> !n.awaiting_browser_setup
        && (e.toast matches Some(t) && t@ == lit_all_set()))
    &&& (!(o.awaiting_browser_setup && r.health@.len() > 0) ==> n.awaiting_browser_setup
        == o.awaiting_browser_setup && e.toast is None)
    &&& (match r.scan {
        Some(sc) => n.scan.seeded && n.scan.review_seen@ == (match sc.review_seen {
            Some(v) => v@,
            None => o.scan.review_seen@,
        }) && n.scan.pr_review_seen@ == (match sc.pr_review_seen {
            Some(v) => v@,
            None => o.scan.pr_review_seen@,
        }),
        None => n.scan == o.scan,
    })
    &&& (n.status@ == reload_status_text(
        n.prs@.len(),
        n.wis@.len(),
        n.pipes@.len(),
        error_views(r.errors@),
    ))
    &&& (e.log_failure == (r.errors@.len() > 0))
    &&& (e.cache@ == cache_plan(r.ok))
    &&& (!n.loading)
    &&& (!n.reloading)
}

/// Folds a finished reload into the lists. The pool is taken when the PR section answered
/// or brought rows (then marked loaded, its failed decorations forgotten and the
/// decorations of rows it no longer holds dropped); each section takes its incoming rows
/// unless it failed and brought nothing; the inbox cursor stays on a row; the health list
/// is replaced and the catalog too when discovery ran; the cached age goes once every
/// section is live; the scan's sets are taken in; the waiting card retires (saying so) once
/// a connection reports; the status line shows the counts or the errors. It returns the
/// toast, whether to log the refresh as failed, and the sections to cache.
pub fn apply_reloaded<D>(s: &mut ListsState<D>, r: Reloaded) -> (e: ReloadEffects)
    ensures
        reload_applied(*old(s), *final(s), r, e),
{
    let Reloaded {
        pr_pool,
        prs,
        lp_prs_mine,
        lp_prs_review,
        wis,
        pipes,
        inbox,
        health,
        catalog,
        scan,
        errors,
        ok,
    } = r;
    if ok.prs || pr_pool.open.len() > 0 || pr_pool.completed.len() > 0 {
        let live = pool_live_keys(&pr_pool);
        s.decorations.reload(&live);
        s.pr_pool = pr_pool;
        s.pr_pool_loaded = true;
    }
    take_section(&mut s.prs, prs, ok.prs);
    take_section(&mut s.lp_prs_mine, lp_prs_mine, ok.lp_mine);
    take_section(&mut s.lp_prs_review, lp_prs_review, ok.lp_review);
    take_section(&mut s.wis, wis, ok.wis);
    take_section(&mut s.pipes, pipes, ok.pipes);
    take_section(&mut s.inbox.rows, inbox, ok.inbox);
    s.inbox.clamp_inbox_sel();
    let has_health = health.len() > 0;
    s.health = health;
    match catalog {
        Some(c) => s.catalog = c,
        None => {},
    }
    if ok.all() {
        s.data_age = None;
    }
    let mut toast: Option<String> = None;
    if s.awaiting_browser_setup && has_health {
        s.awaiting_browser_setup = false;
        toast = Some("Connection added \u{2014} you're all set".to_owned());
    }
    match scan {
        Some(sc) => s.scan.absorb(sc),
        None => {},
    }
    s.status = reload_status(s.prs.len(), s.wis.len(), s.pipes.len(), &errors);
    s.loading = false;
    s.reloading = false;
    ReloadEffects { toast, log_failure: errors.len() > 0, cache: cache_writes(ok) }
}

pub open spec fn lit_loading_status() -> Seq<char> {
    "Loading\u{2026}"@
}

impl<D> ListsState<D> {
    /// Before the first fetch: no pool, every list empty, no decoration, health or
    /// catalog, the status line saying it is loading.
    pub fn new() -> (r: ListsState<D>)
        ensures
            r.pr_pool.open@.len() == 0 && r.pr_pool.completed@.len() == 0 && !r.pr_pool_loaded,
            r.decorations.done@.len() == 0 && r.decorations.inflight@.len() == 0 && r.decorations.failed@.len() == 0,
            r.prs@.len() == 0 && r.lp_prs_mine@.len() == 0 && r.lp_prs_review@.len() == 0,
            r.wis@.len() == 0 && r.pipes@.len() == 0,
            r.inbox.rows@.len() == 0 && r.inbox.sel == 0,
            r.health@.len() == 0 && r.catalog@.len() == 0,
            r.data_age is None,
            !r.awaiting_browser_setup,
            r.scan.review_seen@.len() == 0 && r.scan.pr_review_seen@.len() == 0 && !r.scan.seeded,
            r.status@ == lit_loading_status(),
            r.loading,
            !r.reloading,
    {
        ListsState {
            pr_pool: PrPool::new(),
            pr_pool_loaded: false,
            decorations: Decorations::new(),
            prs: Vec::new(),
            lp_prs_mine: Vec::new(),
            lp_prs_review: Vec::new(),
            wis: Vec::new(),
            pipes: Vec::new(),
            inbox: Inbox { rows: Vec::new(), sel: 0 },
            health: Vec::new(),
            catalog: Vec::new(),
            data_age: None,
            awaiting_browser_setup: false,
            scan: PrScanState::new(),
            status: "Loading\u{2026}".to_owned(),
            loading: true,
            reloading: false,
        }
    }
}

} // verus!
