//! Pull-request decorations (line counts and the like) fetched row by row for providers
//! whose list call leaves them out: which rows to ask for, what lands, and what a failed
//! call leaves behind.
use vstd::prelude::*;

use crate::pipes::{seen_pair, seen_pair_exec};
use crate::prscan::{lemma_with_key_has, with_key};

verus! {

/// At most this many rows are asked for per batch.
pub const PR_DECORATE_CAP: usize = 25;

/// A row's key: (connection id, PR id).
pub type RowKey = (String, String);

/// The decorations held, asked for and failed, by row key.
pub struct Decorations<D> {
    /// Fetched decorations, one per key.
    pub done: Vec<(RowKey, D)>,
    /// Keys asked for and not yet answered.
    pub inflight: Vec<RowKey>,
    /// Keys whose call failed since the last reload; not asked again until then.
    pub failed: Vec<RowKey>,
}

/// The position of the decoration of (`c`, `i`) in `m`, or -1.
pub open spec fn decor_index<D>(m: Seq<(RowKey, D)>, c: Seq<char>, i: Seq<char>) -> int
    decreases m.len(),
{
    if m.len() == 0 {
        -1
    } else if m[0].0.0@ == c && m[0].0.1@ == i {
        0
    } else {
        let j = decor_index(m.drop_first(), c, i);
        if j < 0 {
            -1
        } else {
            j + 1
        }
    }
}

/// Whether `m` holds a decoration for (`c`, `i`).
pub open spec fn has_decor<D>(m: Seq<(RowKey, D)>, c: Seq<char>, i: Seq<char>) -> bool {
    exists|j: int| 0 <= j < m.len() && #[trigger] m[j].0.0@ == c && m[j].0.1@ == i
}

/// `m` with the decoration of `k` set to `d`: replaced where present, else added.
pub open spec fn with_decor<D>(m: Seq<(RowKey, D)>, k: RowKey, d: D) -> Seq<(RowKey, D)> {
    let j = decor_index(m, k.0@, k.1@);
    if j < 0 {
        m.push((k, d))
    } else {
        m.update(j, (k, d))
    }
}

/// `s` without the key (`c`, `i`).
pub open spec fn without_key(s: Seq<RowKey>, c: Seq<char>, i: Seq<char>) -> Seq<RowKey>
    decreases s.len(),
{
    if s.len() == 0 {
        s
    } else {
        let rest = without_key(s.drop_last(), c, i);
        if s.last().0@ == c && s.last().1@ == i {
            rest
        } else {
            rest.push(s.last())
        }
    }
}

/// Whether a shown row (connection id, PR id, whether its connection needs decorating) is
/// one to ask for: decorated by nobody, asked for by nobody, failed for nobody.
pub open spec fn wants<D>(d: Decorations<D>, r: (String, String, bool)) -> bool {
    &&& r.2
    &&& !has_decor(d.done@, r.0@, r.1@)
    &&& !seen_pair(d.inflight@, r.0@, r.1@)
    &&& !seen_pair(d.failed@, r.0@, r.1@)
}

/// The keys of the first `n` rows worth asking for, in order (uncapped).
pub open spec fn wanted_keys<D>(d: Decorations<D>, rows: Seq<(String, String, bool)>, n: int) -> Seq<RowKey>
    decreases n,
{
    if n <= 0 {
        seq![]
    } else {
        wanted_keys(d, rows, n - 1) + if wants(d, rows[n - 1]) {
            seq![(rows[n - 1].0, rows[n - 1].1)]
        } else {
            seq![]
        }
    }
}

/// `s` with every key of `ks` added, as a set.
pub open spec fn with_keys(s: Seq<RowKey>, ks: Seq<RowKey>) -> Seq<RowKey>
    decreases ks.len(),
{
    if ks.len() == 0 {
        s
    } else {
        with_key(with_keys(s, ks.drop_last()), ks.last())
    }
}

/// The decorations after `items` land, in order: each fetched one kept (replacing any
/// held for its key).
pub open spec fn land_done<D>(done: Seq<(RowKey, D)>, items: Seq<(RowKey, Option<D>)>) -> Seq<(RowKey, D)>
    decreases items.len(),
{
    if items.len() == 0 {
        done
    } else {
        let a = land_done(done, items.drop_last());
        match items.last().1 {
            Some(x) => with_decor(a, items.last().0, x),
            None => a,
        }
    }
}

/// The in-flight keys after `items` land: every answered key leaves.
pub open spec fn land_inflight<D>(s: Seq<RowKey>, items: Seq<(RowKey, Option<D>)>) -> Seq<RowKey>
    decreases items.len(),
{
    if items.len() == 0 {
        s
    } else {
        let k = items.last().0;
        without_key(land_inflight(s, items.drop_last()), k.0@, k.1@)
    }
}

/// The failed keys after `items` land: every key answered with nothing is remembered.
pub open spec fn land_failed<D>(s: Seq<RowKey>, items: Seq<(RowKey, Option<D>)>) -> Seq<RowKey>
    decreases items.len(),
{
    if items.len() == 0 {
        s
    } else {
        let a = land_failed(s, items.drop_last());
        match items.last().1 {
            Some(_) => a,
            None => with_key(a, items.last().0),
        }
    }
}

proof fn lemma_decor_index_first<D>(m: Seq<(RowKey, D)>, c: Seq<char>, i: Seq<char>, n: int)
    requires
        0 <= n <= m.len(),
        forall|j: int| 0 <= j < n ==> !(#[trigger] m[j].0.0@ == c && m[j].0.1@ == i),
    ensures
        n == m.len() ==> decor_index(m, c, i) == -1,
        n < m.len() && m[n].0.0@ == c && m[n].0.1@ == i ==> decor_index(m, c, i) == n,
    decreases n,
{
    if m.len() > 0 && n > 0 {
        let t = m.drop_first();
        assert forall|j: int| 0 <= j < n - 1 implies !(#[trigger] t[j].0.0@ == c && t[j].0.1@ == i) by {
            assert(t[j] == m[j + 1]);
        }
        lemma_decor_index_first(t, c, i, n - 1);
        if n < m.len() {
            assert(t[n - 1] == m[n]);
        }
    }
}

fn has_decor_exec<D>(m: &Vec<(RowKey, D)>, c: &String, i: &String) -> (r: bool)
    ensures
        r == has_decor(m@, c@, i@),
{
    let mut j: usize = 0;
    while j < m.len()
        invariant
            j <= m@.len(),
            forall|k: int| 0 <= k < j ==> !(#[trigger] m@[k].0.0@ == c@ && m@[k].0.1@ == i@),
        decreases m@.len() - j,
    {
        if m[j].0.0 == *c && m[j].0.1 == *i {
            return true;
        }
        j += 1;
    }
    false
}

fn insert_decor<D>(m: &mut Vec<(RowKey, D)>, k: RowKey, d: D)
    ensures
        final(m)@ == with_decor(old(m)@, k, d),
{
    let mut j: usize = 0;
    while j < m.len()
        invariant
            j <= m@.len(),
            m@ == old(m)@,
            forall|x: int| 0 <= x < j ==> !(#[trigger] m@[x].0.0@ == k.0@ && m@[x].0.1@ == k.1@),
        decreases m@.len() - j,
    {
        if m[j].0.0 == k.0 && m[j].0.1 == k.1 {
            proof {
                lemma_decor_index_first(m@, k.0@, k.1@, j as int);
            }
            m.set(j, (k, d));
            return;
        }
        j += 1;
    }
    proof {
        lemma_decor_index_first(m@, k.0@, k.1@, j as int);
    }
    m.push((k, d));
}

fn remove_key(s: &mut Vec<RowKey>, c: &String, i: &String)
    ensures
        final(s)@ == without_key(old(s)@, c@, i@),
{
    let mut out: Vec<RowKey> = Vec::new();
    let mut j: usize = 0;
    while j < s.len()
        invariant
            j <= s@.len(),
            s@ == old(s)@,
            out@ == without_key(s@.take(j as int), c@, i@),
        decreases s@.len() - j,
    {
        assert(s@.take(j + 1).drop_last() == s@.take(j as int));
        if !(s[j].0 == *c && s[j].1 == *i) {
            out.push((s[j].0.clone(), s[j].1.clone()));
        }
        j += 1;
    }
    assert(s@.take(j as int) == s@);
    *s = out;
}

fn add_key(s: &mut Vec<RowKey>, k: &RowKey)
    ensures
        final(s)@ == with_key(old(s)@, *k),
{
    if !seen_pair_exec(s, &k.0, &k.1) {
        s.push((k.0.clone(), k.1.clone()));
    }
}

impl<D> Decorations<D> {
    /// Nothing held, asked for or failed.
    pub fn new() -> (r: Decorations<D>)
        ensures
            r.done@.len() == 0,
            r.inflight@.len() == 0,
            r.failed@.len() == 0,
    {
        Decorations { done: Vec::new(), inflight: Vec::new(), failed: Vec::new() }
    }

    /// The decoration held for (`conn`, `id`), if any.
    pub fn get(&self, conn: &String, id: &String) -> (r: Option<&D>)
        ensures
            match r {
                Some(x) => has_decor(self.done@, conn@, id@) && *x == self.done@[decor_index(self.done@, conn@, id@)].1,
                None => !has_decor(self.done@, conn@, id@),
            },
    {
        let mut j: usize = 0;
        while j < self.done.len()
            invariant
                j <= self.done@.len(),
                forall|k: int| 0 <= k < j ==> !(#[trigger] self.done@[k].0.0@ == conn@ && self.done@[k].0.1@ == id@),
            decreases self.done@.len() - j,
        {
            if self.done[j].0.0 == *conn && self.done[j].0.1 == *id {
                proof {
                    lemma_decor_index_first(self.done@, conn@, id@, j as int);
                }
                return Some(&self.done[j].1);
            }
            j += 1;
        }
        None
    }

    /// The rows to ask for now: the first `PR_DECORATE_CAP` of `rows` (connection id, PR
    /// id, whether its connection needs decorating) that are decorated, asked for and failed
    /// for nobody. They are marked in flight, so the next call does not ask again.
    pub fn request(&mut self, rows: &[(String, String, bool)]) -> (wanted: Vec<RowKey>)
        ensures
            ({
                let all = wanted_keys(*old(self), rows@, rows@.len() as int);
                &&& wanted@ == all.take(if all.len() < PR_DECORATE_CAP { all.len() as int } else { PR_DECORATE_CAP as int })
            }),
            final(self).inflight@ == with_keys(old(self).inflight@, wanted@),
            final(self).done@ == old(self).done@,
            final(self).failed@ == old(self).failed@,
    {
        let mut wanted: Vec<RowKey> = Vec::new();
        let ghost all = wanted_keys(*old(self), rows@, rows@.len() as int);
        let mut i: usize = 0;
        while i < rows.len() && wanted.len() < PR_DECORATE_CAP
            invariant
                i <= rows@.len(),
                *self == *old(self),
                wanted@ == wanted_keys(*old(self), rows@, i as int),
                wanted@.len() <= PR_DECORATE_CAP,
            decreases rows@.len() - i,
        {
            let r = &rows[i];
            if r.2 && !has_decor_exec(&self.done, &r.0, &r.1) && !seen_pair_exec(&self.inflight, &r.0, &r.1)
                && !seen_pair_exec(&self.failed, &r.0, &r.1) {
                wanted.push((r.0.clone(), r.1.clone()));
            }
            i += 1;
        }
        proof {
            lemma_wanted_prefix(*old(self), rows@, i as int, rows@.len() as int);
            if wanted@.len() < PR_DECORATE_CAP {
                assert(i == rows@.len());
                assert(all == wanted@);
                assert(all.take(all.len() as int) == all);
            } else {
                assert(all.take(PR_DECORATE_CAP as int) == wanted@);
            }
        }
        let mut k: usize = 0;
        while k < wanted.len()
            invariant
                k <= wanted@.len(),
                self.done@ == old(self).done@,
                self.failed@ == old(self).failed@,
                self.inflight@ == with_keys(old(self).inflight@, wanted@.take(k as int)),
            decreases wanted@.len() - k,
        {
            assert(wanted@.take(k + 1).drop_last() == wanted@.take(k as int));
            add_key(&mut self.inflight, &wanted[k]);
            k += 1;
        }
        assert(wanted@.take(k as int) == wanted@);
        wanted
    }

    /// A batch of answers lands, in order: each key leaves the in-flight set; a fetched
    /// decoration is kept (replacing any held), a failed one is remembered as failed and is
    /// not cached as a blank decoration.
    pub fn land(&mut self, items: Vec<(RowKey, Option<D>)>)
        ensures
            final(self).done@ == land_done(old(self).done@, items@),
            final(self).inflight@ == land_inflight(old(self).inflight@, items@),
            final(self).failed@ == land_failed(old(self).failed@, items@),
    {
        let ghost all = items@;
        let mut items = items;
        let total = items.len();
        assert(all.len() == total);
        let mut i: usize = 0;
        while items.len() > 0
            invariant
                i <= all.len(),
                all.len() <= usize::MAX,
                items@ == all.skip(i as int),
                self.done@ == land_done(old(self).done@, all.take(i as int)),
                self.inflight@ == land_inflight(old(self).inflight@, all.take(i as int)),
                self.failed@ == land_failed(old(self).failed@, all.take(i as int)),
            decreases items@.len(),
        {
            assert(all.take(i + 1).drop_last() == all.take(i as int));
            assert(all.take(i + 1).last() == all[i as int]);
            assert(items@[0] == all[i as int]);
            let (key, d) = items.remove(0);
            remove_key(&mut self.inflight, &key.0, &key.1);
            match d {
                Some(x) => insert_decor(&mut self.done, key, x),
                None => add_key(&mut self.failed, &key),
            }
            assert(items@ == all.skip(i + 1));
            i += 1;
        }
        assert(all.take(i as int) == all);
    }

    /// A reload replaced the pool: failures are forgotten (the next request retries them),
    /// and decorations of rows the pool no longer holds are dropped.
    pub fn reload(&mut self, live: &Vec<RowKey>)
        ensures
            final(self).failed@.len() == 0,
            final(self).inflight@ == old(self).inflight@,
            final(self).done@ == kept_live(old(self).done@, live@, old(self).done@.len() as int),
    {
        self.failed = Vec::new();
        let mut kept: Vec<(RowKey, D)> = Vec::new();
        let ghost old_done = self.done@;
        let mut done = Vec::new();
        std::mem::swap(&mut done, &mut self.done);
        let total = done.len();
        assert(old_done.len() == total);
        let mut i: usize = 0;
        while done.len() > 0
            invariant
                i <= old_done.len(),
                old_done.len() <= usize::MAX,
                done@ == old_done.skip(i as int),
                kept@ == kept_live(old_done, live@, i as int),
                self.failed@.len() == 0,
                self.inflight@ == old(self).inflight@,
            decreases done@.len(),
        {
            assert(done@[0] == old_done[i as int]);
            let (key, d) = done.remove(0);
            if seen_pair_exec(live, &key.0, &key.1) {
                kept.push((key, d));
            }
            assert(done@ == old_done.skip(i + 1));
            i += 1;
        }
        self.done = kept;
    }
}

/// The decorations among the first `n` of `done` whose rows are still live.
pub open spec fn kept_live<D>(done: Seq<(RowKey, D)>, live: Seq<RowKey>, n: int) -> Seq<(RowKey, D)>
    decreases n,
{
    if n <= 0 {
        seq![]
    } else {
        kept_live(done, live, n - 1) + if seen_pair(live, done[n - 1].0.0@, done[n - 1].0.1@) {
            seq![done[n - 1]]
        } else {
            seq![]
        }
    }
}

proof fn lemma_wanted_prefix<D>(d: Decorations<D>, rows: Seq<(String, String, bool)>, i: int, n: int)
    requires
        0 <= i <= n <= rows.len(),
    ensures
        wanted_keys(d, rows, n).len() >= wanted_keys(d, rows, i).len(),
        wanted_keys(d, rows, n).take(wanted_keys(d, rows, i).len() as int) == wanted_keys(d, rows, i),
    decreases n - i,
{
    if n > i {
        lemma_wanted_prefix(d, rows, i, n - 1);
        let a = wanted_keys(d, rows, n - 1);
        let b = wanted_keys(d, rows, i);
        assert(wanted_keys(d, rows, n).take(b.len() as int) =~= a.take(b.len() as int));
    } else {
        assert(wanted_keys(d, rows, n).take(wanted_keys(d, rows, i).len() as int) =~= wanted_keys(d, rows, i));
    }
}

/// Whether `ks` names the key (`c`, `i`).
pub open spec fn names_key(ks: Seq<RowKey>, c: Seq<char>, i: Seq<char>) -> bool {
    seen_pair(ks, c, i)
}

proof fn lemma_wanted_are_wanted<D>(d: Decorations<D>, rows: Seq<(String, String, bool)>, n: int)
    requires
        n <= rows.len(),
    ensures
        forall|k: int|
            0 <= k < wanted_keys(d, rows, n).len() ==> {
                let w = #[trigger] wanted_keys(d, rows, n)[k];
                &&& !has_decor(d.done@, w.0@, w.1@)
                &&& !seen_pair(d.inflight@, w.0@, w.1@)
                &&& !seen_pair(d.failed@, w.0@, w.1@)
            },
    decreases n,
{
    if n > 0 {
        lemma_wanted_are_wanted(d, rows, n - 1);
        let a = wanted_keys(d, rows, n - 1);
        assert forall|k: int| 0 <= k < wanted_keys(d, rows, n).len() implies ({
            let w = #[trigger] wanted_keys(d, rows, n)[k];
            &&& !has_decor(d.done@, w.0@, w.1@)
            &&& !seen_pair(d.inflight@, w.0@, w.1@)
            &&& !seen_pair(d.failed@, w.0@, w.1@)
        }) by {
            if k < a.len() {
                assert(wanted_keys(d, rows, n)[k] == a[k]);
            }
        }
    }
}

/// No row is asked for twice: what a request asks for is neither decorated, nor in flight,
/// nor failed since the last reload.
pub proof fn lemma_request_skips_known<D>(d: Decorations<D>, rows: Seq<(String, String, bool)>, w: RowKey)
    requires
        names_key(wanted_keys(d, rows, rows.len() as int), w.0@, w.1@),
    ensures
        !has_decor(d.done@, w.0@, w.1@),
        !seen_pair(d.inflight@, w.0@, w.1@),
        !seen_pair(d.failed@, w.0@, w.1@),
{
    let ws = wanted_keys(d, rows, rows.len() as int);
    lemma_wanted_are_wanted(d, rows, rows.len() as int);
    let k = choose|k: int| 0 <= k < ws.len() && #[trigger] ws[k].0@ == w.0@ && ws[k].1@ == w.1@;
    let x = ws[k];
    assert(!seen_pair(d.inflight@, x.0@, x.1@));
}

proof fn lemma_without_key_has(s: Seq<RowKey>, c: Seq<char>, i: Seq<char>, c2: Seq<char>, i2: Seq<char>)
    ensures
        seen_pair(without_key(s, c, i), c2, i2) <==> (seen_pair(s, c2, i2) && !(c2 == c && i2 == i)),
    decreases s.len(),
{
    if s.len() > 0 {
        let t = s.drop_last();
        lemma_without_key_has(t, c, i, c2, i2);
        let r = without_key(t, c, i);
        if seen_pair(s, c2, i2) && !(c2 == c && i2 == i) {
            let w = choose|w: int| 0 <= w < s.len() && #[trigger] s[w].0@ == c2 && s[w].1@ == i2;
            if w < t.len() {
                assert(t[w] == s[w]);
                if !(s.last().0@ == c && s.last().1@ == i) {
                    let v = choose|v: int| 0 <= v < r.len() && #[trigger] r[v].0@ == c2 && r[v].1@ == i2;
                    assert(r.push(s.last())[v] == r[v]);
                }
            } else {
                assert(r.push(s.last())[r.len() as int] == s.last());
            }
        }
        if seen_pair(without_key(s, c, i), c2, i2) {
            if !(s.last().0@ == c && s.last().1@ == i) {
                let v = choose|v: int|
                    0 <= v < r.push(s.last()).len() && #[trigger] r.push(s.last())[v].0@ == c2
                        && r.push(s.last())[v].1@ == i2;
                if v < r.len() {
                    assert(r.push(s.last())[v] == r[v]);
                    let w = choose|w: int| 0 <= w < t.len() && #[trigger] t[w].0@ == c2 && t[w].1@ == i2;
                    assert(s[w] == t[w]);
                } else {
                    assert(s[s.len() - 1] == s.last());
                }
            } else {
                let w = choose|w: int| 0 <= w < t.len() && #[trigger] t[w].0@ == c2 && t[w].1@ == i2;
                assert(s[w] == t[w]);
            }
        }
    }
}

proof fn lemma_land_failed_keeps<D>(s: Seq<RowKey>, items: Seq<(RowKey, Option<D>)>, c: Seq<char>, i: Seq<char>)
    requires
        seen_pair(s, c, i) || exists|p: int|
            0 <= p < items.len() && #[trigger] items[p].0.0@ == c && items[p].0.1@ == i && items[p].1 is None,
    ensures
        seen_pair(land_failed(s, items), c, i),
    decreases items.len(),
{
    if items.len() > 0 {
        let t = items.drop_last();
        if seen_pair(s, c, i) || exists|p: int|
            0 <= p < t.len() && #[trigger] t[p].0.0@ == c && t[p].0.1@ == i && t[p].1 is None {
            lemma_land_failed_keeps(s, t, c, i);
            match items.last().1 {
                Some(_) => {},
                None => lemma_with_key_has(land_failed(s, t), items.last().0, c, i),
            }
        } else {
            let p = choose|p: int|
                0 <= p < items.len() && #[trigger] items[p].0.0@ == c && items[p].0.1@ == i && items[p].1 is None;
            if p < t.len() {
                assert(t[p] == items[p]);
            }
            assert(p == items.len() - 1);
            lemma_with_key_has(land_failed(s, t), items.last().0, c, i);
        }
    }
}

/// A failed decoration is not asked for again until the next reload: once an answer with
/// nothing lands for a row, no request asks for that row.
pub proof fn lemma_failed_not_requeued<D>(
    d: Decorations<D>,
    items: Seq<(RowKey, Option<D>)>,
    after: Decorations<D>,
    p: int,
    rows: Seq<(String, String, bool)>,
)
    requires
        after.failed@ == land_failed(d.failed@, items),
        0 <= p < items.len(),
        items[p].1 is None,
    ensures
        !names_key(wanted_keys(after, rows, rows.len() as int), items[p].0.0@, items[p].0.1@),
{
    let k = items[p].0;
    lemma_land_failed_keeps(d.failed@, items, k.0@, k.1@);
    if names_key(wanted_keys(after, rows, rows.len() as int), k.0@, k.1@) {
        lemma_request_skips_known(after, rows, k);
    }
}

/// An answered row is no longer in flight, whether its call succeeded or failed.
pub proof fn lemma_answered_leave_flight<D>(s: Seq<RowKey>, items: Seq<(RowKey, Option<D>)>, p: int)
    requires
        0 <= p < items.len(),
    ensures
        !seen_pair(land_inflight(s, items), items[p].0.0@, items[p].0.1@),
    decreases items.len(),
{
    let t = items.drop_last();
    let k = items.last().0;
    let c = items[p].0.0@;
    let i = items[p].0.1@;
    lemma_without_key_has(land_inflight(s, t), k.0@, k.1@, c, i);
    if p < t.len() {
        assert(t[p] == items[p]);
        lemma_answered_leave_flight(s, t, p);
    }
}

} // verus!
