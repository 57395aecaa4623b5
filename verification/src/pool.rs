//! The pull-request views derived from the fetched pool: the rows a view's filter wants,
//! in the pool's order, capped per connection after filtering.
use vstd::prelude::*;

use crate::lists::PrRow;
use crate::text::str_eq;

verus! {

/// How many rows a derived pull-request view keeps of each connection.
pub const PR_VIEW_CAP: usize = 50;

/// How many of the rows at positions `kept` belong to connection `conn`.
pub open spec fn count_of(rows: Seq<PrRow>, kept: Seq<usize>, conn: Seq<char>) -> nat
    decreases kept.len(),
{
    if kept.len() == 0 {
        0
    } else {
        count_of(rows, kept.drop_last(), conn) + if rows[kept.last() as int].connection_id@ == conn {
            1nat
        } else {
            0nat
        }
    }
}

/// The positions among the first `n` rows that a view keeps: each wanted row, in order,
/// unless its connection already has `PR_VIEW_CAP` rows before it.
pub open spec fn kept_rows(rows: Seq<PrRow>, wanted: Seq<bool>, n: int) -> Seq<usize>
    decreases n,
{
    if n <= 0 {
        seq![]
    } else {
        let prev = kept_rows(rows, wanted, n - 1);
        let i = n - 1;
        if wanted[i] && count_of(rows, prev, rows[i].connection_id@) < PR_VIEW_CAP {
            prev.push(i as usize)
        } else {
            prev
        }
    }
}

fn count_exec(rows: &[PrRow], kept: &Vec<usize>, conn: &str) -> (n: usize)
    requires
        forall|j: int| 0 <= j < kept@.len() ==> (#[trigger] kept@[j]) < rows@.len(),
    ensures
        n == count_of(rows@, kept@, conn@),
{
    let mut n: usize = 0;
    let mut j: usize = 0;
    while j < kept.len()
        invariant
            j <= kept@.len(),
            forall|q: int| 0 <= q < kept@.len() ==> (#[trigger] kept@[q]) < rows@.len(),
            n == count_of(rows@, kept@.take(j as int), conn@),
            n <= j,
        decreases kept@.len() - j,
    {
        assert(kept@.take(j + 1).drop_last() =~= kept@.take(j as int));
        if str_eq(rows[kept[j]].connection_id.as_str(), conn) {
            n += 1;
        }
        j += 1;
    }
    assert(kept@.take(kept@.len() as int) =~= kept@);
    n
}

proof fn lemma_kept_rows_shape(rows: Seq<PrRow>, wanted: Seq<bool>, n: int)
    requires
        0 <= n <= usize::MAX,
    ensures
        forall|j: int| 0 <= j < kept_rows(rows, wanted, n).len() ==> (#[trigger] kept_rows(rows, wanted, n)[j]) < n,
        forall|a: int, b: int|
            0 <= a < b < kept_rows(rows, wanted, n).len() ==> kept_rows(rows, wanted, n)[a] < kept_rows(
                rows,
                wanted,
                n,
            )[b],
    decreases n,
{
    if n > 0 {
        lemma_kept_rows_shape(rows, wanted, n - 1);
        let prev = kept_rows(rows, wanted, n - 1);
        let k = kept_rows(rows, wanted, n);
        if k.len() > prev.len() {
            assert(k == prev.push((n - 1) as usize));
            assert forall|j: int| 0 <= j < k.len() implies (#[trigger] k[j]) < n by {
                if j < prev.len() {
                    assert(k[j] == prev[j]);
                }
            }
            assert forall|a: int, b: int| 0 <= a < b < k.len() implies k[a] < k[b] by {
                assert(k[a] == prev[a]);
                if b < prev.len() {
                    assert(k[b] == prev[b]);
                }
            }
        }
    }
}

/// The rows a derived view shows, as positions into the pool's `rows`: each row its filter
/// wants (`wanted`), in the pool's order, capped at `PR_VIEW_CAP` per connection after
/// filtering, so one busy connection never crowds another off the list.
pub fn derive_pool_rows(rows: &[PrRow], wanted: &Vec<bool>) -> (out: Vec<usize>)
    requires
        wanted@.len() == rows@.len(),
    ensures
        out@ == kept_rows(rows@, wanted@, rows@.len() as int),
{
    let mut out: Vec<usize> = Vec::new();
    let mut i: usize = 0;
    while i < rows.len()
        invariant
            i <= rows@.len(),
            wanted@.len() == rows@.len(),
            out@ == kept_rows(rows@, wanted@, i as int),
        decreases rows@.len() - i,
    {
        proof {
            lemma_kept_rows_shape(rows@, wanted@, i as int);
        }
        if wanted[i] {
            let n = count_exec(rows, &out, rows[i].connection_id.as_str());
            if n < PR_VIEW_CAP {
                out.push(i);
            }
        }
        i += 1;
    }
    out
}

/// No connection ever has more than `PR_VIEW_CAP` rows in a derived view.
pub proof fn lemma_cap_per_connection(rows: Seq<PrRow>, wanted: Seq<bool>, n: int, conn: Seq<char>)
    requires
        n <= usize::MAX,
    ensures
        count_of(rows, kept_rows(rows, wanted, n), conn) <= PR_VIEW_CAP,
    decreases n,
{
    if n > 0 {
        lemma_cap_per_connection(rows, wanted, n - 1, conn);
        let prev = kept_rows(rows, wanted, n - 1);
        let k = kept_rows(rows, wanted, n);
        let i = n - 1;
        if k.len() > prev.len() {
            assert(k == prev.push(i as usize));
            assert(k.drop_last() =~= prev);
            assert(k.last() == i);
            assert(count_of(rows, k, conn) == count_of(rows, prev, conn) + if rows[i].connection_id@ == conn {
                1nat
            } else {
                0nat
            });
        }
    }
}

/// A derived view keeps only rows its filter wants.
pub proof fn lemma_kept_are_wanted(rows: Seq<PrRow>, wanted: Seq<bool>, n: int)
    requires
        n <= usize::MAX,
    ensures
        forall|j: int|
            0 <= j < kept_rows(rows, wanted, n).len() ==> wanted[#[trigger] kept_rows(rows, wanted, n)[j] as int],
    decreases n,
{
    if n > 0 {
        lemma_kept_are_wanted(rows, wanted, n - 1);
        let prev = kept_rows(rows, wanted, n - 1);
        let k = kept_rows(rows, wanted, n);
        if k.len() > prev.len() {
            assert(k == prev.push((n - 1) as usize));
            assert forall|j: int| 0 <= j < k.len() implies wanted[#[trigger] k[j] as int] by {
                if j < prev.len() {
                    assert(k[j] == prev[j]);
                }
            }
        }
    }
}

} // verus!
