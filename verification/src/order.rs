//! Sort keys and a stable sort. Lists sort by a column: each row gives a key for it, keys
//! of one column compare by their kind (text by code point, after Unicode
//! lowercasing by the caller; instants by time; ranks by number), and equal keys keep the
//! filter's order.
use vstd::prelude::*;

use crate::time::{time_lt, UtcTime};

verus! {

// ---------------------------------------------------------------------------
// Three-way comparison as a sign
// ---------------------------------------------------------------------------

/// Lexicographic order of two texts by code point: -1, 0 or 1. (`String`'s order compares
/// UTF-8 bytes, which orders texts the same way.)
pub open spec fn lex_sign(a: Seq<char>, b: Seq<char>) -> int
    decreases a.len(),
{
    if a.len() == 0 && b.len() == 0 {
        0
    } else if a.len() == 0 {
        -1
    } else if b.len() == 0 {
        1
    } else if a[0] < b[0] {
        -1
    } else if a[0] > b[0] {
        1
    } else {
        lex_sign(a.drop_first(), b.drop_first())
    }
}

pub open spec fn int_sign(a: int, b: int) -> int {
    if a < b {
        -1
    } else if a > b {
        1
    } else {
        0
    }
}

/// `Option<DateTime>` order: nothing before any instant, instants by time.
pub open spec fn time_sign(a: Option<UtcTime>, b: Option<UtcTime>) -> int {
    match (a, b) {
        (None, None) => 0,
        (None, Some(_)) => -1,
        (Some(_), None) => 1,
        (Some(x), Some(y)) => if time_lt(x, y) {
            -1
        } else if time_lt(y, x) {
            1
        } else {
            0
        },
    }
}

/// `Option<u64>` order: nothing before any number.
pub open spec fn num_sign(a: Option<u64>, b: Option<u64>) -> int {
    match (a, b) {
        (None, None) => 0,
        (None, Some(_)) => -1,
        (Some(_), None) => 1,
        (Some(x), Some(y)) => int_sign(x as int, y as int),
    }
}

pub proof fn lemma_lex_sign(a: Seq<char>, b: Seq<char>)
    ensures
        lex_sign(a, b) == -lex_sign(b, a),
        -1 <= lex_sign(a, b) <= 1,
        lex_sign(a, b) == 0 <==> a == b,
    decreases a.len(),
{
    if a.len() > 0 && b.len() > 0 && a[0] == b[0] {
        lemma_lex_sign(a.drop_first(), b.drop_first());
        assert(a =~= seq![a[0]] + a.drop_first());
        assert(b =~= seq![b[0]] + b.drop_first());
        if lex_sign(a, b) == 0 {
            assert(a.drop_first() == b.drop_first());
            assert(a == b);
        }
        if a == b {
            assert(a.drop_first() =~= b.drop_first());
        }
    } else if a.len() > 0 && b.len() > 0 {
        assert(a[0] != b[0]);
        assert(a != b);
    } else if a.len() == 0 && b.len() > 0 {
        assert(a != b);
    } else if a.len() > 0 && b.len() == 0 {
        assert(a != b);
    } else {
        assert(a =~= b);
    }
}

pub proof fn lemma_lex_trans(a: Seq<char>, b: Seq<char>, c: Seq<char>)
    requires
        lex_sign(a, b) < 0,
        lex_sign(b, c) < 0,
    ensures
        lex_sign(a, c) < 0,
    decreases a.len(),
{
    if a.len() > 0 && b.len() > 0 && c.len() > 0 && a[0] == b[0] && b[0] == c[0] {
        lemma_lex_trans(a.drop_first(), b.drop_first(), c.drop_first());
    }
}

// ---------------------------------------------------------------------------
// Sort keys
// ---------------------------------------------------------------------------

/// The value a row sorts by in one column. All keys of a column have one shape.
pub enum SortKey {
    /// A column that does not sort: every row compares equal.
    Unsorted,
    Text(Vec<char>),
    Time(Option<UtcTime>),
    Number(Option<u64>),
    Rank(u8),
    /// A rank, then a text to break ties.
    RankText(u8, Vec<char>),
    /// A text, then a second text to break ties.
    TextText(Vec<char>, Vec<char>),
}

pub open spec fn same_shape(a: SortKey, b: SortKey) -> bool {
    match (a, b) {
        (SortKey::Unsorted, SortKey::Unsorted) => true,
        (SortKey::Text(_), SortKey::Text(_)) => true,
        (SortKey::Time(_), SortKey::Time(_)) => true,
        (SortKey::Number(_), SortKey::Number(_)) => true,
        (SortKey::Rank(_), SortKey::Rank(_)) => true,
        (SortKey::RankText(_, _), SortKey::RankText(_, _)) => true,
        (SortKey::TextText(_, _), SortKey::TextText(_, _)) => true,
        _ => false,
    }
}

/// How two keys of a column compare: -1, 0 or 1.
pub open spec fn key_sign(a: SortKey, b: SortKey) -> int {
    match (a, b) {
        (SortKey::Text(x), SortKey::Text(y)) => lex_sign(x@, y@),
        (SortKey::Time(x), SortKey::Time(y)) => time_sign(x, y),
        (SortKey::Number(x), SortKey::Number(y)) => num_sign(x, y),
        (SortKey::Rank(x), SortKey::Rank(y)) => int_sign(x as int, y as int),
        (SortKey::RankText(r, x), SortKey::RankText(s, y)) => if r != s {
            int_sign(r as int, s as int)
        } else {
            lex_sign(x@, y@)
        },
        (SortKey::TextText(x1, x2), SortKey::TextText(y1, y2)) => if x1@ != y1@ {
            lex_sign(x1@, y1@)
        } else {
            lex_sign(x2@, y2@)
        },
        _ => 0,
    }
}

/// Keys that compare equal (the same values, read by their views).
pub open spec fn key_same(a: SortKey, b: SortKey) -> bool {
    match (a, b) {
        (SortKey::Unsorted, SortKey::Unsorted) => true,
        (SortKey::Text(x), SortKey::Text(y)) => x@ == y@,
        (SortKey::Time(x), SortKey::Time(y)) => x == y,
        (SortKey::Number(x), SortKey::Number(y)) => x == y,
        (SortKey::Rank(x), SortKey::Rank(y)) => x == y,
        (SortKey::RankText(r, x), SortKey::RankText(s, y)) => r == s && x@ == y@,
        (SortKey::TextText(x1, x2), SortKey::TextText(y1, y2)) => x1@ == y1@ && x2@ == y2@,
        _ => false,
    }
}

pub proof fn lemma_key_sign_basics(a: SortKey, b: SortKey)
    requires
        same_shape(a, b),
    ensures
        key_sign(a, b) == -key_sign(b, a),
        -1 <= key_sign(a, b) <= 1,
        key_sign(a, b) == 0 <==> key_same(a, b),
{
    match (a, b) {
        (SortKey::Text(x), SortKey::Text(y)) => lemma_lex_sign(x@, y@),
        (SortKey::RankText(r, x), SortKey::RankText(s, y)) => lemma_lex_sign(x@, y@),
        (SortKey::TextText(x1, x2), SortKey::TextText(y1, y2)) => {
            lemma_lex_sign(x1@, y1@);
            lemma_lex_sign(x2@, y2@);
        },
        (SortKey::Time(x), SortKey::Time(y)) => {},
        _ => {},
    }
}

/// Keys that compare equal compare alike with every other key.
pub proof fn lemma_key_same_congruent(a: SortKey, b: SortKey, c: SortKey)
    requires
        same_shape(a, b),
        same_shape(b, c),
        key_same(a, b),
    ensures
        key_sign(a, c) == key_sign(b, c),
{
}

pub proof fn lemma_key_sign_trans(a: SortKey, b: SortKey, c: SortKey)
    requires
        same_shape(a, b),
        same_shape(b, c),
        key_sign(a, b) < 0,
        key_sign(b, c) < 0,
    ensures
        key_sign(a, c) < 0,
{
    match (a, b, c) {
        (SortKey::Text(x), SortKey::Text(y), SortKey::Text(z)) => lemma_lex_trans(x@, y@, z@),
        (SortKey::RankText(r, x), SortKey::RankText(s, y), SortKey::RankText(t, z)) => {
            if r == s && s == t {
                lemma_lex_trans(x@, y@, z@);
            }
        },
        (SortKey::TextText(x1, x2), SortKey::TextText(y1, y2), SortKey::TextText(z1, z2)) => {
            lemma_lex_sign(x1@, y1@);
            lemma_lex_sign(y1@, z1@);
            lemma_lex_sign(x1@, z1@);
            if x1@ != y1@ && y1@ != z1@ {
                lemma_lex_trans(x1@, y1@, z1@);
            } else if x1@ == y1@ && y1@ == z1@ {
                lemma_lex_trans(x2@, y2@, z2@);
            }
        },
        _ => {},
    }
}

/// A sort the user picked for a list: a column key and a direction.
pub struct SortPref {
    pub key: String,
    pub desc: bool,
}

/// The sign of a row comparison in the chosen direction.
pub open spec fn directed(s: int, desc: bool) -> int {
    if desc {
        -s
    } else {
        s
    }
}

/// The rows `0..n` that pass `keep`, in order.
pub open spec fn rows_kept(keep: spec_fn(int) -> bool, n: int) -> Seq<usize>
    decreases n,
{
    if n <= 0 {
        seq![]
    } else {
        rows_kept(keep, n - 1) + if keep(n - 1) {
            seq![(n - 1) as usize]
        } else {
            seq![]
        }
    }
}

pub proof fn lemma_rows_kept(keep: spec_fn(int) -> bool, n: int)
    requires
        n <= usize::MAX + 1,
    ensures
        forall|i: int| 0 <= i < rows_kept(keep, n).len() ==> (#[trigger] rows_kept(keep, n)[i]) < n && keep(rows_kept(keep, n)[i] as int),
        forall|i: int, j: int| 0 <= i < j < rows_kept(keep, n).len() ==> #[trigger] rows_kept(keep, n)[i] < #[trigger] rows_kept(keep, n)[j],
    decreases n,
{
    if n > 0 {
        lemma_rows_kept(keep, n - 1);
        let prev = rows_kept(keep, n - 1);
        let cur = rows_kept(keep, n);
        assert(((n - 1) as usize) as int == n - 1);
        assert forall|i: int| 0 <= i < cur.len() implies (#[trigger] cur[i]) < n && keep(cur[i] as int) by {
            if i < prev.len() {
                assert(cur[i] == prev[i]);
            }
        }
        assert forall|i: int, j: int| 0 <= i < j < cur.len() implies #[trigger] cur[i] < #[trigger] cur[j] by {
            if j < prev.len() {
                assert(cur[i] == prev[i] && cur[j] == prev[j]);
            } else {
                assert(cur[i] == prev[i]);
            }
        }
    }
}

// ---------------------------------------------------------------------------
// Rows in sort order
// ---------------------------------------------------------------------------

/// How rows `x` and `y` compare in the chosen direction.
pub open spec fn dir_sign(keys: Seq<SortKey>, desc: bool, x: int, y: int) -> int {
    if desc {
        -key_sign(keys[x], keys[y])
    } else {
        key_sign(keys[x], keys[y])
    }
}

/// Row `x` comes before row `y`: it sorts first, or it sorts equal and came first.
pub open spec fn before(keys: Seq<SortKey>, desc: bool, x: int, y: int) -> bool {
    dir_sign(keys, desc, x, y) < 0 || (dir_sign(keys, desc, x, y) == 0 && x < y)
}

/// All keys of the column have one shape.
pub open spec fn one_shape(keys: Seq<SortKey>) -> bool {
    forall|i: int, j: int| 0 <= i < keys.len() && 0 <= j < keys.len() ==> same_shape(#[trigger] keys[i], #[trigger] keys[j])
}

/// `out` lists the rows in sort order.
pub open spec fn sorted_by(keys: Seq<SortKey>, desc: bool, out: Seq<usize>) -> bool {
    forall|i: int, j: int| 0 <= i < j < out.len() ==> before(keys, desc, #[trigger] out[i] as int, #[trigger] out[j] as int)
}

pub proof fn lemma_before_total(keys: Seq<SortKey>, desc: bool, x: int, y: int)
    requires
        one_shape(keys),
        0 <= x < keys.len(),
        0 <= y < keys.len(),
        x != y,
    ensures
        before(keys, desc, x, y) || before(keys, desc, y, x),
        !(before(keys, desc, x, y) && before(keys, desc, y, x)),
{
    lemma_key_sign_basics(keys[x], keys[y]);
}

pub proof fn lemma_before_trans(keys: Seq<SortKey>, desc: bool, x: int, y: int, z: int)
    requires
        one_shape(keys),
        0 <= x < keys.len(),
        0 <= y < keys.len(),
        0 <= z < keys.len(),
        before(keys, desc, x, y),
        before(keys, desc, y, z),
    ensures
        before(keys, desc, x, z),
{
    let (a, b, c) = (keys[x], keys[y], keys[z]);
    assert(same_shape(a, b) && same_shape(b, c) && same_shape(a, c) && same_shape(b, a) && same_shape(c, b));
    lemma_key_sign_basics(a, b);
    lemma_key_sign_basics(b, c);
    lemma_key_sign_basics(a, c);
    if key_sign(a, b) == 0 {
        lemma_key_same_congruent(a, b, c);
    } else if key_sign(b, c) == 0 {
        lemma_key_sign_basics(c, b);
        lemma_key_same_congruent(c, b, a);
        lemma_key_sign_basics(c, a);
    } else if !desc {
        lemma_key_sign_trans(a, b, c);
    } else {
        lemma_key_sign_trans(c, b, a);
        lemma_key_sign_basics(c, a);
        lemma_key_sign_basics(c, b);
        lemma_key_sign_basics(b, a);
    }
}

/// Sign of a key comparison, computed.
pub fn key_sign_exec(a: &SortKey, b: &SortKey) -> (r: i8)
    ensures
        r == key_sign(*a, *b),
{
    match (a, b) {
        (SortKey::Text(x), SortKey::Text(y)) => lex_sign_exec(x, y),
        (SortKey::Time(x), SortKey::Time(y)) => time_sign_exec(*x, *y),
        (SortKey::Number(x), SortKey::Number(y)) => match (x, y) {
            (None, None) => 0,
            (None, Some(_)) => -1,
            (Some(_), None) => 1,
            (Some(p), Some(q)) => if *p < *q {
                -1
            } else if *p > *q {
                1
            } else {
                0
            },
        },
        (SortKey::Rank(x), SortKey::Rank(y)) => if *x < *y {
            -1
        } else if *x > *y {
            1
        } else {
            0
        },
        (SortKey::RankText(r, x), SortKey::RankText(s, y)) => if *r < *s {
            -1
        } else if *r > *s {
            1
        } else {
            lex_sign_exec(x, y)
        },
        (SortKey::TextText(x1, x2), SortKey::TextText(y1, y2)) => {
            let first = lex_sign_exec(x1, y1);
            proof {
                lemma_lex_sign(x1@, y1@);
            }
            if first != 0 {
                first
            } else {
                lex_sign_exec(x2, y2)
            }
        },
        _ => 0,
    }
}

fn time_sign_exec(a: Option<UtcTime>, b: Option<UtcTime>) -> (r: i8)
    ensures
        r == time_sign(a, b),
{
    match (a, b) {
        (None, None) => 0,
        (None, Some(_)) => -1,
        (Some(_), None) => 1,
        (Some(x), Some(y)) => if x.secs < y.secs || (x.secs == y.secs && x.nanos < y.nanos) {
            -1
        } else if y.secs < x.secs || (y.secs == x.secs && y.nanos < x.nanos) {
            1
        } else {
            0
        },
    }
}

/// Lexicographic comparison of two texts by code point.
pub fn lex_sign_exec(a: &Vec<char>, b: &Vec<char>) -> (r: i8)
    ensures
        r == lex_sign(a@, b@),
{
    let mut i: usize = 0;
    proof {
        lemma_skip_zero(a@);
        lemma_skip_zero(b@);
    }
    while i < a.len() && i < b.len()
        invariant
            i <= a@.len(),
            i <= b@.len(),
            lex_sign(a@, b@) == lex_sign(a@.skip(i as int), b@.skip(i as int)),
        decreases a@.len() - i,
    {
        let x = a[i];
        let y = b[i];
        assert(a@.skip(i as int)[0] == x);
        assert(b@.skip(i as int)[0] == y);
        if x < y {
            return -1;
        }
        if x > y {
            return 1;
        }
        assert(a@.skip(i as int).drop_first() =~= a@.skip(i + 1));
        assert(b@.skip(i as int).drop_first() =~= b@.skip(i + 1));
        i += 1;
    }
    if i == a.len() && i == b.len() {
        0
    } else if i == a.len() {
        -1
    } else {
        1
    }
}

/// Whether row `x` comes before row `y` (see `before`).
pub fn comes_before(keys: &Vec<SortKey>, desc: bool, x: usize, y: usize) -> (r: bool)
    requires
        x < keys@.len(),
        y < keys@.len(),
    ensures
        r == before(keys@, desc, x as int, y as int),
{
    let s: i16 = key_sign_exec(&keys[x], &keys[y]) as i16;
    let d: i16 = if desc {
        -s
    } else {
        s
    };
    d < 0 || (d == 0 && x < y)
}

proof fn lemma_skip_zero<A>(s: Seq<A>)
    ensures
        s.skip(0) == s,
{
    assert(s.skip(0) =~= s);
}

/// Orders the rows `idx` (ascending, as the filter left them) by their keys in the chosen
/// direction. The sort is stable: rows whose keys compare equal keep their order.
pub fn sort_rows(idx: Vec<usize>, keys: &Vec<SortKey>, desc: bool) -> (out: Vec<usize>)
    requires
        one_shape(keys@),
        forall|i: int| 0 <= i < idx@.len() ==> (#[trigger] idx@[i]) < keys@.len(),
        forall|i: int, j: int| 0 <= i < j < idx@.len() ==> #[trigger] idx@[i] < #[trigger] idx@[j],
    ensures
        out@.len() == idx@.len(),
        forall|x: usize| #[trigger] out@.contains(x) <==> idx@.contains(x),
        sorted_by(keys@, desc, out@),
{
    let mut out: Vec<usize> = Vec::new();
    let mut k: usize = 0;
    while k < idx.len()
        invariant
            one_shape(keys@),
            forall|i: int| 0 <= i < idx@.len() ==> (#[trigger] idx@[i]) < keys@.len(),
            forall|i: int, j: int| 0 <= i < j < idx@.len() ==> #[trigger] idx@[i] < #[trigger] idx@[j],
            k <= idx@.len(),
            out@.len() == k,
            forall|x: usize| #[trigger] out@.contains(x) <==> idx@.take(k as int).contains(x),
            sorted_by(keys@, desc, out@),
        decreases idx@.len() - k,
    {
        let n = idx[k];
        assert forall|q: int| 0 <= q < out@.len() implies (#[trigger] out@[q]) < n && out@[q] < keys@.len() by {
            assert(out@.contains(out@[q]));
            let w = choose|w: int| 0 <= w < k && #[trigger] idx@.take(k as int)[w] == out@[q];
            assert(idx@[w] == out@[q]);
        }
        let mut p: usize = out.len();
        while p > 0 && !comes_before(keys, desc, out[p - 1], n)
            invariant
                one_shape(keys@),
                p <= out@.len(),
                n < keys@.len(),
                forall|q: int| 0 <= q < out@.len() ==> (#[trigger] out@[q]) < n && out@[q] < keys@.len(),
                forall|q: int| p <= q < out@.len() ==> !before(keys@, desc, #[trigger] out@[q] as int, n as int),
            decreases p,
        {
            p -= 1;
        }
        proof {
            assert forall|q: int| 0 <= q < p implies before(keys@, desc, #[trigger] out@[q] as int, n as int) by {
                if q < p - 1 {
                    lemma_before_trans(keys@, desc, out@[q] as int, out@[p - 1] as int, n as int);
                }
            }
            assert forall|q: int| p <= q < out@.len() implies before(keys@, desc, n as int, #[trigger] out@[q] as int) by {
                lemma_before_total(keys@, desc, n as int, out@[q] as int);
            }
        }
        let ghost old_out = out@;
        out.insert(p, n);
        proof {
            assert forall|i: int, j: int| 0 <= i < j < out@.len() implies before(keys@, desc, #[trigger] out@[i] as int, #[trigger] out@[j] as int) by {
                if j < p {
                    assert(out@[i] == old_out[i] && out@[j] == old_out[j]);
                } else if j == p {
                    assert(out@[i] == old_out[i]);
                } else if i == p {
                    assert(out@[j] == old_out[j - 1]);
                } else if i < p {
                    assert(out@[i] == old_out[i] && out@[j] == old_out[j - 1]);
                } else {
                    assert(out@[i] == old_out[i - 1] && out@[j] == old_out[j - 1]);
                }
            }
            assert(idx@.take(k + 1) =~= idx@.take(k as int).push(n));
            assert forall|x: usize| #[trigger] out@.contains(x) <==> idx@.take(k + 1).contains(x) by {
                if out@.contains(x) {
                    let w = choose|w: int| 0 <= w < out@.len() && #[trigger] out@[w] == x;
                    if w < p {
                        assert(old_out[w] == x);
                        assert(old_out.contains(x));
                    } else if w > p {
                        assert(old_out[w - 1] == x);
                        assert(old_out.contains(x));
                    }
                    if x != n {
                        let v = choose|v: int| 0 <= v < k && #[trigger] idx@.take(k as int)[v] == x;
                        assert(idx@.take(k as int).push(n)[v] == x);
                    } else {
                        assert(idx@.take(k as int).push(n)[k as int] == x);
                    }
                }
                if idx@.take(k + 1).contains(x) {
                    let w = choose|w: int| 0 <= w < k + 1 && #[trigger] idx@.take(k + 1)[w] == x;
                    if w == k {
                        assert(out@[p as int] == x);
                    } else {
                        assert(idx@.take(k as int)[w] == x);
                        assert(old_out.contains(x));
                        let v = choose|v: int| 0 <= v < old_out.len() && #[trigger] old_out[v] == x;
                        if v < p {
                            assert(out@[v] == x);
                        } else {
                            assert(out@[v + 1] == x);
                        }
                    }
                }
            }
        }
        k += 1;
    }
    assert(idx@.take(k as int) =~= idx@);
    out
}

} // verus!
