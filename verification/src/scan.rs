//! Scanning primitives over characters: runs of a character class at either end,
//! non-overlapping occurrences (`str::match_indices`), and UTF-8 widths.
use vstd::prelude::*;

use crate::text::{is_ascii_digit, is_ws, occurs_at, occurs_at_exec};

verus! {

/// The character classes the log scanners skip over.
#[derive(Clone, Copy, PartialEq, Eq, Structural)]
pub enum CharClass {
    /// `:` or ` `.
    ColonSpace,
    /// `:`, `=` or ` `.
    ColonEqSpace,
    /// An ASCII digit.
    Digit,
    /// Unicode whitespace.
    Space,
}

pub open spec fn in_class(cls: CharClass, c: char) -> bool {
    match cls {
        CharClass::ColonSpace => c == ':' || c == ' ',
        CharClass::ColonEqSpace => c == ':' || c == '=' || c == ' ',
        CharClass::Digit => is_ascii_digit(c),
        CharClass::Space => is_ws(c),
    }
}

pub fn in_class_exec(cls: CharClass, c: char) -> (r: bool)
    ensures
        r == in_class(cls, c),
{
    match cls {
        CharClass::ColonSpace => c == ':' || c == ' ',
        CharClass::ColonEqSpace => c == ':' || c == '=' || c == ' ',
        CharClass::Digit => {
            let u = c as u32;
            48 <= u && u <= 57
        },
        CharClass::Space => crate::text::is_whitespace(c),
    }
}

/// How many leading characters of `s` belong to `cls`.
pub open spec fn lead_len(s: Seq<char>, cls: CharClass) -> int
    decreases s.len(),
{
    if s.len() == 0 || !in_class(cls, s[0]) {
        0
    } else {
        1 + lead_len(s.drop_first(), cls)
    }
}

/// How many trailing characters of `s` belong to `cls`.
pub open spec fn trail_len(s: Seq<char>, cls: CharClass) -> int
    decreases s.len(),
{
    if s.len() == 0 || !in_class(cls, s.last()) {
        0
    } else {
        1 + trail_len(s.drop_last(), cls)
    }
}

pub proof fn lemma_lead_len_bounds(s: Seq<char>, cls: CharClass)
    ensures
        0 <= lead_len(s, cls) <= s.len(),
    decreases s.len(),
{
    if s.len() > 0 && in_class(cls, s[0]) {
        lemma_lead_len_bounds(s.drop_first(), cls);
    }
}

pub proof fn lemma_trail_len_bounds(s: Seq<char>, cls: CharClass)
    ensures
        0 <= trail_len(s, cls) <= s.len(),
    decreases s.len(),
{
    if s.len() > 0 && in_class(cls, s.last()) {
        lemma_trail_len_bounds(s.drop_last(), cls);
    }
}

/// `s` without its leading run of `cls` (`trim_start_matches`).
pub open spec fn trim_lead(s: Seq<char>, cls: CharClass) -> Seq<char> {
    s.skip(lead_len(s, cls))
}

/// `s` without its trailing run of `cls` (`trim_end_matches`).
pub open spec fn trim_trail(s: Seq<char>, cls: CharClass) -> Seq<char> {
    s.take(s.len() - trail_len(s, cls))
}

/// `s`'s leading run of `cls`.
pub open spec fn lead_run(s: Seq<char>, cls: CharClass) -> Seq<char> {
    s.take(lead_len(s, cls))
}

/// The length of the leading run of `cls` in `s`.
pub fn lead_len_exec(s: &[char], cls: CharClass) -> (n: usize)
    ensures
        n as int == lead_len(s@, cls),
{
    let mut i: usize = 0;
    assert(s@.skip(0) =~= s@);
    while i < s.len() && in_class_exec(cls, s[i])
        invariant
            i <= s.len(),
            lead_len(s@, cls) == i + lead_len(s@.skip(i as int), cls),
        decreases s.len() - i,
    {
        assert(s@.skip(i as int).drop_first() =~= s@.skip(i + 1));
        i += 1;
    }
    if i < s.len() {
        assert(s@.skip(i as int)[0] == s@[i as int]);
    } else {
        assert(s@.skip(i as int).len() == 0);
    }
    i
}

/// The length of the trailing run of `cls` in `s`.
pub fn trail_len_exec(s: &[char], cls: CharClass) -> (n: usize)
    ensures
        n as int == trail_len(s@, cls),
{
    let mut k: usize = 0;
    assert(s@.take(s.len() as int) =~= s@);
    while k < s.len() && in_class_exec(cls, s[s.len() - 1 - k])
        invariant
            k <= s.len(),
            trail_len(s@, cls) == k + trail_len(s@.take(s.len() - k), cls),
        decreases s.len() - k,
    {
        assert(s@.take(s.len() - k).drop_last() =~= s@.take(s.len() - k - 1));
        k += 1;
    }
    if k < s.len() {
        assert(s@.take(s.len() - k).last() == s@[s.len() - 1 - k]);
    } else {
        assert(s@.take(s.len() - k).len() == 0);
    }
    k
}

/// The starts of the non-overlapping occurrences of `q` in `hay` at or after `start`,
/// found left to right as `str::match_indices` finds them.
pub open spec fn occurrences(hay: Seq<char>, q: Seq<char>, start: int) -> Seq<int>
    decreases hay.len() - start,
{
    if q.len() == 0 || start < 0 || start + q.len() > hay.len() {
        seq![]
    } else if occurs_at(hay, q, start) {
        seq![start] + occurrences(hay, q, start + q.len())
    } else {
        occurrences(hay, q, start + 1)
    }
}

pub proof fn lemma_occurrences_valid(hay: Seq<char>, q: Seq<char>, start: int)
    ensures
        forall|k: int|
            0 <= k < occurrences(hay, q, start).len() ==> start <= #[trigger] occurrences(
                hay,
                q,
                start,
            )[k] && occurs_at(hay, q, occurrences(hay, q, start)[k]),
    decreases hay.len() - start,
{
    if q.len() == 0 || start < 0 || start + q.len() > hay.len() {
    } else if occurs_at(hay, q, start) {
        lemma_occurrences_valid(hay, q, start + q.len());
        let rest = occurrences(hay, q, start + q.len());
        assert forall|k: int| 0 <= k < occurrences(hay, q, start).len() implies start
            <= #[trigger] occurrences(hay, q, start)[k] && occurs_at(
            hay,
            q,
            occurrences(hay, q, start)[k],
        ) by {
            if k > 0 {
                assert(occurrences(hay, q, start)[k] == rest[k - 1]);
            }
        }
    } else {
        lemma_occurrences_valid(hay, q, start + 1);
        assert(occurrences(hay, q, start) == occurrences(hay, q, start + 1));
    }
}

pub open spec fn as_ints(v: Seq<usize>) -> Seq<int> {
    v.map_values(|x: usize| x as int)
}

/// The non-overlapping occurrences of `q` in `hay`, left to right.
pub fn occurrence_starts(hay: &[char], q: &[char]) -> (r: Vec<usize>)
    ensures
        as_ints(r@) == occurrences(hay@, q@, 0),
        forall|k: int| 0 <= k < r@.len() ==> r@[k] + q@.len() <= hay@.len(),
{
    let mut out: Vec<usize> = Vec::new();
    if q.len() == 0 || q.len() > hay.len() {
        return out;
    }
    let mut pos: usize = 0;
    while pos <= hay.len() - q.len()
        invariant
            0 < q.len() <= hay.len(),
            pos <= hay.len(),
            as_ints(out@) + occurrences(hay@, q@, pos as int) == occurrences(hay@, q@, 0),
            forall|k: int| 0 <= k < out@.len() ==> out@[k] + q@.len() <= hay@.len(),
        decreases hay.len() - pos,
    {
        if occurs_at_exec(hay, q, pos) {
            let ghost before = as_ints(out@);
            out.push(pos);
            assert(as_ints(out@) =~= before + seq![pos as int]);
            assert(occurrences(hay@, q@, pos as int) == seq![pos as int] + occurrences(
                hay@,
                q@,
                pos + q.len(),
            ));
            assert(before + occurrences(hay@, q@, pos as int) =~= as_ints(out@) + occurrences(
                hay@,
                q@,
                pos + q.len(),
            ));
            pos = pos + q.len();
        } else {
            pos = pos + 1;
        }
    }
    assert(occurrences(hay@, q@, pos as int) =~= seq![]);
    assert(as_ints(out@) =~= occurrences(hay@, q@, 0));
    out
}

/// The number of bytes UTF-8 spends on `c`.
pub open spec fn utf8_width(c: char) -> int {
    let u = c as u32;
    if u < 0x80 {
        1
    } else if u < 0x800 {
        2
    } else if u < 0x10000 {
        3
    } else {
        4
    }
}

/// The number of bytes UTF-8 spends on `s`.
pub open spec fn utf8_len(s: Seq<char>) -> int
    decreases s.len(),
{
    if s.len() == 0 {
        0
    } else {
        utf8_len(s.drop_last()) + utf8_width(s.last())
    }
}

pub fn utf8_width_exec(c: char) -> (w: usize)
    ensures
        w as int == utf8_width(c),
{
    let u = c as u32;
    if u < 0x80 {
        1
    } else if u < 0x800 {
        2
    } else if u < 0x10000 {
        3
    } else {
        4
    }
}

} // verus!
