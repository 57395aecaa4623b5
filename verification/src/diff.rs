//! Unified-diff position helpers: mapping a patch line index to a real file line
//! and side, for the line cursor label, comment targets, and pending markers.
use std::collections::HashSet;
use vstd::prelude::*;

use crate::text::{
    chars_of, dec_int, lines_of, parse_i64, parse_i64_spec, push_i64, push_str, split_lines, split_ws,
    all_digits, dec_nat, digit_char, digits_value, is_ascii_digit, is_ws, lemma_ws_split_nonempty,
    starts_with, starts_with_exec, views, ws_split,
};

verus! {

broadcast use vstd::std_specs::hash::group_hash_axioms;

/// Which side of a diff a line belongs to.
#[derive(Debug, Clone, Copy, PartialEq, Eq, Structural, Hash)]
pub enum DiffSide {
    Old,
    New,
}

/// A review comment anchored to a file line, buffered until the review is submitted.
#[derive(Debug, Clone)]
pub struct LineComment {
    pub path: String,
    pub line: i64,
    pub side: DiffSide,
    pub body: String,
}

// ---------------------------------------------------------------------------
// Hunk headers
// ---------------------------------------------------------------------------

/// Position of the first `,` in `r` (its length when there is none).
pub open spec fn comma_index(r: Seq<char>) -> int
    decreases r.len(),
{
    if r.len() == 0 {
        0
    } else if r[0] == ',' {
        0
    } else {
        1 + comma_index(r.drop_first())
    }
}

/// What `r.split(',').next()` yields: everything before the first `,`.
pub open spec fn before_comma(r: Seq<char>) -> Seq<char> {
    r.take(comma_index(r))
}

pub proof fn lemma_comma_index_bounds(r: Seq<char>)
    ensures
        0 <= comma_index(r) <= r.len(),
        comma_index(r) < r.len() ==> r[comma_index(r)] == ',',
        forall|j: int| 0 <= j < comma_index(r) ==> r[j] != ',',
    decreases r.len(),
{
    if r.len() > 0 && r[0] != ',' {
        lemma_comma_index_bounds(r.drop_first());
        assert forall|j: int| 0 <= j < comma_index(r) implies r[j] != ',' by {
            if j > 0 {
                assert(r[j] == r.drop_first()[j - 1]);
            }
        }
    }
}

/// The start line a `-old,n` / `+new,n` token names, as the header parser reads it.
pub open spec fn token_start(t: Seq<char>) -> Option<i64> {
    parse_i64_spec(before_comma(t.drop_first()))
}

pub open spec fn hunk_marker() -> Seq<char> {
    seq!['@', '@']
}

/// Whether token `t` starts with `sign`.
pub open spec fn signed(t: Seq<char>, sign: char) -> bool {
    t.len() > 0 && t[0] == sign
}

/// The position of the first `@@` token at or after `k` (the token count when none): the
/// header's closing marker, when looked for from just past the opening one.
pub open spec fn close_index(toks: Seq<Seq<char>>, k: int) -> int
    decreases toks.len() - k,
{
    if k >= toks.len() {
        toks.len() as int
    } else if toks[k] == hunk_marker() {
        k
    } else {
        close_index(toks, k + 1)
    }
}

/// The position of the last token in `[k, hi)` starting with `sign`, or -1.
pub open spec fn last_signed(toks: Seq<Seq<char>>, k: int, hi: int, sign: char) -> int
    decreases hi - k,
{
    if k >= hi {
        -1
    } else if signed(toks[hi - 1], sign) {
        hi - 1
    } else {
        last_signed(toks, k, hi - 1, sign)
    }
}

/// The start the header's `sign` range names: the last token after the opening `@@`,
/// and before the closing one, that starts with `sign` (a later range of one sign
/// overrides an earlier one, as the header is read left to right).
pub open spec fn range_start(toks: Seq<Seq<char>>, sign: char) -> Option<i64> {
    let j = last_signed(toks, 1, close_index(toks, 1), sign);
    if j < 0 {
        None
    } else {
        token_start(toks[j])
    }
}

/// A `@@ -old,n +new,n @@` header's `(old_start, new_start)`: the starts of its own
/// `-` and `+` ranges, read between the two `@@` markers (the context text after the
/// closing marker is not read).
pub open spec fn hunk_header_spec(line: Seq<char>) -> Option<(i64, i64)> {
    if !starts_with(line, hunk_marker()) {
        None
    } else {
        let toks = ws_split(line);
        match (range_start(toks, '-'), range_start(toks, '+')) {
            (Some(o), Some(n)) => Some((o, n)),
            _ => None,
        }
    }
}

pub proof fn lemma_close_index_bounds(toks: Seq<Seq<char>>, k: int)
    requires
        0 <= k,
    ensures
        k <= close_index(toks, k) || close_index(toks, k) == toks.len(),
        close_index(toks, k) <= toks.len(),
    decreases toks.len() - k,
{
    if k < toks.len() && toks[k] != hunk_marker() {
        lemma_close_index_bounds(toks, k + 1);
    }
}

pub proof fn lemma_last_signed_bounds(toks: Seq<Seq<char>>, k: int, hi: int, sign: char)
    ensures
        last_signed(toks, k, hi, sign) == -1 || (k <= last_signed(toks, k, hi, sign) < hi && signed(
            toks[last_signed(toks, k, hi, sign)],
            sign,
        )),
    decreases hi - k,
{
    if k < hi && !signed(toks[hi - 1], sign) {
        lemma_last_signed_bounds(toks, k, hi - 1, sign);
    }
}

/// A line starting with a non-space character has at least one token.
pub proof fn lemma_ws_split_nonempty_start(s: Seq<char>)
    requires
        s.len() > 0,
        !is_ws(s[0]),
    ensures
        ws_split(s).len() >= 1,
    decreases s.len(),
{
    if s.len() > 1 {
        assert(s.drop_last()[0] == s[0]);
        lemma_ws_split_nonempty_start(s.drop_last());
    }
}

fn is_marker(t: &Vec<char>) -> (r: bool)
    ensures
        r == (t@ == hunk_marker()),
{
    if t.len() == 2 && t[0] == '@' && t[1] == '@' {
        assert(t@ =~= hunk_marker());
        true
    } else {
        false
    }
}

fn before_comma_exec(r: &[char]) -> (h: Vec<char>)
    ensures
        h@ == before_comma(r@),
{
    proof {
        lemma_comma_index_bounds(r@);
    }
    let mut h: Vec<char> = Vec::new();
    let mut i: usize = 0;
    while i < r.len() && r[i] != ','
        invariant
            0 <= comma_index(r@) <= r@.len(),
            comma_index(r@) < r@.len() ==> r@[comma_index(r@)] == ',',
            forall|j: int| 0 <= j < comma_index(r@) ==> r@[j] != ',',
            i <= comma_index(r@),
            h@ == r@.take(i as int),
        decreases r.len() - i,
    {
        h.push(r[i]);
        i += 1;
        assert(h@ =~= r@.take(i as int));
    }
    h
}

fn token_start_exec(t: &[char]) -> (r: Option<i64>)
    requires
        t@.len() > 0,
    ensures
        r == token_start(t@),
{
    let mut rest: Vec<char> = Vec::new();
    let mut i: usize = 1;
    while i < t.len()
        invariant
            1 <= i <= t.len(),
            rest@ == t@.subrange(1, i as int),
        decreases t.len() - i,
    {
        rest.push(t[i]);
        i += 1;
        assert(rest@ =~= t@.subrange(1, i as int));
    }
    assert(rest@ =~= t@.drop_first());
    let head = before_comma_exec(rest.as_slice());
    parse_i64(head.as_slice())
}

fn range_start_exec(toks: &Vec<Vec<char>>, hi: usize, sign: char) -> (r: Option<i64>)
    requires
        1 <= hi <= toks@.len(),
    ensures
        ({
            let j = last_signed(views(toks@), 1, hi as int, sign);
            r == if j < 0 {
                None
            } else {
                token_start(views(toks@)[j])
            }
        }),
{
    let ghost ts = views(toks@);
    let mut i: usize = hi;
    while i > 1
        invariant
            1 <= i <= hi,
            hi <= toks@.len(),
            ts == views(toks@),
            last_signed(ts, 1, hi as int, sign) == last_signed(ts, 1, i as int, sign),
        decreases i,
    {
        assert(toks[i - 1]@ == ts[i - 1]);
        if toks[i - 1].len() > 0 && toks[i - 1][0] == sign {
            return token_start_exec(toks[i - 1].as_slice());
        }
        i -= 1;
    }
    None
}

fn hunk_header_chars(line: &[char]) -> (r: Option<(i64, i64)>)
    ensures
        r == hunk_header_spec(line@),
{
    let marker = ['@', '@'];
    assert(marker@ =~= hunk_marker());
    if !starts_with_exec(line, &marker) {
        return None;
    }
    let toks = split_ws(line);
    let ghost ts = ws_split(line@);
    proof {
        assert(line@[0] == line@.take(2)[0]);
        lemma_ws_split_nonempty_start(line@);
    }
    let mut close: usize = 1;
    while close < toks.len() && !is_marker(&toks[close])
        invariant
            1 <= close <= toks@.len(),
            views(toks@) == ts,
            close_index(ts, 1) == close_index(ts, close as int),
        decreases toks.len() - close,
    {
        assert(toks[close as int]@ == ts[close as int]);
        close += 1;
    }
    proof {
        if close < toks@.len() {
            assert(toks[close as int]@ == ts[close as int]);
        }
    }
    let o = range_start_exec(&toks, close, '-');
    let n = range_start_exec(&toks, close, '+');
    match (o, n) {
        (Some(o), Some(n)) => Some((o, n)),
        _ => None,
    }
}

/// Parses a `@@ -old,n +new,n @@` hunk header into (old_start, new_start).
pub fn parse_hunk_header(line: &str) -> (r: Option<(i64, i64)>)
    ensures
        r == hunk_header_spec(line@),
{
    let v = chars_of(line);
    hunk_header_chars(v.as_slice())
}

// ---------------------------------------------------------------------------
// Patch line → file line
// ---------------------------------------------------------------------------

pub open spec fn file_marker_new() -> Seq<char> {
    seq!['+', '+', '+']
}

pub open spec fn file_marker_old() -> Seq<char> {
    seq!['-', '-', '-']
}

/// A line outside any hunk body: before the first hunk header (`seen` false), or a file
/// header.
pub open spec fn outside_hunk(line: Seq<char>, seen: bool) -> bool {
    !seen || starts_with(line, file_marker_new()) || starts_with(line, file_marker_old())
}

/// The `(old, new)` line counters, and whether a hunk header has been read, after
/// reading `line` with state `st`.
pub open spec fn walk_step(line: Seq<char>, st: (int, int, bool)) -> (int, int, bool) {
    match hunk_header_spec(line) {
        Some((o, n)) => (o as int, n as int, true),
        None => if outside_hunk(line, st.2) {
            st
        } else if line.len() > 0 && line[0] == '+' {
            (st.0, st.1 + 1, st.2)
        } else if line.len() > 0 && line[0] == '-' {
            (st.0 + 1, st.1, st.2)
        } else {
            (st.0 + 1, st.1 + 1, st.2)
        },
    }
}

/// The walk state before patch line `k`.
pub open spec fn walk(lines: Seq<Seq<char>>, k: int) -> (int, int, bool)
    decreases k,
{
    if k <= 0 {
        (0, 0, false)
    } else {
        walk_step(lines[k - 1], walk(lines, k - 1))
    }
}

/// Where `line`, read with state `st`, lands in the file: a hunk header or a line
/// outside any hunk is no file line.
pub open spec fn line_target(line: Seq<char>, st: (int, int, bool)) -> Option<(int, DiffSide)> {
    if hunk_header_spec(line) is Some || outside_hunk(line, st.2) {
        None
    } else if line.len() > 0 && line[0] == '+' {
        Some((st.1, DiffSide::New))
    } else if line.len() > 0 && line[0] == '-' {
        Some((st.0, DiffSide::Old))
    } else {
        Some((st.1, DiffSide::New))
    }
}

/// The file line and side that patch line `cursor` of `lines` maps to.
pub open spec fn target_spec(lines: Seq<Seq<char>>, cursor: int) -> Option<(i64, DiffSide)> {
    if 0 <= cursor < lines.len() {
        match line_target(lines[cursor], walk(lines, cursor)) {
            Some((l, side)) => Some((l as i64, side)),
            None => None,
        }
    } else {
        None
    }
}

pub open spec fn fits_i64(st: (int, int, bool)) -> bool {
    i64::MIN <= st.0 <= i64::MAX && i64::MIN <= st.1 <= i64::MAX
}

/// Reading `lines` up to (and including) patch line `cursor` keeps both counters in
/// `i64` range.
pub open spec fn walk_fits(lines: Seq<Seq<char>>, cursor: int) -> bool {
    forall|k: int| 0 <= k <= lines.len() && k <= cursor + 1 ==> fits_i64(#[trigger] walk(lines, k))
}

/// Reading every line of `lines` keeps both counters in `i64` range.
pub open spec fn diff_fits(lines: Seq<Seq<char>>) -> bool {
    forall|k: int| 0 <= k <= lines.len() ==> fits_i64(#[trigger] walk(lines, k))
}

/// A hunk header is never a line to comment on.
pub proof fn lemma_header_is_no_target(lines: Seq<Seq<char>>, cursor: int)
    requires
        0 <= cursor < lines.len(),
        hunk_header_spec(lines[cursor]) is Some,
    ensures
        target_spec(lines, cursor) is None,
{
}

/// The first body line after a hunk header `@@ -o +n @@` sits at the header's start: an
/// added or context line at new line `n`, a removed one at old line `o`.
pub proof fn lemma_first_line_after_header(lines: Seq<Seq<char>>, cursor: int)
    requires
        0 <= cursor,
        cursor + 1 < lines.len(),
        hunk_header_spec(lines[cursor]) is Some,
        hunk_header_spec(lines[cursor + 1]) is None,
        !starts_with(lines[cursor + 1], file_marker_new()),
        !starts_with(lines[cursor + 1], file_marker_old()),
    ensures
        ({
            let (o, n) = hunk_header_spec(lines[cursor])->0;
            let line = lines[cursor + 1];
            target_spec(lines, cursor + 1) == if line.len() > 0 && line[0] == '-' {
                Some((o, DiffSide::Old))
            } else {
                Some((n, DiffSide::New))
            }
        }),
{
    assert(walk(lines, cursor + 1) == walk_step(lines[cursor], walk(lines, cursor)));
}

/// Whether `line` is a file header (`+++ …` / `--- …`).
pub open spec fn file_header(line: Seq<char>) -> bool {
    starts_with(line, file_marker_new()) || starts_with(line, file_marker_old())
}

/// The (context, added, removed) lines among `lines[from..to)`, file headers left out.
pub open spec fn body_counts(lines: Seq<Seq<char>>, from: int, to: int) -> (int, int, int)
    decreases to - from,
{
    if to <= from {
        (0, 0, 0)
    } else {
        let (c, a, d) = body_counts(lines, from, to - 1);
        let l = lines[to - 1];
        if file_header(l) {
            (c, a, d)
        } else if l.len() > 0 && l[0] == '+' {
            (c, a + 1, d)
        } else if l.len() > 0 && l[0] == '-' {
            (c, a, d + 1)
        } else {
            (c + 1, a, d)
        }
    }
}

/// Whether any of `lines[from..to)` is a hunk header.
pub open spec fn header_among(lines: Seq<Seq<char>>, from: int, to: int) -> bool {
    exists|k: int| from <= k < to && #[trigger] hunk_header_spec(lines[k]) is Some
}

proof fn lemma_walk_counts(lines: Seq<Seq<char>>, h: int, k: int)
    requires
        0 <= h < k <= lines.len(),
        hunk_header_spec(lines[h]) is Some,
        !header_among(lines, h + 1, k),
    ensures
        ({
            let (o, n) = hunk_header_spec(lines[h])->0;
            let (c, a, d) = body_counts(lines, h + 1, k);
            walk(lines, k) == (o + c + d, n + c + a, true)
        }),
    decreases k - h,
{
    if k > h + 1 {
        assert(!header_among(lines, h + 1, k - 1)) by {
            if header_among(lines, h + 1, k - 1) {
                let w = choose|w: int| h + 1 <= w < k - 1 && #[trigger] hunk_header_spec(lines[w]) is Some;
                assert(h + 1 <= w < k && hunk_header_spec(lines[w]) is Some);
            }
        }
        lemma_walk_counts(lines, h, k - 1);
        assert(!(h + 1 <= k - 1 < k && hunk_header_spec(lines[k - 1]) is Some));
    }
}

proof fn lemma_walk_unseen(lines: Seq<Seq<char>>, k: int)
    requires
        0 <= k <= lines.len(),
        !header_among(lines, 0, k),
    ensures
        !walk(lines, k).2,
    decreases k,
{
    if k > 0 {
        assert(!header_among(lines, 0, k - 1)) by {
            if header_among(lines, 0, k - 1) {
                let w = choose|w: int| 0 <= w < k - 1 && #[trigger] hunk_header_spec(lines[w]) is Some;
                assert(0 <= w < k && hunk_header_spec(lines[w]) is Some);
            }
        }
        lemma_walk_unseen(lines, k - 1);
        assert(!(0 <= k - 1 < k && hunk_header_spec(lines[k - 1]) is Some));
    }
}

/// The lines no comment can land on: past the end, a hunk header, a file header, or any
/// line before the first hunk header.
pub proof fn lemma_uncommentable_lines(lines: Seq<Seq<char>>, cursor: int)
    requires
        0 <= cursor,
        cursor >= lines.len() || hunk_header_spec(lines[cursor]) is Some || file_header(lines[cursor])
            || !header_among(lines, 0, cursor),
    ensures
        target_spec(lines, cursor) is None,
{
    if cursor < lines.len() && !header_among(lines, 0, cursor) {
        lemma_walk_unseen(lines, cursor);
    }
}

/// Counting from the last hunk header `@@ -o +n @@` before a body line: a removed line
/// sits at old line `o` plus the context and removed lines between, any other at new line
/// `n` plus the context and added lines between (file headers between are not counted).
pub proof fn lemma_comment_target_counts(lines: Seq<Seq<char>>, h: int, cursor: int)
    requires
        0 <= h < cursor < lines.len(),
        hunk_header_spec(lines[h]) is Some,
        !header_among(lines, h + 1, cursor),
        hunk_header_spec(lines[cursor]) is None,
        !file_header(lines[cursor]),
    ensures
        ({
            let (o, n) = hunk_header_spec(lines[h])->0;
            let (c, a, d) = body_counts(lines, h + 1, cursor);
            let l = lines[cursor];
            target_spec(lines, cursor) == if l.len() > 0 && l[0] == '-' {
                Some(((o + c + d) as i64, DiffSide::Old))
            } else {
                Some(((n + c + a) as i64, DiffSide::New))
            }
        }),
{
    lemma_walk_counts(lines, h, cursor);
}

/// The cursor label reads as its formula: `hunk @ N` for a line starting with `@@` that
/// parses as a header (nothing for one that does not), else `line N` or `line N (old)`
/// for a line a comment can land on, and nothing elsewhere.
pub proof fn lemma_cursor_label_formula(lines: Seq<Seq<char>>, cursor: int)
    ensures
        cursor_label_spec(lines, cursor) == if 0 <= cursor < lines.len() && starts_with(lines[cursor], hunk_marker()) {
            match hunk_header_spec(lines[cursor]) {
                Some((_, n)) => Some(text_hunk_at() + dec_int(n as int)),
                None => None,
            }
        } else {
            match target_spec(lines, cursor) {
                Some((l, side)) => Some(text_line() + dec_int(l as int) + if side == DiffSide::Old {
                    text_old_suffix()
                } else {
                    Seq::empty()
                }),
                None => None,
            }
        },
{
    if !(0 <= cursor < lines.len() && starts_with(lines[cursor], hunk_marker())) {
        match target_spec(lines, cursor) {
            Some((l, DiffSide::New)) => {
                assert(text_line() + dec_int(l as int) + Seq::<char>::empty() =~= text_line() + dec_int(l as int));
            },
            _ => {},
        }
    }
}

/// A line is marked only for a pending comment on its own file at its own position: with
/// no pending comment on `path`, nothing is marked.
pub proof fn lemma_no_comment_no_mark(lines: Seq<Seq<char>>, path: Seq<char>, pending: Seq<LineComment>, i: int)
    requires
        forall|k: int| 0 <= k < pending.len() ==> (#[trigger] pending[k]).path@ != path,
    ensures
        !marked(lines, path, pending, i),
{
}

/// A patch line carries a mark exactly when some pending comment on the same file sits
/// at that line's own target: the same file line and the same side (a comment on the old
/// side never marks the added line that shares its number, nor the other way round).
pub proof fn lemma_a_mark_is_a_comment_on_that_line_and_side(
    lines: Seq<Seq<char>>,
    path: Seq<char>,
    pending: Seq<LineComment>,
    i: int,
)
    ensures
        marked(lines, path, pending, i) <==> (0 <= i < lines.len() && exists|k: int|
            0 <= k < pending.len() && (#[trigger] pending[k]).path@ == path && target_spec(lines, i) == Some(
                (pending[k].line, pending[k].side),
            )),
{
    if marked(lines, path, pending, i) {
        let t = target_spec(lines, i)->0;
        let k = choose|k: int| 0 <= k < pending.len() && comment_hits(#[trigger] pending[k], path, t);
        assert(pending[k].path@ == path && target_spec(lines, i) == Some((pending[k].line, pending[k].side)));
    }
    if 0 <= i < lines.len() && exists|k: int|
        0 <= k < pending.len() && (#[trigger] pending[k]).path@ == path && target_spec(lines, i) == Some(
            (pending[k].line, pending[k].side),
        ) {
        let k = choose|k: int|
            0 <= k < pending.len() && (#[trigger] pending[k]).path@ == path && target_spec(lines, i) == Some(
                (pending[k].line, pending[k].side),
            );
        let t = target_spec(lines, i)->0;
        assert(comment_hits(pending[k], path, t));
    }
}

fn target_in_lines(lines: &Vec<Vec<char>>, cursor: usize) -> (r: Option<(i64, DiffSide)>)
    requires
        walk_fits(views(lines@), cursor as int),
    ensures
        r == target_spec(views(lines@), cursor as int),
{
    let ghost ls = views(lines@);
    let mut old_ln: i64 = 0;
    let mut new_ln: i64 = 0;
    let mut seen = false;
    let mut i: usize = 0;
    while i < lines.len()
        invariant
            ls == views(lines@),
            walk_fits(ls, cursor as int),
            i <= lines.len(),
            i <= cursor,
            (old_ln as int, new_ln as int, seen) == walk(ls, i as int),
        decreases lines.len() - i,
    {
        let line = &lines[i];
        assert(line@ == ls[i as int]);
        assert(fits_i64(walk(ls, i + 1)));
        let hdr = hunk_header_chars(line.as_slice());
        if let Some((o, n)) = hdr {
            old_ln = o;
            new_ln = n;
            seen = true;
            if i == cursor {
                return None;
            }
            i += 1;
            continue;
        }
        let plus3 = ['+', '+', '+'];
        let minus3 = ['-', '-', '-'];
        assert(plus3@ =~= file_marker_new());
        assert(minus3@ =~= file_marker_old());
        if !seen || starts_with_exec(line.as_slice(), &plus3) || starts_with_exec(
            line.as_slice(),
            &minus3,
        ) {
            if i == cursor {
                return None;
            }
            i += 1;
            continue;
        }
        let (side, ln) = if line.len() > 0 && line[0] == '+' {
            let l = new_ln;
            new_ln += 1;
            (DiffSide::New, l)
        } else if line.len() > 0 && line[0] == '-' {
            let l = old_ln;
            old_ln += 1;
            (DiffSide::Old, l)
        } else {
            let l = new_ln;
            old_ln += 1;
            new_ln += 1;
            (DiffSide::New, l)
        };
        if i == cursor {
            return Some((ln, side));
        }
        i += 1;
    }
    None
}

/// The file line + side that patch line `cursor` maps to, or `None` if it isn't a
/// commentable code line (a hunk/file header, or before the first hunk).
pub fn comment_target(patch: &str, cursor: usize) -> (r: Option<(i64, DiffSide)>)
    requires
        walk_fits(lines_of(patch@), cursor as int),
    ensures
        r == target_spec(lines_of(patch@), cursor as int),
{
    let v = chars_of(patch);
    let lines = split_lines(v.as_slice());
    target_in_lines(&lines, cursor)
}

// ---------------------------------------------------------------------------
// Labels and markers
// ---------------------------------------------------------------------------

pub open spec fn text_hunk_at() -> Seq<char> {
    seq!['h', 'u', 'n', 'k', ' ', '@', ' ']
}

pub open spec fn text_line() -> Seq<char> {
    seq!['l', 'i', 'n', 'e', ' ']
}

pub open spec fn text_old_suffix() -> Seq<char> {
    seq![' ', '(', 'o', 'l', 'd', ')']
}

/// The label of patch line `cursor`: `hunk @ N` on a hunk header, `line N` on a new or
/// context line, `line N (old)` on a removed line, nothing elsewhere.
pub open spec fn cursor_label_spec(lines: Seq<Seq<char>>, cursor: int) -> Option<Seq<char>> {
    if 0 <= cursor < lines.len() && starts_with(lines[cursor], hunk_marker()) {
        match hunk_header_spec(lines[cursor]) {
            Some((_, n)) => Some(text_hunk_at() + dec_int(n as int)),
            None => None,
        }
    } else {
        match target_spec(lines, cursor) {
            Some((l, DiffSide::New)) => Some(text_line() + dec_int(l as int)),
            Some((l, DiffSide::Old)) => Some(text_line() + dec_int(l as int) + text_old_suffix()),
            None => None,
        }
    }
}

/// Human label for the file position of patch line `cursor` (e.g. `line 42`).
pub fn cursor_line_label(patch: &str, cursor: usize) -> (r: Option<String>)
    requires
        walk_fits(lines_of(patch@), cursor as int),
    ensures
        r matches Some(s) ==> cursor_label_spec(lines_of(patch@), cursor as int) == Some(s@),
        r is None ==> cursor_label_spec(lines_of(patch@), cursor as int) is None,
{
    let v = chars_of(patch);
    let lines = split_lines(v.as_slice());
    let ghost ls = views(lines@);
    let marker = ['@', '@'];
    assert(marker@ =~= hunk_marker());
    if cursor < lines.len() && starts_with_exec(lines[cursor].as_slice(), &marker) {
        assert(lines[cursor as int]@ == ls[cursor as int]);
        return match hunk_header_chars(lines[cursor].as_slice()) {
            Some((_, n)) => {
                let mut s = String::new();
                push_str(&mut s, "hunk @ ");
                proof {
                    reveal_strlit("hunk @ ");
                }
                push_i64(&mut s, n);
                assert(s@ =~= text_hunk_at() + dec_int(n as int));
                Some(s)
            },
            None => None,
        };
    }
    match target_in_lines(&lines, cursor) {
        Some((l, DiffSide::New)) => {
            let mut s = String::new();
            push_str(&mut s, "line ");
            proof {
                reveal_strlit("line ");
            }
            push_i64(&mut s, l);
            assert(s@ =~= text_line() + dec_int(l as int));
            Some(s)
        },
        Some((l, DiffSide::Old)) => {
            let mut s = String::new();
            push_str(&mut s, "line ");
            proof {
                reveal_strlit("line ");
            }
            push_i64(&mut s, l);
            push_str(&mut s, " (old)");
            proof {
                reveal_strlit(" (old)");
            }
            assert(s@ =~= text_line() + dec_int(l as int) + text_old_suffix());
            Some(s)
        },
        None => None,
    }
}

/// Whether `c` is a pending comment on `path` at the file position `t`.
pub open spec fn comment_hits(c: LineComment, path: Seq<char>, t: (i64, DiffSide)) -> bool {
    c.path@ == path && c.line == t.0 && c.side == t.1
}

/// Whether patch line `i` maps to a file position some comment on `path` is anchored at.
pub open spec fn marked(lines: Seq<Seq<char>>, path: Seq<char>, pending: Seq<LineComment>, i: int) -> bool {
    0 <= i < lines.len() && match target_spec(lines, i) {
        Some(t) => exists|k: int| 0 <= k < pending.len() && comment_hits(#[trigger] pending[k], path, t),
        None => false,
    }
}

fn chars_equal(a: &[char], b: &[char]) -> (r: bool)
    ensures
        r == (a@ == b@),
{
    if a.len() != b.len() {
        return false;
    }
    let mut i: usize = 0;
    while i < a.len()
        invariant
            a.len() == b.len(),
            i <= a.len(),
            forall|j: int| 0 <= j < i ==> a@[j] == b@[j],
        decreases a.len() - i,
    {
        if a[i] != b[i] {
            return false;
        }
        i += 1;
    }
    assert(a@ =~= b@);
    true
}

/// Patch line indices (for file `path`) that have a pending comment.
pub fn pending_marks(patch: &str, path: &str, pending: &[LineComment]) -> (marks: HashSet<usize>)
    requires
        diff_fits(lines_of(patch@)),
    ensures
        forall|i: usize| #[trigger] marks@.contains(i) <==> marked(lines_of(patch@), path@, pending@, i as int),
        forall|i: usize| #[trigger] marks@.contains(i) <==> (i < lines_of(patch@).len() && exists|k: int|
            0 <= k < pending@.len() && (#[trigger] pending@[k]).path@ == path@ && target_spec(lines_of(patch@), i as int)
                == Some((pending@[k].line, pending@[k].side))),
{
    proof {
        assert forall|i: usize| true implies (marked(lines_of(patch@), path@, pending@, i as int) <==> (i < lines_of(patch@).len() && exists|k: int|
            0 <= k < pending@.len() && (#[trigger] pending@[k]).path@ == path@ && target_spec(lines_of(patch@), i as int)
                == Some((pending@[k].line, pending@[k].side)))) by {
            lemma_a_mark_is_a_comment_on_that_line_and_side(lines_of(patch@), path@, pending@, i as int);
        }
    }
    let v = chars_of(patch);
    let lines = split_lines(v.as_slice());
    let ghost ls = views(lines@);
    let pv = chars_of(path);
    // The pending comments on this file.
    let mut targets: Vec<(i64, DiffSide)> = Vec::new();
    let mut k: usize = 0;
    while k < pending.len()
        invariant
            k <= pending.len(),
            pv@ == path@,
            forall|t: (i64, DiffSide)| #[trigger] targets@.contains(t) <==> exists|j: int|
                0 <= j < k && comment_hits(#[trigger] pending@[j], path@, t),
        decreases pending.len() - k,
    {
        let c = &pending[k];
        let cp = chars_of(c.path.as_str());
        let same = chars_equal(cp.as_slice(), pv.as_slice());
        assert(*c == pending@[k as int]);
        assert(cp@ == c.path@);
        assert(same == (pending@[k as int].path@ == path@));
        if same {
            let ghost old_t = targets@;
            targets.push((c.line, c.side));
            assert forall|t: (i64, DiffSide)| #[trigger] targets@.contains(t) <==> exists|j: int|
                0 <= j < k + 1 && comment_hits(#[trigger] pending@[j], path@, t) by {
                if targets@.contains(t) {
                    if !old_t.contains(t) {
                        let w = choose|w: int| 0 <= w < targets@.len() && targets@[w] == t;
                        assert(w == old_t.len());
                        assert(comment_hits(pending@[k as int], path@, t));
                    }
                }
                if exists|j: int| 0 <= j < k + 1 && comment_hits(#[trigger] pending@[j], path@, t) {
                    let j = choose|j: int| 0 <= j < k + 1 && comment_hits(#[trigger] pending@[j], path@, t);
                    if j == k {
                        assert(targets@[old_t.len() as int] == t);
                    } else {
                        assert(old_t.contains(t));
                        let w = choose|w: int| 0 <= w < old_t.len() && old_t[w] == t;
                        assert(targets@[w] == t);
                    }
                }
            }
        } else {
            assert forall|t: (i64, DiffSide)| #[trigger] targets@.contains(t) <==> exists|j: int|
                0 <= j < k + 1 && comment_hits(#[trigger] pending@[j], path@, t) by {
                if exists|j: int| 0 <= j < k + 1 && comment_hits(#[trigger] pending@[j], path@, t) {
                    let j = choose|j: int| 0 <= j < k + 1 && comment_hits(#[trigger] pending@[j], path@, t);
                    assert(j != k);
                }
            }
        }
        k += 1;
    }
    let mut marks: HashSet<usize> = HashSet::new();
    if targets.len() == 0 {
        assert forall|i: usize| #[trigger] marks@.contains(i) <==> marked(ls, path@, pending@, i as int) by {
            if marked(ls, path@, pending@, i as int) {
                let t = target_spec(ls, i as int)->0;
                assert(!targets@.contains(t));
            }
        }
        return marks;
    }
    let mut i: usize = 0;
    while i < lines.len()
        invariant
            ls == views(lines@),
            ls == lines_of(patch@),
            diff_fits(ls),
            i <= lines.len(),
            forall|t: (i64, DiffSide)| #[trigger] targets@.contains(t) <==> exists|j: int|
                0 <= j < pending@.len() && comment_hits(#[trigger] pending@[j], path@, t),
            forall|m: usize| #[trigger] marks@.contains(m) <==> (m < i && marked(ls, path@, pending@, m as int)),
        decreases lines.len() - i,
    {
        let t = target_in_lines(&lines, i);
        let mut hit = false;
        if let Some(tt) = t {
            let mut j: usize = 0;
            while j < targets.len()
                invariant
                    j <= targets.len(),
                    hit == exists|w: int| 0 <= w < j && targets@[w] == tt,
                decreases targets.len() - j,
            {
                if targets[j].0 == tt.0 && targets[j].1 == tt.1 {
                    hit = true;
                }
                j += 1;
            }
            assert(hit == targets@.contains(tt));
        }
        if hit {
            marks.insert(i);
        }
        assert(hit == marked(ls, path@, pending@, i as int));
        i += 1;
    }
    marks
}

// ---------------------------------------------------------------------------
// What a written header reads back as
// ---------------------------------------------------------------------------

proof fn lemma_ws_split_concat(p: Seq<char>, q: Seq<char>)
    requires
        p.len() == 0 || is_ws(p.last()),
    ensures
        ws_split(p + q) == ws_split(p) + ws_split(q),
    decreases q.len(),
{
    if q.len() == 0 {
        assert(p + q =~= p);
        assert(ws_split(q) =~= Seq::<Seq<char>>::empty());
        assert(ws_split(p) + ws_split(q) =~= ws_split(p));
    } else {
        let q1 = q.drop_last();
        let c = q.last();
        let pq = p + q;
        assert(pq.drop_last() =~= p + q1);
        assert(pq.last() == c);
        lemma_ws_split_concat(p, q1);
        let prev = ws_split(p + q1);
        let a = ws_split(p);
        let b = ws_split(q1);
        if is_ws(c) {
        } else if pq.len() >= 2 && !is_ws(pq[pq.len() - 2]) {
            if q1.len() == 0 {
                assert(pq[pq.len() - 2] == p.last());
            } else {
                assert(pq[pq.len() - 2] == q1.last());
                assert(q[q.len() - 2] == q1.last());
                lemma_ws_split_nonempty(q1);
                assert(prev.update(prev.len() - 1, prev.last().push(c)) =~= a + b.update(
                    b.len() - 1,
                    b.last().push(c),
                ));
            }
        } else {
            if q1.len() > 0 {
                assert(pq[pq.len() - 2] == q1.last());
                assert(q[q.len() - 2] == q1.last());
            }
            assert(prev.push(seq![c]) =~= a + b.push(seq![c]));
        }
    }
}

/// Whether no character of `t` is white space.
pub open spec fn no_ws(t: Seq<char>) -> bool {
    forall|i: int| 0 <= i < t.len() ==> !is_ws(#[trigger] t[i])
}

proof fn lemma_ws_split_token(t: Seq<char>)
    requires
        t.len() > 0,
        no_ws(t),
    ensures
        ws_split(t) == seq![t],
    decreases t.len(),
{
    let t1 = t.drop_last();
    assert(!is_ws(t[t.len() - 1]));
    assert(t.last() == t[t.len() - 1]);
    if t.len() == 1 {
        assert(t1.len() == 0);
        assert(ws_split(t1) =~= Seq::<Seq<char>>::empty());
        assert(seq![t.last()] =~= t);
        assert(ws_split(t1).push(seq![t.last()]) =~= seq![t]);
    } else {
        assert forall|i: int| 0 <= i < t1.len() implies !is_ws(#[trigger] t1[i]) by {
            assert(t1[i] == t[i]);
        }
        lemma_ws_split_token(t1);
        assert(!is_ws(t[t.len() - 2]));
        assert(t1.push(t.last()) =~= t);
        assert(seq![t1].update(0, t) =~= seq![t]);
        assert(seq![t1].last() == t1);
    }
}

proof fn lemma_ws_split_token_space(t: Seq<char>, rest: Seq<char>)
    requires
        t.len() > 0,
        no_ws(t),
    ensures
        ws_split(t + seq![' '] + rest) == seq![t] + ws_split(rest),
{
    let ts = t + seq![' '];
    assert(ts.drop_last() =~= t);
    assert(is_ws(ts.last()));
    lemma_ws_split_token(t);
    lemma_ws_split_concat(ts, rest);
    assert(t + seq![' '] + rest =~= ts + rest);
}

proof fn lemma_dec_nat(n: nat)
    ensures
        dec_nat(n).len() > 0,
        all_digits(dec_nat(n)),
        digits_value(dec_nat(n)) == n,
    decreases n,
{
    let d = (n % 10) as int;
    let ch = digit_char(d);
    assert(ch as u32 == d + 48);
    assert(is_ascii_digit(ch));
    assert(crate::text::digit_of(ch) == d);
    let s = dec_nat(n);
    if n >= 10 {
        lemma_dec_nat(n / 10);
        let p = dec_nat(n / 10);
        assert(s == p.push(ch));
        assert(s.drop_last() =~= p);
        assert(s.last() == ch);
        assert(digits_value(s) == digits_value(p) * 10 + d);
        assert(n == (n / 10) * 10 + n % 10);
        assert forall|i: int| 0 <= i < s.len() implies is_ascii_digit(#[trigger] s[i]) by {
            if i < p.len() {
                assert(s[i] == p[i]);
            }
        }
    } else {
        assert(s == seq![ch]);
        assert(s.drop_last() =~= Seq::<char>::empty());
        assert(digits_value(s.drop_last()) == 0);
        assert(s.last() == ch);
        assert(digits_value(s) == d);
    }
}

proof fn lemma_digits_are_plain(s: Seq<char>)
    requires
        all_digits(s),
    ensures
        no_ws(s),
        forall|i: int| 0 <= i < s.len() ==> #[trigger] s[i] != ',' && s[i] != '@' && s[i] != '-' && s[i] != '+',
{
    assert forall|i: int| 0 <= i < s.len() implies !is_ws(#[trigger] s[i]) by {
        assert(is_ascii_digit(s[i]));
    }
    assert forall|i: int| 0 <= i < s.len() implies #[trigger] s[i] != ',' && s[i] != '@' && s[i] != '-' && s[i] != '+' by {
        assert(is_ascii_digit(s[i]));
    }
}

proof fn lemma_comma_index_digits(s: Seq<char>, rest: Seq<char>)
    requires
        forall|i: int| 0 <= i < s.len() ==> #[trigger] s[i] != ',',
    ensures
        comma_index(s + rest) == s.len() + comma_index(rest),
    decreases s.len(),
{
    if s.len() > 0 {
        assert((s + rest)[0] == s[0]);
        assert((s + rest).drop_first() =~= s.drop_first() + rest);
        assert forall|i: int| 0 <= i < s.drop_first().len() implies #[trigger] s.drop_first()[i] != ',' by {
            assert(s.drop_first()[i] == s[i + 1]);
        }
        lemma_comma_index_digits(s.drop_first(), rest);
    } else {
        assert(s + rest =~= rest);
    }
}

proof fn lemma_token_start_dec(sign: char, n: nat, rest: Seq<char>)
    requires
        n <= i64::MAX,
        rest.len() == 0 || rest[0] == ',',
    ensures
        token_start(seq![sign] + dec_nat(n) + rest) == Some(n as i64),
{
    let ds = dec_nat(n);
    lemma_dec_nat(n);
    lemma_digits_are_plain(ds);
    let t = seq![sign] + ds + rest;
    assert(t.drop_first() =~= ds + rest);
    lemma_comma_index_digits(ds, rest);
    assert(comma_index(rest) == 0);
    assert(before_comma(ds + rest) =~= ds);
    assert(ds[0] != '-' && ds[0] != '+');
}

/// The header `@@ -a,b +c,d @@`.
pub open spec fn header_text(a: nat, b: nat, c: nat, d: nat) -> Seq<char> {
    seq!['@', '@', ' ', '-'] + dec_nat(a) + seq![','] + dec_nat(b) + seq![' ', '+'] + dec_nat(c) + seq![','] + dec_nat(d)
        + seq![' ', '@', '@']
}

/// The short header `@@ -a +c @@`, then a space and any context text.
pub open spec fn short_header_text(a: nat, c: nat, context: Seq<char>) -> Seq<char> {
    seq!['@', '@', ' ', '-'] + dec_nat(a) + seq![' ', '+'] + dec_nat(c) + seq![' ', '@', '@', ' '] + context
}

proof fn lemma_header_tokens(t1: Seq<char>, t2: Seq<char>, rest: Seq<char>)
    requires
        t1.len() > 0 && no_ws(t1) && t1[0] == '-',
        t2.len() > 0 && no_ws(t2) && t2[0] == '+',
        rest.len() == 0 || rest[0] == ' ',
    ensures
        hunk_header_spec(seq!['@', '@', ' '] + t1 + seq![' '] + t2 + seq![' ', '@', '@'] + rest) == match (
            token_start(t1),
            token_start(t2),
        ) {
            (Some(o), Some(n)) => Some((o, n)),
            _ => None,
        },
{
    let m = seq!['@', '@'];
    assert(no_ws(m));
    let tail = m + rest;
    let s = seq!['@', '@', ' '] + t1 + seq![' '] + t2 + seq![' ', '@', '@'] + rest;
    assert(s =~= m + seq![' '] + (t1 + seq![' '] + (t2 + seq![' '] + tail)));
    lemma_ws_split_token_space(m, t1 + seq![' '] + (t2 + seq![' '] + tail));
    lemma_ws_split_token_space(t1, t2 + seq![' '] + tail);
    lemma_ws_split_token_space(t2, tail);
    if rest.len() == 0 {
        assert(tail =~= m);
        lemma_ws_split_token(m);
    } else {
        assert(tail =~= m + seq![' '] + rest.drop_first());
        lemma_ws_split_token_space(m, rest.drop_first());
    }
    let rs = ws_split(tail);
    assert(rs.len() > 0 && rs[0] == m);
    let toks = ws_split(s);
    assert(toks =~= seq![m, t1, t2] + rs);
    assert(starts_with(s, hunk_marker())) by {
        assert(s.take(2) =~= hunk_marker());
    }
    assert(toks[1] == t1 && toks[2] == t2 && toks[3] == m);
    assert(toks[1] != hunk_marker()) by {
        assert(t1[0] != hunk_marker()[0]);
    }
    assert(toks[2] != hunk_marker()) by {
        assert(t2[0] != hunk_marker()[0]);
    }
    assert(m == hunk_marker());
    assert(close_index(toks, 3) == 3);
    assert(close_index(toks, 2) == 3);
    assert(close_index(toks, 1) == 3);
    assert(last_signed(toks, 1, 1, '-') == -1);
    assert(last_signed(toks, 1, 2, '-') == 1);
    assert(last_signed(toks, 1, 3, '-') == 1);
    assert(last_signed(toks, 1, 3, '+') == 2);
}

proof fn lemma_dec_token(sign: char, n: nat, rest: Seq<char>)
    requires
        n <= i64::MAX,
        rest.len() == 0 || (rest[0] == ',' && rest.len() > 1 && all_digits(rest.drop_first())),
        sign == '-' || sign == '+',
    ensures
        ({
            let t = seq![sign] + dec_nat(n) + rest;
            &&& t.len() > 0 && no_ws(t) && t[0] == sign
            &&& token_start(t) == Some(n as i64)
        }),
{
    let ds = dec_nat(n);
    lemma_dec_nat(n);
    lemma_digits_are_plain(ds);
    let t = seq![sign] + ds + rest;
    if rest.len() > 0 {
        lemma_digits_are_plain(rest.drop_first());
    }
    assert forall|i: int| 0 <= i < t.len() implies !is_ws(#[trigger] t[i]) by {
        if 1 <= i < 1 + ds.len() {
            assert(t[i] == ds[i - 1]);
        } else if i > 1 + ds.len() {
            assert(t[i] == rest.drop_first()[i - 2 - ds.len()]);
        } else if i == 1 + ds.len() {
            assert(t[i] == rest[0]);
        }
    }
    lemma_token_start_dec(sign, n, rest);
}

/// A written header reads back as its own starts: `@@ -a,b +c,d @@` gives `(a, c)`.
pub proof fn lemma_hunk_header_round_trip(a: u32, b: u32, c: u32, d: u32)
    ensures
        hunk_header_spec(header_text(a as nat, b as nat, c as nat, d as nat)) == Some((a as i64, c as i64)),
{
    lemma_dec_nat(b as nat);
    lemma_dec_nat(d as nat);
    let rb = seq![','] + dec_nat(b as nat);
    let rd = seq![','] + dec_nat(d as nat);
    assert(rb.drop_first() =~= dec_nat(b as nat));
    assert(rd.drop_first() =~= dec_nat(d as nat));
    lemma_dec_token('-', a as nat, rb);
    lemma_dec_token('+', c as nat, rd);
    let t1 = seq!['-'] + dec_nat(a as nat) + rb;
    let t2 = seq!['+'] + dec_nat(c as nat) + rd;
    lemma_header_tokens(t1, t2, Seq::empty());
    assert(header_text(a as nat, b as nat, c as nat, d as nat) =~= seq!['@', '@', ' '] + t1 + seq![' '] + t2
        + seq![' ', '@', '@'] + Seq::<char>::empty());
}

/// The short header `@@ -a +c @@`, followed by any context text, reads back as `(a, c)`:
/// the context is not read, whatever it holds.
pub proof fn lemma_short_header_round_trip(a: u32, c: u32, context: Seq<char>)
    ensures
        hunk_header_spec(short_header_text(a as nat, c as nat, context)) == Some((a as i64, c as i64)),
{
    lemma_dec_token('-', a as nat, Seq::empty());
    lemma_dec_token('+', c as nat, Seq::empty());
    let t1 = seq!['-'] + dec_nat(a as nat) + Seq::<char>::empty();
    let t2 = seq!['+'] + dec_nat(c as nat) + Seq::<char>::empty();
    let rest = seq![' '] + context;
    lemma_header_tokens(t1, t2, rest);
    assert(short_header_text(a as nat, c as nat, context) =~= seq!['@', '@', ' '] + t1 + seq![' '] + t2
        + seq![' ', '@', '@'] + rest);
}

/// A line is no hunk header when it does not start with `@@`, when no token between the
/// two `@@` markers starts with `-` (or none with `+`), or when the last such token's
/// start is no `i64`.
pub proof fn lemma_hunk_header_none(line: Seq<char>)
    ensures
        ({
            let toks = ws_split(line);
            let hi = close_index(toks, 1);
            let jo = last_signed(toks, 1, hi, '-');
            let jn = last_signed(toks, 1, hi, '+');
            hunk_header_spec(line) is None <==> (!starts_with(line, hunk_marker()) || jo < 0 || jn < 0
                || token_start(toks[jo]) is None || token_start(toks[jn]) is None)
        }),
{
}

} // verus!
