//! Job logs: failure-line detection, ASCII-case-insensitive search, and the
//! scrollable log pane shown beside the pipeline drill-in.
use vstd::prelude::*;

use crate::scan::{
    as_ints, in_class, lead_len, lead_len_exec, lead_run, lemma_lead_len_bounds,
    lemma_occurrences_valid, lemma_trail_len_bounds, occurrence_starts, occurrences, trail_len,
    trail_len_exec, trim_lead, trim_trail, utf8_len, utf8_width, utf8_width_exec, CharClass,
};
use crate::text::{
    ascii_lower, ascii_lowercase, chars_of, contains, contains_exec, dec_nat, is_ascii_digit,
    is_ws, lines_of, lower_char, push_str, push_u64, split_lines, string_of, views,
};

verus! {

// ---------------------------------------------------------------------------
// Failure lines
// ---------------------------------------------------------------------------

/// What `char::is_alphanumeric` answers for `c` (the Unicode `Alphabetic` property or a
/// numeric general category).
pub uninterp spec fn char_alphanumeric(c: char) -> bool;

/// `char::is_alphanumeric`. Its result is named by [`char_alphanumeric`]; the Unicode
/// tables behind it are not restated.
#[verifier::external_body]
fn is_alphanumeric(c: char) -> (r: bool)
    ensures
        r == char_alphanumeric(c),
{
    c.is_alphanumeric()
}

/// A character that continues an identifier.
pub open spec fn is_word_char(c: char) -> bool {
    char_alphanumeric(c) || c == '_'
}

fn is_word_char_exec(c: char) -> (r: bool)
    ensures
        r == is_word_char(c),
{
    is_alphanumeric(c) || c == '_'
}

/// What may follow a token for it to count.
#[derive(Clone, Copy, PartialEq, Eq, Structural)]
pub enum NextRule {
    /// Anything (or nothing).
    Any,
    /// `!` or `:`.
    BangOrColon,
    /// `:` or `[`.
    ColonOrBracket,
    /// `:`.
    Colon,
}

pub open spec fn next_ok(rule: NextRule, after: Option<char>) -> bool {
    match rule {
        NextRule::Any => true,
        NextRule::BangOrColon => after == Some('!') || after == Some(':'),
        NextRule::ColonOrBracket => after == Some(':') || after == Some('['),
        NextRule::Colon => after == Some(':'),
    }
}

/// `text` ends in the number 0, ignoring trailing whitespace (the `0 ` of `0 FAILED`).
pub open spec fn ends_with_zero(text: Seq<char>) -> bool {
    let t = trim_trail(text, CharClass::Space);
    t.len() > 0 && t.last() == '0' && !(t.len() >= 2 && is_ascii_digit(t[t.len() - 2]))
}

/// `text` is a count of 0 after optional `:`/`=`/spaces (the `: 0` of `ERROR: 0`).
pub open spec fn starts_with_zero(text: Seq<char>) -> bool {
    let t = trim_lead(text, CharClass::ColonEqSpace);
    t.len() > 0 && t[0] == '0' && !(t.len() >= 2 && is_ascii_digit(t[1]))
}

/// The occurrence of `word` at `i` stands alone, is followed as `rule` asks, and is no
/// zero count.
pub open spec fn token_ok(line: Seq<char>, word: Seq<char>, i: int, rule: NextRule) -> bool {
    let j = i + word.len();
    let after = if j < line.len() {
        Some(line[j])
    } else {
        None
    };
    &&& (i == 0 || !is_word_char(line[i - 1]))
    &&& (j >= line.len() || !is_word_char(line[j]))
    &&& next_ok(rule, after)
    &&& !ends_with_zero(line.take(i))
    &&& !starts_with_zero(line.skip(j))
}

/// `word` occurs in `line` as a whole token (among the non-overlapping occurrences
/// `match_indices` finds) that `token_ok` accepts.
pub open spec fn has_token_spec(line: Seq<char>, word: Seq<char>, rule: NextRule) -> bool {
    let occ = occurrences(line, word, 0);
    exists|k: int| 0 <= k < occ.len() && token_ok(line, word, #[trigger] occ[k], rule)
}

fn ends_with_zero_exec(text: &[char]) -> (r: bool)
    ensures
        r == ends_with_zero(text@),
{
    let n = trail_len_exec(text, CharClass::Space);
    proof {
        lemma_trail_len_bounds(text@, CharClass::Space);
    }
    let m = text.len() - n;
    let ghost t = trim_trail(text@, CharClass::Space);
    assert(t.len() == m);
    assert(forall|k: int| 0 <= k < m ==> t[k] == text@[k]);
    if m == 0 || text[m - 1] != '0' {
        return false;
    }
    if m >= 2 {
        let u = text[m - 2] as u32;
        !(48 <= u && u <= 57)
    } else {
        true
    }
}

fn starts_with_zero_exec(text: &[char]) -> (r: bool)
    ensures
        r == starts_with_zero(text@),
{
    let n = lead_len_exec(text, CharClass::ColonEqSpace);
    proof {
        lemma_lead_len_bounds(text@, CharClass::ColonEqSpace);
    }
    let ghost t = trim_lead(text@, CharClass::ColonEqSpace);
    assert(t.len() == text.len() - n);
    assert(forall|k: int| 0 <= k < t.len() ==> t[k] == text@[n + k]);
    if n >= text.len() || text[n] != '0' {
        return false;
    }
    if n + 1 < text.len() {
        let u = text[n + 1] as u32;
        !(48 <= u && u <= 57)
    } else {
        true
    }
}

fn next_ok_exec(rule: NextRule, after: Option<char>) -> (r: bool)
    ensures
        r == next_ok(rule, after),
{
    match rule {
        NextRule::Any => true,
        NextRule::BangOrColon => after == Some('!') || after == Some(':'),
        NextRule::ColonOrBracket => after == Some(':') || after == Some('['),
        NextRule::Colon => after == Some(':'),
    }
}

fn token_ok_exec(line: &[char], word: &[char], i: usize, rule: NextRule) -> (r: bool)
    requires
        i + word.len() <= line.len(),
    ensures
        r == token_ok(line@, word@, i as int, rule),
{
    let j = i + word.len();
    let after = if j < line.len() {
        Some(line[j])
    } else {
        None
    };
    if i > 0 && is_word_char_exec(line[i - 1]) {
        return false;
    }
    if j < line.len() && is_word_char_exec(line[j]) {
        return false;
    }
    if !next_ok_exec(rule, after) {
        return false;
    }
    let mut before: Vec<char> = Vec::new();
    let mut k: usize = 0;
    while k < i
        invariant
            k <= i,
            i <= line@.len(),
            before@ == line@.take(k as int),
        decreases i - k,
    {
        before.push(line[k]);
        k += 1;
        assert(before@ =~= line@.take(k as int));
    }
    if ends_with_zero_exec(before.as_slice()) {
        return false;
    }
    let mut rest: Vec<char> = Vec::new();
    let mut k2: usize = j;
    while k2 < line.len()
        invariant
            j <= k2 <= line@.len(),
            rest@ == line@.subrange(j as int, k2 as int),
        decreases line.len() - k2,
    {
        rest.push(line[k2]);
        k2 += 1;
        assert(rest@ =~= line@.subrange(j as int, k2 as int));
    }
    assert(rest@ =~= line@.skip(j as int));
    !starts_with_zero_exec(rest.as_slice())
}

fn has_token(line: &[char], word: &[char], rule: NextRule) -> (r: bool)
    ensures
        r == has_token_spec(line@, word@, rule),
{
    let occ = occurrence_starts(line, word);
    let ghost o = occurrences(line@, word@, 0);
    let mut k: usize = 0;
    while k < occ.len()
        invariant
            as_ints(occ@) == o,
            o == occurrences(line@, word@, 0),
            forall|m: int| 0 <= m < occ@.len() ==> occ@[m] + word@.len() <= line@.len(),
            k <= occ.len(),
            forall|m: int| 0 <= m < k ==> !token_ok(line@, word@, #[trigger] o[m], rule),
        decreases occ.len() - k,
    {
        assert(o[k as int] == occ@[k as int] as int);
        if token_ok_exec(line, word, occ[k], rule) {
            return true;
        }
        k += 1;
    }
    false
}

/// `exit code N` / `exited with code N` (any case) with N other than 0, where the
/// occurrence at `i` of `pat` in the lowercased `lower` is followed by such an N.
pub open spec fn exit_code_nonzero_at(lower: Seq<char>, pat: Seq<char>, i: int) -> bool {
    let rest = trim_lead(lower.skip(i + pat.len()), CharClass::ColonSpace);
    let digits = lead_run(rest, CharClass::Digit);
    digits.len() > 0 && exists|d: int| 0 <= d < digits.len() && digits[d] != '0'
}

pub open spec fn pat_exit_code() -> Seq<char> {
    seq!['e', 'x', 'i', 't', ' ', 'c', 'o', 'd', 'e']
}

pub open spec fn pat_exited_with_code() -> Seq<char> {
    seq!['e', 'x', 'i', 't', 'e', 'd', ' ', 'w', 'i', 't', 'h', ' ', 'c', 'o', 'd', 'e']
}

pub open spec fn nonzero_exit_with(lower: Seq<char>, pat: Seq<char>) -> bool {
    let occ = occurrences(lower, pat, 0);
    exists|k: int| 0 <= k < occ.len() && exit_code_nonzero_at(lower, pat, #[trigger] occ[k])
}

/// A non-zero `exit code` / `exited with code` report anywhere in `line`, in any case.
pub open spec fn nonzero_exit_code_spec(line: Seq<char>) -> bool {
    let lower = ascii_lower(line);
    nonzero_exit_with(lower, pat_exit_code()) || nonzero_exit_with(lower, pat_exited_with_code())
}

fn exit_code_nonzero_at_exec(lower: &[char], pat: &[char], i: usize) -> (r: bool)
    requires
        i + pat.len() <= lower.len(),
    ensures
        r == exit_code_nonzero_at(lower@, pat@, i as int),
{
    let start = i + pat.len();
    let mut tail: Vec<char> = Vec::new();
    let mut k: usize = start;
    while k < lower.len()
        invariant
            start <= k <= lower@.len(),
            tail@ == lower@.subrange(start as int, k as int),
        decreases lower.len() - k,
    {
        tail.push(lower[k]);
        k += 1;
        assert(tail@ =~= lower@.subrange(start as int, k as int));
    }
    assert(tail@ =~= lower@.skip(start as int));
    let skip = lead_len_exec(tail.as_slice(), CharClass::ColonSpace);
    proof {
        lemma_lead_len_bounds(tail@, CharClass::ColonSpace);
    }
    let mut rest: Vec<char> = Vec::new();
    let mut k2: usize = skip;
    while k2 < tail.len()
        invariant
            skip <= k2 <= tail@.len(),
            rest@ == tail@.subrange(skip as int, k2 as int),
        decreases tail.len() - k2,
    {
        rest.push(tail[k2]);
        k2 += 1;
        assert(rest@ =~= tail@.subrange(skip as int, k2 as int));
    }
    assert(rest@ =~= tail@.skip(skip as int));
    let nd = lead_len_exec(rest.as_slice(), CharClass::Digit);
    proof {
        lemma_lead_len_bounds(rest@, CharClass::Digit);
    }
    let ghost digits = lead_run(rest@, CharClass::Digit);
    assert(digits.len() == nd);
    let mut any = false;
    let mut d: usize = 0;
    while d < nd
        invariant
            d <= nd,
            nd == digits.len(),
            digits == rest@.take(nd as int),
            nd <= rest@.len(),
            any == exists|e: int| 0 <= e < d && digits[e] != '0',
        decreases nd - d,
    {
        assert(digits[d as int] == rest@[d as int]);
        if rest[d] != '0' {
            any = true;
        }
        d += 1;
    }
    nd > 0 && any
}

fn nonzero_exit_with_exec(lower: &[char], pat: &[char]) -> (r: bool)
    ensures
        r == nonzero_exit_with(lower@, pat@),
{
    let occ = occurrence_starts(lower, pat);
    let ghost o = occurrences(lower@, pat@, 0);
    let mut k: usize = 0;
    while k < occ.len()
        invariant
            as_ints(occ@) == o,
            o == occurrences(lower@, pat@, 0),
            forall|m: int| 0 <= m < occ@.len() ==> occ@[m] + pat@.len() <= lower@.len(),
            k <= occ.len(),
            forall|m: int| 0 <= m < k ==> !exit_code_nonzero_at(lower@, pat@, #[trigger] o[m]),
        decreases occ.len() - k,
    {
        assert(o[k as int] == occ@[k as int] as int);
        if exit_code_nonzero_at_exec(lower, pat, occ[k]) {
            return true;
        }
        k += 1;
    }
    false
}

fn nonzero_exit_code(line: &Vec<char>) -> (r: bool)
    ensures
        r == nonzero_exit_code_spec(line@),
{
    let lower = ascii_lowercase(line);
    let p1 = ['e', 'x', 'i', 't', ' ', 'c', 'o', 'd', 'e'];
    let p2 = ['e', 'x', 'i', 't', 'e', 'd', ' ', 'w', 'i', 't', 'h', ' ', 'c', 'o', 'd', 'e'];
    assert(p1@ =~= pat_exit_code());
    assert(p2@ =~= pat_exited_with_code());
    nonzero_exit_with_exec(lower.as_slice(), &p1) || nonzero_exit_with_exec(lower.as_slice(), &p2)
}

pub open spec fn lit_ci_error() -> Seq<char> {
    seq!['#', '#', '[', 'e', 'r', 'r', 'o', 'r', ']']
}

pub open spec fn lit_fail_bracket() -> Seq<char> {
    seq!['[', 'F', 'A', 'I', 'L', ']']
}

pub open spec fn lit_npm_err() -> Seq<char> {
    seq!['n', 'p', 'm', ' ', 'E', 'R', 'R', '!']
}

pub open spec fn word_failed_upper() -> Seq<char> {
    seq!['F', 'A', 'I', 'L', 'E', 'D']
}

pub open spec fn word_fail_upper() -> Seq<char> {
    seq!['F', 'A', 'I', 'L']
}

pub open spec fn word_error_upper() -> Seq<char> {
    seq!['E', 'R', 'R', 'O', 'R']
}

pub open spec fn word_failed_title() -> Seq<char> {
    seq!['F', 'a', 'i', 'l', 'e', 'd']
}

pub open spec fn word_error_lower() -> Seq<char> {
    seq!['e', 'r', 'r', 'o', 'r']
}

pub open spec fn word_error_title() -> Seq<char> {
    seq!['E', 'r', 'r', 'o', 'r']
}

/// Whether a log line reports a failure.
pub open spec fn is_error_line_spec(line: Seq<char>) -> bool {
    ||| contains(line, lit_ci_error())
    ||| contains(line, lit_fail_bracket())
    ||| contains(line, lit_npm_err())
    ||| has_token_spec(line, word_failed_upper(), NextRule::Any)
    ||| has_token_spec(line, word_fail_upper(), NextRule::Any)
    ||| has_token_spec(line, word_error_upper(), NextRule::Any)
    ||| has_token_spec(line, word_failed_title(), NextRule::BangOrColon)
    ||| has_token_spec(line, word_error_lower(), NextRule::ColonOrBracket)
    ||| has_token_spec(line, word_error_title(), NextRule::Colon)
    ||| nonzero_exit_code_spec(line)
}

fn is_error_chars(line: &Vec<char>) -> (r: bool)
    ensures
        r == is_error_line_spec(line@),
{
    let a = ['#', '#', '[', 'e', 'r', 'r', 'o', 'r', ']'];
    let b = ['[', 'F', 'A', 'I', 'L', ']'];
    let c = ['n', 'p', 'm', ' ', 'E', 'R', 'R', '!'];
    assert(a@ =~= lit_ci_error());
    assert(b@ =~= lit_fail_bracket());
    assert(c@ =~= lit_npm_err());
    if contains_exec(line.as_slice(), &a) || contains_exec(line.as_slice(), &b) || contains_exec(
        line.as_slice(),
        &c,
    ) {
        return true;
    }
    let w1 = ['F', 'A', 'I', 'L', 'E', 'D'];
    let w2 = ['F', 'A', 'I', 'L'];
    let w3 = ['E', 'R', 'R', 'O', 'R'];
    assert(w1@ =~= word_failed_upper());
    assert(w2@ =~= word_fail_upper());
    assert(w3@ =~= word_error_upper());
    if has_token(line.as_slice(), &w1, NextRule::Any) || has_token(line.as_slice(), &w2, NextRule::Any)
        || has_token(line.as_slice(), &w3, NextRule::Any) {
        return true;
    }
    let w4 = ['F', 'a', 'i', 'l', 'e', 'd'];
    assert(w4@ =~= word_failed_title());
    if has_token(line.as_slice(), &w4, NextRule::BangOrColon) {
        return true;
    }
    let w5 = ['e', 'r', 'r', 'o', 'r'];
    let w6 = ['E', 'r', 'r', 'o', 'r'];
    assert(w5@ =~= word_error_lower());
    assert(w6@ =~= word_error_title());
    if has_token(line.as_slice(), &w5, NextRule::ColonOrBracket) || has_token(
        line.as_slice(),
        &w6,
        NextRule::Colon,
    ) {
        return true;
    }
    nonzero_exit_code(line)
}

/// Whether a log line reports a failure: CI annotations (`##[error]`), test-runner verdicts
/// (`[FAIL]`, `FAILED`), compiler diagnostics (`error:`, `error[E…]`, `ERROR`, `Error:`),
/// `npm ERR!`, and a non-zero exit code. Summary lines that count zero failures (`0 errors`,
/// `Failed: 0`, `exit code 0`) don't qualify.
pub fn is_error_line(line: &str) -> (r: bool)
    ensures
        r == is_error_line_spec(line@),
        contains(line@, seq!['#', '#', '[', 'e', 'r', 'r', 'o', 'r', ']']) ==> r,
        contains(line@, seq!['[', 'F', 'A', 'I', 'L', ']']) ==> r,
        contains(line@, seq!['n', 'p', 'm', ' ', 'E', 'R', 'R', '!']) ==> r,
{
    let v = chars_of(line);
    proof {
        lemma_marked_lines_are_errors(line@);
    }
    is_error_chars(&v)
}

/// A line that carries a CI error annotation (`##[error]`), a test runner's `[FAIL]` or
/// npm's `npm ERR!` anywhere in it is a failure line, whatever else it holds.
pub proof fn lemma_marked_lines_are_errors(line: Seq<char>)
    ensures
        contains(line, seq!['#', '#', '[', 'e', 'r', 'r', 'o', 'r', ']']) ==> is_error_line_spec(line),
        contains(line, seq!['[', 'F', 'A', 'I', 'L', ']']) ==> is_error_line_spec(line),
        contains(line, seq!['n', 'p', 'm', ' ', 'E', 'R', 'R', '!']) ==> is_error_line_spec(line),
{
    assert(seq!['#', '#', '[', 'e', 'r', 'r', 'o', 'r', ']'] =~= lit_ci_error());
    assert(seq!['[', 'F', 'A', 'I', 'L', ']'] =~= lit_fail_bracket());
    assert(seq!['n', 'p', 'm', ' ', 'E', 'R', 'R', '!'] =~= lit_npm_err());
}

pub open spec fn string_views(v: Seq<String>) -> Seq<Seq<char>> {
    v.map_values(|s: String| s@)
}

/// The first index whose line [`is_error_line_spec`] accepts.
pub open spec fn first_error_spec(lines: Seq<Seq<char>>) -> Option<usize> {
    if exists|i: int| 0 <= i < lines.len() && is_error_line_spec(#[trigger] lines[i]) {
        let i = choose|i: int|
            0 <= i < lines.len() && is_error_line_spec(#[trigger] lines[i]) && forall|j: int|
                0 <= j < i ==> !is_error_line_spec(#[trigger] lines[j]);
        Some(i as usize)
    } else {
        None
    }
}

/// Index of the first line [`is_error_line`] matches.
pub fn first_error_line(lines: &[String]) -> (r: Option<usize>)
    ensures
        r matches Some(i) ==> i < lines@.len() && is_error_line_spec(lines@[i as int]@) && forall|
            j: int,
        | 0 <= j < i ==> !is_error_line_spec(#[trigger] lines@[j]@),
        r is None ==> forall|j: int| 0 <= j < lines@.len() ==> !is_error_line_spec(#[trigger] lines@[j]@),
        forall|j: int|
            0 <= j < lines@.len() && contains(#[trigger] lines@[j]@, seq!['#', '#', '[', 'e', 'r', 'r', 'o', 'r', ']'])
                ==> (r matches Some(k) && k <= j),
{
    proof {
        assert forall|j: int| 0 <= j < lines@.len() && contains(#[trigger] lines@[j]@, seq!['#', '#', '[', 'e', 'r', 'r', 'o', 'r', ']'])
            implies is_error_line_spec(lines@[j]@) by {
            lemma_marked_lines_are_errors(lines@[j]@);
        }
    }
    let mut i: usize = 0;
    while i < lines.len()
        invariant
            i <= lines.len(),
            forall|j: int| 0 <= j < i ==> !is_error_line_spec(#[trigger] lines@[j]@),
        decreases lines.len() - i,
    {
        if is_error_line(lines[i].as_str()) {
            return Some(i);
        }
        i += 1;
    }
    None
}

// ---------------------------------------------------------------------------
// Search
// ---------------------------------------------------------------------------

/// Line `l` contains `q`, compared ASCII-case-insensitively.
pub open spec fn line_matches(l: Seq<char>, q: Seq<char>) -> bool {
    contains(ascii_lower(l), ascii_lower(q))
}

/// The indices below `n` of the lines matching `q`, ascending.
pub open spec fn matches_below(lines: Seq<Seq<char>>, q: Seq<char>, n: int) -> Seq<usize>
    decreases n,
{
    if n <= 0 {
        seq![]
    } else if line_matches(lines[n - 1], q) {
        matches_below(lines, q, n - 1).push((n - 1) as usize)
    } else {
        matches_below(lines, q, n - 1)
    }
}

/// The lines of `lines` containing `q` (none for an empty query).
pub open spec fn find_matches_spec(lines: Seq<Seq<char>>, q: Seq<char>) -> Seq<usize> {
    if q.len() == 0 {
        seq![]
    } else {
        matches_below(lines, q, lines.len() as int)
    }
}

pub proof fn lemma_matches_below(lines: Seq<Seq<char>>, q: Seq<char>, n: int)
    requires
        0 <= n <= lines.len(),
        n <= usize::MAX,
    ensures
        matches_below(lines, q, n).len() <= n,
        forall|k: int|
            0 <= k < matches_below(lines, q, n).len() ==> #[trigger] matches_below(lines, q, n)[k]
                < n && line_matches(lines[matches_below(lines, q, n)[k] as int], q),
        forall|a: int, b: int|
            0 <= a < b < matches_below(lines, q, n).len() ==> matches_below(lines, q, n)[a]
                < matches_below(lines, q, n)[b],
        forall|i: int|
            0 <= i < n && line_matches(lines[i], q) ==> matches_below(lines, q, n).contains(
                i as usize,
            ),
    decreases n,
{
    if n > 0 {
        lemma_matches_below(lines, q, n - 1);
        let prev = matches_below(lines, q, n - 1);
        if line_matches(lines[n - 1], q) {
            let cur = prev.push((n - 1) as usize);
            assert(cur == matches_below(lines, q, n));
            assert forall|i: int| 0 <= i < n && line_matches(lines[i], q) implies cur.contains(
                i as usize,
            ) by {
                if i == n - 1 {
                    assert(cur[prev.len() as int] == i as usize);
                } else {
                    let w = choose|w: int| 0 <= w < prev.len() && prev[w] == i as usize;
                    assert(cur[w] == i as usize);
                }
            }
        }
    }
}

/// Lines containing `query`, compared ASCII-case-insensitively (so byte offsets line up with
/// the line as written, for highlighting).
pub fn find_matches(lines: &[String], query: &str) -> (r: Vec<usize>)
    ensures
        r@ == find_matches_spec(string_views(lines@), query@),
{
    let ghost ls = string_views(lines@);
    let qv = chars_of(query);
    if qv.len() == 0 {
        return Vec::new();
    }
    let q = ascii_lowercase(&qv);
    let mut out: Vec<usize> = Vec::new();
    let mut i: usize = 0;
    while i < lines.len()
        invariant
            ls == string_views(lines@),
            qv@ == query@,
            qv@.len() > 0,
            q@ == ascii_lower(query@),
            i <= lines.len(),
            out@ == matches_below(ls, query@, i as int),
        decreases lines.len() - i,
    {
        let lv = chars_of(lines[i].as_str());
        let low = ascii_lowercase(&lv);
        assert(lv@ == ls[i as int]);
        if contains_exec(low.as_slice(), q.as_slice()) {
            out.push(i);
        }
        i += 1;
    }
    out
}

/// The byte ranges of the non-overlapping ASCII-case-insensitive occurrences of `q` in `line`.
pub open spec fn match_ranges_spec(line: Seq<char>, q: Seq<char>) -> Seq<(usize, usize)> {
    let hay = ascii_lower(line);
    let occ = occurrences(hay, ascii_lower(q), 0);
    occ.map_values(
        |i: int|
            (utf8_len(line.take(i)) as usize, (utf8_len(line.take(i)) + utf8_len(q)) as usize),
    )
}

pub proof fn lemma_occurrences_sorted(hay: Seq<char>, q: Seq<char>, start: int, a: int, b: int)
    requires
        0 <= a < b < occurrences(hay, q, start).len(),
    ensures
        occurrences(hay, q, start)[a] < occurrences(hay, q, start)[b],
    decreases hay.len() - start,
{
    if q.len() == 0 || start < 0 || start + q.len() > hay.len() {
    } else if crate::text::occurs_at(hay, q, start) {
        let rest = occurrences(hay, q, start + q.len());
        lemma_occurrences_valid(hay, q, start + q.len());
        if a == 0 {
            assert(occurrences(hay, q, start)[b] == rest[b - 1]);
        } else {
            lemma_occurrences_sorted(hay, q, start + q.len(), a - 1, b - 1);
        }
    } else {
        assert(occurrences(hay, q, start) == occurrences(hay, q, start + 1));
        lemma_occurrences_sorted(hay, q, start + 1, a, b);
    }
}

pub proof fn lemma_utf8_len_take(s: Seq<char>, k: int)
    requires
        0 <= k < s.len(),
    ensures
        utf8_len(s.take(k + 1)) == utf8_len(s.take(k)) + utf8_width(s[k]),
{
    assert(s.take(k + 1).drop_last() =~= s.take(k));
}

pub proof fn lemma_utf8_len_lower(s: Seq<char>)
    ensures
        utf8_len(ascii_lower(s)) == utf8_len(s),
    decreases s.len(),
{
    if s.len() > 0 {
        assert(ascii_lower(s).drop_last() =~= ascii_lower(s.drop_last()));
        lemma_utf8_len_lower(s.drop_last());
    }
}

pub proof fn lemma_utf8_len_prefix(s: Seq<char>, k: int)
    requires
        0 <= k <= s.len(),
    ensures
        utf8_len(s.take(k)) <= utf8_len(s),
    decreases s.len(),
{
    if k < s.len() {
        lemma_utf8_len_prefix(s.drop_last(), k);
        assert(s.drop_last().take(k) =~= s.take(k));
    } else {
        assert(s.take(k) =~= s);
    }
}

pub proof fn lemma_utf8_len_bound(s: Seq<char>)
    ensures
        0 <= utf8_len(s) <= 4 * s.len(),
    decreases s.len(),
{
    if s.len() > 0 {
        lemma_utf8_len_bound(s.drop_last());
    }
}

/// Byte ranges of every occurrence of `query` in `line`, ASCII-case-insensitively.
pub fn match_ranges(line: &str, query: &str) -> (r: Vec<(usize, usize)>)
    requires
        utf8_len(line@) + utf8_len(query@) <= usize::MAX,
    ensures
        r@ == match_ranges_spec(line@, query@),
{
    let lv = chars_of(line);
    let qv = chars_of(query);
    if qv.len() == 0 {
        assert(occurrences(ascii_lower(line@), ascii_lower(query@), 0) =~= seq![]);
        assert(match_ranges_spec(line@, query@) =~= seq![]);
        return Vec::new();
    }
    let hay = ascii_lowercase(&lv);
    let q = ascii_lowercase(&qv);
    // Byte length of the query.
    let mut qbytes: usize = 0;
    let mut k: usize = 0;
    proof {
        lemma_utf8_len_bound(lv@);
    }
    while k < qv.len()
        invariant
            k <= qv.len(),
            qbytes as int == utf8_len(qv@.take(k as int)),
            utf8_len(qv@) <= usize::MAX,
        decreases qv.len() - k,
    {
        proof {
            lemma_utf8_len_take(qv@, k as int);
            lemma_utf8_len_prefix(qv@, k + 1);
        }
        qbytes = qbytes + utf8_width_exec(qv[k]);
        k += 1;
    }
    assert(qv@.take(qv.len() as int) =~= qv@);
    let starts = occurrence_starts(hay.as_slice(), q.as_slice());
    proof {
        lemma_occurrences_valid(hay@, q@, 0);
    }
    let ghost occ = occurrences(hay@, q@, 0);
    // Walk the line once, converting character positions to byte offsets.
    let mut out: Vec<(usize, usize)> = Vec::new();
    let mut pos: usize = 0;
    let mut bytes: usize = 0;
    let mut m: usize = 0;
    assert(lv@.take(0) =~= seq![]);
    assert forall|a: int, b: int| 0 <= a < b < starts@.len() implies starts@[a] < starts@[b] by {
        lemma_occurrences_sorted(hay@, q@, 0, a, b);
    }
    while m < starts.len()
        invariant
            as_ints(starts@) == occ,
            occ == occurrences(hay@, q@, 0),
            hay@ == ascii_lower(lv@),
            lv@ == line@,
            q@ == ascii_lower(query@),
            qbytes as int == utf8_len(query@),
            utf8_len(line@) + utf8_len(query@) <= usize::MAX,
            forall|a: int| 0 <= a < starts@.len() ==> starts@[a] + q@.len() <= hay@.len(),
            forall|a: int, b: int| 0 <= a < b < starts@.len() ==> starts@[a] < starts@[b],
            m <= starts.len(),
            m > 0 ==> pos as int == starts@[m - 1],
            m < starts@.len() ==> pos <= starts@[m as int],
            pos <= lv@.len(),
            bytes as int == utf8_len(lv@.take(pos as int)),
            out@ == match_ranges_spec(line@, query@).take(m as int),
        decreases starts.len() - m,
    {
        let target = starts[m];
        assert(target as int == occ[m as int]);
        while pos < target
            invariant
                pos <= target,
                target <= lv@.len(),
                utf8_len(lv@) <= usize::MAX,
                bytes as int == utf8_len(lv@.take(pos as int)),
            decreases target - pos,
        {
            proof {
                lemma_utf8_len_take(lv@, pos as int);
                lemma_utf8_len_prefix(lv@, pos + 1);
            }
            bytes = bytes + utf8_width_exec(lv[pos]);
            pos += 1;
        }
        proof {
            lemma_utf8_len_prefix(lv@, pos as int);
        }
        let ghost before = out@;
        out.push((bytes, bytes + qbytes));
        assert(out@ =~= match_ranges_spec(line@, query@).take(m + 1));
        m += 1;
    }
    out
}

} // verus!

verus! {

// ---------------------------------------------------------------------------
// Tail capping
// ---------------------------------------------------------------------------

/// How many lines `cap_tail` drops from the front of `len` lines to keep `max`.
pub open spec fn dropped_count(len: int, max: int) -> int {
    if len > max {
        len - max
    } else {
        0
    }
}

/// Keeps the last `max` lines; returns them and how many were dropped from the front.
pub fn cap_tail(lines: Vec<String>, max: usize) -> (r: (Vec<String>, usize))
    ensures
        r.1 as int == dropped_count(lines@.len() as int, max as int),
        r.0@ == lines@.skip(r.1 as int),
{
    let mut lines = lines;
    let dropped = lines.len().saturating_sub(max);
    if dropped > 0 {
        let tail = lines.split_off(dropped);
        return (tail, dropped);
    }
    assert(lines@.skip(0) =~= lines@);
    (lines, dropped)
}

/// The match after (or before) `cur`, wrapping around; the first (or last) when none is current.
pub open spec fn next_match_spec(len: int, cur: Option<usize>, forward: bool) -> Option<usize> {
    if len == 0 {
        None
    } else {
        Some(
            match (cur, forward) {
                (None, true) => 0,
                (None, false) => len - 1,
                (Some(i), true) => (i + 1) % len,
                (Some(i), false) => (i + len - 1) % len,
            } as usize,
        )
    }
}

/// The match after (or before) `cur`, wrapping around; the first (or last) when none is current.
pub fn next_match_index(len: usize, cur: Option<usize>, forward: bool) -> (r: Option<usize>)
    ensures
        r == next_match_spec(len as int, cur, forward),
        r matches Some(i) ==> i < len,
{
    if len == 0 {
        return None;
    }
    let r = match (cur, forward) {
        (None, true) => 0,
        (None, false) => len - 1,
        (Some(i), true) => {
            let m = i % len;
            assert((i + 1) % (len as int) == (m + 1) % (len as int)) by (nonlinear_arith)
                requires
                    m == i % len,
                    len > 0,
            ;
            (m + 1) % len
        },
        (Some(i), false) => {
            let m = i % len;
            assert((i + len - 1) % (len as int) == (m + len - 1) % (len as int)) by (nonlinear_arith)
                requires
                    m == i % len,
                    len > 0,
            ;
            assert(m < len);
            assert((m + len - 1) % (len as int) == (if m == 0 { len - 1 } else { m - 1 })) by (nonlinear_arith)
                requires
                    m < len,
                    len > 0,
            ;
            if m == 0 {
                len - 1
            } else {
                m - 1
            }
        },
    };
    Some(r)
}

// ---------------------------------------------------------------------------
// The log pane
// ---------------------------------------------------------------------------

/// Most log lines a pane keeps; a longer log keeps its tail, which is where a live job writes
/// and where a failed one usually says why.
pub const LOG_MAX_LINES: usize = 10_000;

/// Anim ticks between polls of a live job's log (the anim timer runs at ~150ms, so ≈4s).
pub const LOG_POLL_TICKS: u16 = 27;

/// Anim ticks after which an unanswered log fetch is given up on, so a lost answer can't stall
/// every later poll (≈60s).
pub const LOG_INFLIGHT_TIMEOUT_TICKS: u16 = 400;

/// Below this width the drill-in shows the log pane alone rather than beside the tree.
pub const LOG_SPLIT_MIN_WIDTH: u16 = 90;

/// Width of the stages/jobs/steps tree beside an open log pane.
pub const LOG_TREE_WIDTH: u16 = 38;

/// A scrollable log view over one job, shown beside the pipeline drill-in's tree.
///
/// The provider hands back the whole log on every call, so a poll simply replaces `lines`;
/// what the user is doing (scroll, follow, search) is carried across the replacement.
pub struct LogView {
    /// Pane title, e.g. `Logs · dotnet test` (live state is appended by the renderer).
    pub title: String,
    /// The job these lines belong to — answers for any other job are dropped.
    pub job_id: String,
    pub lines: Vec<String>,
    /// Top visible line while not following.
    pub scroll: u16,
    /// Pinned to the bottom as lines arrive. On by default for a live job.
    pub follow: bool,
    /// The job was still running at the last check, so the pane is polling.
    pub live: bool,
    /// Visible line count of the last frame, written by the renderer so scrolling can clamp.
    pub viewport: u16,
    /// The `/` prompt's text while it is open.
    pub search_input: Option<String>,
    /// The committed search, and the lines that match it.
    pub query: Option<String>,
    pub matches: Vec<usize>,
    pub match_idx: Option<usize>,
    /// A one-line status note, e.g. `first error at line 12`.
    pub note: Option<String>,
    /// The last poll failed; the lines on screen are the last good ones.
    pub fetch_failed: bool,
    /// At least one fetch has answered for this job.
    pub loaded: bool,
    /// A fetch is wanted; it is handed out once nothing else is in flight.
    pub want_fetch: bool,
    pub poll_ticks: u16,
}

pub open spec fn lit_loading() -> Seq<char> {
    seq!['L', 'o', 'a', 'd', 'i', 'n', 'g', '\u{2026}']
}

pub open spec fn lit_no_logs() -> Seq<char> {
    seq![
        '(', 'n', 'o', ' ', 'l', 'o', 'g', 's', ' ', 'r', 'e', 't', 'u', 'r', 'n', 'e', 'd', ')'
    ]
}

pub open spec fn lit_first_error_at() -> Seq<char> {
    seq![
        'f', 'i', 'r', 's', 't', ' ', 'e', 'r', 'r', 'o', 'r', ' ', 'a', 't', ' ', 'l', 'i', 'n', 'e',
        ' '
    ]
}

pub open spec fn lit_no_errors() -> Seq<char> {
    seq!['n', 'o', ' ', 'e', 'r', 'r', 'o', 'r', 's', ' ', 'f', 'o', 'u', 'n', 'd']
}

/// The lines a fetched `text` becomes: its lines, or a placeholder when it is blank.
pub open spec fn log_lines_of(text: Seq<char>) -> Seq<Seq<char>> {
    if forall|i: int| 0 <= i < text.len() ==> is_ws(#[trigger] text[i]) {
        seq![lit_no_logs()]
    } else {
        lines_of(text)
    }
}

/// The position of the first entry of `ms` at or after `k` that is at least `t`.
pub open spec fn first_at_least_from(ms: Seq<usize>, t: int, k: int) -> Option<int>
    decreases ms.len() - k,
{
    if k < 0 || k >= ms.len() {
        None
    } else if ms[k] >= t {
        Some(k)
    } else {
        first_at_least_from(ms, t, k + 1)
    }
}

pub open spec fn first_at_least(ms: Seq<usize>, t: int) -> Option<int> {
    first_at_least_from(ms, t, 0)
}

pub proof fn lemma_first_at_least_bounds(ms: Seq<usize>, t: int, k: int)
    requires
        0 <= k,
    ensures
        first_at_least_from(ms, t, k) matches Some(p) ==> k <= p < ms.len() && ms[p] >= t,
    decreases ms.len() - k,
{
    if k < ms.len() && ms[k] < t {
        lemma_first_at_least_bounds(ms, t, k + 1);
    }
}

fn first_at_least_exec(ms: &Vec<usize>, t: usize) -> (r: Option<usize>)
    ensures
        r matches Some(p) ==> first_at_least(ms@, t as int) == Some(p as int),
        r is None ==> first_at_least(ms@, t as int) is None,
{
    let mut k: usize = 0;
    while k < ms.len()
        invariant
            k <= ms.len(),
            first_at_least(ms@, t as int) == first_at_least_from(ms@, t as int, k as int),
        decreases ms.len() - k,
    {
        if ms[k] >= t {
            return Some(k);
        }
        k += 1;
    }
    None
}

/// Where `jump_to(line)` puts the top of the view: two lines above `line`, clamped.
pub open spec fn jump_scroll(line: int, max: int) -> int {
    let above = if line >= 2 {
        line - 2
    } else {
        0
    };
    if above < max {
        above
    } else {
        max
    }
}

fn literal(s: &str) -> (r: String)
    ensures
        r@ == s@,
{
    s.to_owned()
}

/// A pane as `LogView::new` opens it (its query aside): loading, asking for a fetch.
pub open spec fn opened_pane(l: LogView, title: Seq<char>, job_id: Seq<char>, live: bool) -> bool {
    &&& l.title@ == title
    &&& l.job_id@ == job_id
    &&& string_views(l.lines@) == seq![lit_loading()]
    &&& l.scroll == 0
    &&& l.follow == live
    &&& l.live == live
    &&& l.viewport == 0
    &&& l.search_input is None
    &&& l.matches@ == Seq::<usize>::empty()
    &&& l.match_idx is None
    &&& l.note is None
    &&& !l.fetch_failed
    &&& !l.loaded
    &&& l.want_fetch
    &&& l.poll_ticks == 0
}

/// What committing the `/` prompt leaves (see `LogView::commit_search`).
pub open spec fn search_committed(o: LogView, n: LogView) -> bool {
    &&& o.search_input is None ==> n == o
    &&& o.search_input matches Some(input) ==> {
        &&& n.search_input is None
        &&& n.query == (if input@.len() == 0 {
            None
        } else {
            Some(input)
        })
        &&& n.matches@ == n.matches_for()
        &&& n == (LogView {
            search_input: None,
            query: n.query,
            matches: n.matches,
            match_idx: n.match_idx,
            scroll: n.scroll,
            follow: n.follow,
            ..o
        })
        &&& if n.matches@.len() == 0 {
            n.match_idx is None && n.scroll == o.scroll
                && n.follow == o.follow
        } else {
            let idx = match first_at_least(
                n.matches@,
                o.effective_scroll_spec(),
            ) {
                Some(p) => p,
                None => 0,
            };
            &&& n.match_idx == Some(idx as usize)
            &&& !n.follow
            &&& n.scroll as int == jump_scroll(
                n.matches@[idx] as int,
                o.max_scroll_spec(),
            )
        }
    }
}

/// What `n` / `N` leaves (see `LogView::step_match`).
pub open spec fn match_stepped(o: LogView, n: LogView, forward: bool) -> bool {
    &&& ({
        let next = next_match_spec(o.matches@.len() as int, o.match_idx, forward);
        match next {
            None => n == o,
            Some(i) => {
                &&& n.match_idx == Some(i)
                &&& !n.follow
                &&& n.scroll as int == jump_scroll(
                    o.matches@[i as int] as int,
                    o.max_scroll_spec(),
                )
                &&& n.matches == o.matches
                &&& n.lines == o.lines
                &&& n == (LogView { match_idx: n.match_idx, follow: false, scroll: n.scroll, ..o })
            },
        }
    })
}

/// What `E` leaves (see `LogView::jump_first_error`).
pub open spec fn error_jumped(o: LogView, n: LogView) -> bool {
    &&& n.lines == o.lines
    &&& !n.follow
    &&& (exists|i: int| 0 <= i < o.lines@.len() && is_error_line_spec(
        #[trigger] o.lines@[i]@,
    )) ==> ({
        let i = choose|i: int|
            0 <= i < o.lines@.len() && is_error_line_spec(#[trigger] o.lines@[i]@)
                && forall|j: int| 0 <= j < i ==> !is_error_line_spec(#[trigger] o.lines@[j]@);
        &&& n.scroll as int == jump_scroll(i, o.max_scroll_spec())
        &&& n.note matches Some(t) && t@ == lit_first_error_at() + dec_nat((i + 1) as nat)
    })
    &&& !(exists|i: int| 0 <= i < o.lines@.len() && is_error_line_spec(
        #[trigger] o.lines@[i]@,
    )) ==> {
        &&& n.scroll == o.scroll
        &&& n.note matches Some(t) && t@ == lit_no_errors()
    }
    &&& n == (LogView { scroll: n.scroll, follow: false, note: n.note, ..o })
}

/// `n` is `o` scrolled by `delta` lines, clamped to the text: scrolling up stops following,
/// scrolling down never starts it.
pub open spec fn scrolled(o: LogView, n: LogView, delta: int) -> bool {
    let t = o.effective_scroll_spec() + delta;
    let m = o.max_scroll_spec();
    &&& n.scroll as int == (if t < 0 {
        0
    } else if t > m {
        m
    } else {
        t
    })
    &&& n == (LogView { scroll: n.scroll, follow: o.follow && delta >= 0, ..o })
}

/// `n` is `o` at the bottom, following.
pub open spec fn at_bottom(o: LogView, n: LogView) -> bool {
    &&& n.scroll as int == o.max_scroll_spec()
    &&& n == (LogView { scroll: n.scroll, follow: true, ..o })
}

impl LogView {
    /// The last line the top of the viewport can sit on.
    pub open spec fn max_scroll_spec(&self) -> int {
        let vp: int = if self.viewport == 0 {
            1
        } else {
            self.viewport as int
        };
        let d = self.lines@.len() - vp;
        if d <= 0 {
            0
        } else if d > u16::MAX {
            u16::MAX as int
        } else {
            d
        }
    }

    /// The top visible line: the bottom while following, else `scroll` clamped.
    pub open spec fn effective_scroll_spec(&self) -> int {
        if self.follow {
            self.max_scroll_spec()
        } else if self.scroll as int <= self.max_scroll_spec() {
            self.scroll as int
        } else {
            self.max_scroll_spec()
        }
    }

    /// The matches the committed query has in the current lines.
    pub open spec fn matches_for(&self) -> Seq<usize> {
        match self.query {
            Some(q) => find_matches_spec(string_views(self.lines@), q@),
            None => seq![],
        }
    }

    /// A pane that has asked for its first fetch. `live` decides follow's default.
    pub fn new(title: String, job_id: String, live: bool) -> (r: Self)
        ensures
            r.title == title,
            r.job_id == job_id,
            string_views(r.lines@) == seq![lit_loading()],
            r.scroll == 0,
            r.follow == live,
            r.live == live,
            r.viewport == 0,
            r.search_input is None,
            r.query is None,
            r.matches@ == Seq::<usize>::empty(),
            r.match_idx is None,
            r.note is None,
            !r.fetch_failed,
            !r.loaded,
            r.want_fetch,
            r.poll_ticks == 0,
            opened_pane(r, title@, job_id@, live),
    {
        let loading = literal("Loading…");
        proof {
            reveal_strlit("Loading…");
            assert(loading@ =~= lit_loading());
        }
        let mut lines: Vec<String> = Vec::new();
        lines.push(loading);
        assert(string_views(lines@) =~= seq![lit_loading()]);
        LogView {
            title,
            job_id,
            lines,
            scroll: 0,
            follow: live,
            live,
            viewport: 0,
            search_input: None,
            query: None,
            matches: Vec::new(),
            match_idx: None,
            note: None,
            fetch_failed: false,
            loaded: false,
            want_fetch: true,
            poll_ticks: 0,
        }
    }

    /// A finished pane already holding `lines` (tests and fixtures).
    pub fn with_lines(title: &str, job_id: &str, lines: Vec<String>) -> (r: Self)
        ensures
            r.title@ == title@,
            r.job_id@ == job_id@,
            r.lines@ == lines@,
            r.loaded,
            !r.want_fetch,
            !r.follow,
            !r.live,
            r.scroll == 0,
            r.query is None,
            r.match_idx is None,
    {
        let mut log = Self::new(literal(title), literal(job_id), false);
        log.lines = lines;
        log.loaded = true;
        log.want_fetch = false;
        log
    }

    /// Records the visible line count of the frame just drawn.
    pub fn set_viewport(&mut self, rows: u16)
        ensures
            *final(self) == (LogView { viewport: rows, ..*old(self) }),
    {
        self.viewport = rows;
    }

    /// The last line the top of the viewport can sit on. Before the first frame the viewport is
    /// unknown, so a single line is assumed.
    pub fn max_scroll(&self) -> (r: u16)
        ensures
            r as int == self.max_scroll_spec(),
    {
        let vp: usize = if self.viewport == 0 {
            1
        } else {
            self.viewport as usize
        };
        let d = self.lines.len().saturating_sub(vp);
        if d > 65535 {
            65535
        } else {
            d as u16
        }
    }

    /// Top visible line: the bottom while following, else `scroll` clamped.
    pub fn effective_scroll(&self) -> (r: u16)
        ensures
            r as int == self.effective_scroll_spec(),
            r as int <= self.max_scroll_spec(),
    {
        if self.follow {
            self.max_scroll()
        } else {
            let m = self.max_scroll();
            if self.scroll < m {
                self.scroll
            } else {
                m
            }
        }
    }

    /// Scrolls by `delta` lines. Scrolling up breaks follow; scrolling down never re-arms it
    /// (only `G`/End does).
    pub fn scroll_by(&mut self, delta: i32)
        requires
            old(self).effective_scroll_spec() + delta <= i32::MAX,
        ensures
            scrolled(*old(self), *final(self), delta as int),
    {
        let cur = self.effective_scroll() as i32;
        let m = self.max_scroll() as i32;
        let t = cur + delta;
        self.scroll = if t < 0 {
            0
        } else if t > m {
            m as u16
        } else {
            t as u16
        };
        if delta < 0 {
            self.follow = false;
        }
    }

    /// `g`/Home: the top, not following.
    pub fn scroll_top(&mut self)
        ensures
            *final(self) == (LogView { scroll: 0, follow: false, ..*old(self) }),
    {
        self.scroll = 0;
        self.follow = false;
    }

    /// `G`/End: the bottom, following again.
    pub fn scroll_bottom(&mut self)
        ensures
            at_bottom(*old(self), *final(self)),
    {
        self.scroll = self.max_scroll();
        self.follow = true;
    }

    /// Brings `line` into view with a couple of lines of context above it, and stops following.
    pub fn jump_to(&mut self, line: usize)
        ensures
            final(self).scroll as int == jump_scroll(line as int, old(self).max_scroll_spec()),
            *final(self) == (LogView { follow: false, scroll: final(self).scroll, ..*old(self) }),
    {
        self.follow = false;
        let above = line.saturating_sub(2);
        let m = self.max_scroll() as usize;
        self.scroll = if above < m {
            above as u16
        } else {
            m as u16
        };
    }

    /// Recomputes the matches of the committed query, keeping the current match in range.
    pub fn recompute_matches(&mut self)
        ensures
            final(self).matches@ == old(self).matches_for(),
            final(self).match_idx == (match old(self).match_idx {
                Some(i) => if i < final(self).matches@.len() {
                    Some(i)
                } else if final(self).matches@.len() == 0 {
                    None
                } else {
                    Some((final(self).matches@.len() - 1) as usize)
                },
                None => None,
            }),
            *final(self) == (LogView {
                matches: final(self).matches,
                match_idx: final(self).match_idx,
                ..*old(self)
            }),
    {
        self.matches = match &self.query {
            Some(q) => find_matches(self.lines.as_slice(), q.as_str()),
            None => Vec::new(),
        };
        if let Some(i) = self.match_idx {
            if i >= self.matches.len() {
                self.match_idx = if self.matches.len() == 0 {
                    None
                } else {
                    Some(self.matches.len() - 1)
                };
            }
        }
    }
}


/// The line the current match points at, if the current match index is in range.
pub open spec fn current_match_line(matches: Seq<usize>, idx: Option<usize>) -> Option<usize> {
    match idx {
        Some(i) => if i < matches.len() {
            Some(matches[i as int])
        } else {
            None
        },
        None => None,
    }
}

/// Where the current match lands after a refresh that dropped `dropped` lines from the
/// front: the first match at or below the old match's (shifted) line, else the last one.
pub open spec fn carried_match(prev: Option<usize>, matches: Seq<usize>, dropped: int) -> Option<usize> {
    match prev {
        Some(line) => if matches.len() == 0 {
            None
        } else {
            let target = if line >= dropped {
                line - dropped
            } else {
                0
            };
            match first_at_least(matches, target) {
                Some(p) => Some(p as usize),
                None => Some((matches.len() - 1) as usize),
            }
        },
        None => None,
    }
}

fn strings_of(v: &Vec<Vec<char>>) -> (r: Vec<String>)
    ensures
        string_views(r@) == views(v@),
{
    let mut r: Vec<String> = Vec::new();
    let mut i: usize = 0;
    while i < v.len()
        invariant
            i <= v.len(),
            string_views(r@) == views(v@).take(i as int),
        decreases v.len() - i,
    {
        let s = string_of(v[i].as_slice());
        assert(s@ == views(v@)[i as int]);
        let ghost old_r = r@;
        r.push(s);
        assert(string_views(r@) =~= string_views(old_r).push(s@));
        assert(views(v@).take(i + 1) =~= views(v@).take(i as int).push(views(v@)[i as int]));
        i += 1;
    }
    assert(views(v@).take(v.len() as int) =~= views(v@));
    r
}

/// The lines a fetched log text becomes (before capping).
fn log_lines(text: &str) -> (r: Vec<String>)
    ensures
        string_views(r@) == log_lines_of(text@),
{
    let v = chars_of(text);
    let mut blank = true;
    let mut i: usize = 0;
    while i < v.len()
        invariant
            i <= v.len(),
            v@ == text@,
            blank == forall|j: int| 0 <= j < i ==> is_ws(#[trigger] v@[j]),
        decreases v.len() - i,
    {
        if !crate::text::is_whitespace(v[i]) {
            blank = false;
        }
        i += 1;
    }
    if blank {
        let mut r: Vec<String> = Vec::new();
        let s = literal("(no logs returned)");
        proof {
            reveal_strlit("(no logs returned)");
            assert(s@ =~= lit_no_logs());
        }
        r.push(s);
        assert(string_views(r@) =~= seq![lit_no_logs()]);
        r
    } else {
        let ls = split_lines(v.as_slice());
        strings_of(&ls)
    }
}

/// What a fresh fetch of `text` leaves in the pane (see `LogView::set_text`).
pub open spec fn text_set(o: LogView, n: LogView, text: Seq<char>) -> bool {
    &&& ({
        let nl = log_lines_of(text);
        let dropped = dropped_count(nl.len() as int, LOG_MAX_LINES as int);
        &&& string_views(n.lines@) == nl.skip(dropped)
        &&& n.follow == o.follow
        &&& n.scroll as int == (if o.follow {
            o.scroll as int
        } else {
            let d = if dropped > u16::MAX {
                u16::MAX as int
            } else {
                dropped
            };
            if o.scroll as int >= d {
                o.scroll - d
            } else {
                0
            }
        })
        &&& n.query == o.query
        &&& n.matches@ == n.matches_for()
        &&& n.match_idx == carried_match(
            current_match_line(o.matches@, o.match_idx),
            n.matches@,
            dropped,
        )
    })
    &&& n == (LogView { lines: n.lines, scroll: n.scroll, matches: n.matches, match_idx: n.match_idx, ..o })
}

/// A pane after one anim tick of its poll schedule, and whether a fetch goes out: a
/// loaded pane on a live job counts the tick (saturating) and asks every
/// [`LOG_POLL_TICKS`], restarting the count; one whose job has just finished asks once
/// more and stops; anything else stays as it is.
pub open spec fn log_polled(l: LogView, active: bool) -> (LogView, bool) {
    if !l.loaded {
        (l, false)
    } else if active {
        let t: u16 = if l.poll_ticks == u16::MAX {
            u16::MAX
        } else {
            (l.poll_ticks + 1) as u16
        };
        if t >= LOG_POLL_TICKS {
            (LogView { live: true, poll_ticks: 0, ..l }, true)
        } else {
            (LogView { live: true, poll_ticks: t, ..l }, false)
        }
    } else if l.live {
        (LogView { live: false, ..l }, true)
    } else {
        (l, false)
    }
}

impl LogView {
    /// Replaces the lines with a fresh fetch, keeping the tail past [`LOG_MAX_LINES`], the view
    /// on the same content, and the current search match where it still exists.
    pub fn set_text(&mut self, text: &str)
        ensures
            text_set(*old(self), *final(self), text@),
    {
        let lines = log_lines(text);
        let ghost nl = log_lines_of(text@);
        let (lines, dropped) = cap_tail(lines, LOG_MAX_LINES);
        assert(string_views(lines@) =~= nl.skip(dropped as int));
        let prev_match: Option<usize> = match self.match_idx {
            Some(i) => if i < self.matches.len() {
                Some(self.matches[i])
            } else {
                None
            },
            None => None,
        };
        self.lines = lines;
        if !self.follow {
            let d: u16 = if dropped > 65535 {
                65535
            } else {
                dropped as u16
            };
            self.scroll = self.scroll.saturating_sub(d);
        }
        self.recompute_matches();
        self.match_idx = match prev_match {
            Some(line) => {
                if self.matches.len() == 0 {
                    None
                } else {
                    let target = line.saturating_sub(dropped);
                    match first_at_least_exec(&self.matches, target) {
                        Some(p) => Some(p),
                        None => Some(self.matches.len() - 1),
                    }
                }
            },
            None => None,
        };
    }

    /// Commits the `/` prompt and jumps to the first match at or below the top of the view.
    pub fn commit_search(&mut self)
        ensures
            search_committed(*old(self), *final(self)),
    {
        let input = match self.search_input.take() {
            Some(input) => input,
            None => return,
        };
        self.query = if input.as_str().is_empty() {
            None
        } else {
            Some(input)
        };
        self.match_idx = None;
        self.recompute_matches();
        if self.matches.len() == 0 {
            return;
        }
        let top = self.effective_scroll() as usize;
        let idx = match first_at_least_exec(&self.matches, top) {
            Some(p) => p,
            None => 0,
        };
        proof {
            lemma_first_at_least_bounds(self.matches@, top as int, 0);
        }
        self.match_idx = Some(idx);
        let line = self.matches[idx];
        self.jump_to(line);
    }

    /// `n` / `N`: the next / previous match, wrapping around.
    pub fn step_match(&mut self, forward: bool)
        ensures
            match_stepped(*old(self), *final(self), forward),
    {
        let idx = match next_match_index(self.matches.len(), self.match_idx, forward) {
            Some(i) => i,
            None => return,
        };
        self.match_idx = Some(idx);
        let line = self.matches[idx];
        self.jump_to(line);
    }

    /// `E`: scrolls to the first error line and says where it was.
    pub fn jump_first_error(&mut self)
        ensures
            error_jumped(*old(self), *final(self)),
    {
        match first_error_line(self.lines.as_slice()) {
            Some(i) => {
                let ghost lines = self.lines@;
                proof {
                    let c = choose|c: int|
                        0 <= c < lines.len() && is_error_line_spec(#[trigger] lines[c]@)
                            && forall|j: int| 0 <= j < c ==> !is_error_line_spec(#[trigger] lines[j]@);
                    if c < i {
                    } else if c > i {
                        assert(!is_error_line_spec(lines[i as int]@));
                    }
                    assert(c == i);
                }
                self.jump_to(i);
                let mut note = literal("first error at line ");
                proof {
                    reveal_strlit("first error at line ");
                    assert(note@ =~= lit_first_error_at());
                }
                let n = self.lines.len();
                assert(i < n);
                push_u64(&mut note, (i + 1) as u64);
                self.note = Some(note);
            },
            None => {
                self.follow = false;
                let note = literal("no errors found");
                proof {
                    reveal_strlit("no errors found");
                    assert(note@ =~= lit_no_errors());
                }
                self.note = Some(note);
            },
        }
    }

    /// One anim tick of the poll schedule; true when a fetch should go out. A live job polls
    /// every [`LOG_POLL_TICKS`]; the tick it is first seen finished asks once more, so the tail
    /// is complete, and after that nothing is polled.
    pub fn poll_step(&mut self, active: bool) -> (fetch: bool)
        ensures
            !old(self).loaded ==> !fetch && *final(self) == *old(self),
            old(self).loaded && active ==> {
                let t = if old(self).poll_ticks == u16::MAX {
                    u16::MAX as int
                } else {
                    old(self).poll_ticks + 1
                };
                &&& final(self).live
                &&& fetch == (t >= LOG_POLL_TICKS)
                &&& final(self).poll_ticks as int == (if fetch {
                    0
                } else {
                    t
                })
            },
            old(self).loaded && !active ==> {
                &&& fetch == old(self).live
                &&& !final(self).live
                &&& final(self).poll_ticks == old(self).poll_ticks
            },
            final(self).lines == old(self).lines,
            final(self).loaded == old(self).loaded,
            final(self).want_fetch == old(self).want_fetch,
            (*final(self), fetch) == log_polled(*old(self), active),
    {
        if !self.loaded {
            return false;
        }
        if active {
            self.live = true;
            self.poll_ticks = self.poll_ticks.saturating_add(1);
            if self.poll_ticks >= LOG_POLL_TICKS {
                self.poll_ticks = 0;
                return true;
            }
            false
        } else if self.live {
            self.live = false;
            true
        } else {
            false
        }
    }
}

} // verus!
