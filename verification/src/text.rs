//! Character-level text primitives: the views the rest of the library reasons
//! over (lines, whitespace-separated tokens, decimal numbers, ASCII case) and
//! executable functions proved to compute them.
use vstd::prelude::*;

verus! {

broadcast use vstd::string::axiom_spec_iter;

// ---------------------------------------------------------------------------
// Character classes
// ---------------------------------------------------------------------------

/// The Unicode `White_Space` property, which `char::is_whitespace` tests.
pub open spec fn is_ws(c: char) -> bool {
    let u = c as u32;
    ||| 0x09 <= u <= 0x0D
    ||| u == 0x20
    ||| u == 0x85
    ||| u == 0xA0
    ||| u == 0x1680
    ||| 0x2000 <= u <= 0x200A
    ||| u == 0x2028
    ||| u == 0x2029
    ||| u == 0x202F
    ||| u == 0x205F
    ||| u == 0x3000
}

/// Whether `c` has the Unicode `White_Space` property.
pub fn is_whitespace(c: char) -> (r: bool)
    ensures
        r == is_ws(c),
{
    let u = c as u32;
    (0x09 <= u && u <= 0x0D) || u == 0x20 || u == 0x85 || u == 0xA0 || u == 0x1680 || (0x2000 <= u
        && u <= 0x200A) || u == 0x2028 || u == 0x2029 || u == 0x202F || u == 0x205F || u == 0x3000
}

pub open spec fn is_ascii_digit(c: char) -> bool {
    48 <= (c as u32) <= 57
}

pub open spec fn digit_of(c: char) -> int {
    (c as u32) - 48
}

pub open spec fn is_ascii_upper(c: char) -> bool {
    65 <= (c as u32) <= 90
}

/// `char::to_ascii_lowercase`: `A`–`Z` become `a`–`z`, everything else is kept.
pub open spec fn lower_char(c: char) -> char {
    if is_ascii_upper(c) {
        ((c as u32) + 32) as char
    } else {
        c
    }
}

pub open spec fn ascii_lower(s: Seq<char>) -> Seq<char> {
    s.map_values(|c: char| lower_char(c))
}

pub fn to_ascii_lower_char(c: char) -> (r: char)
    ensures
        r == lower_char(c),
{
    let u = c as u32;
    if 65 <= u && u <= 90 {
        let l: u8 = (u + 32) as u8;
        let r = l as char;
        assert(r as u32 == u + 32);
        r
    } else {
        c
    }
}

/// The ASCII-lowercased copy of `s`.
pub fn ascii_lowercase(s: &Vec<char>) -> (r: Vec<char>)
    ensures
        r@ == ascii_lower(s@),
{
    let mut r: Vec<char> = Vec::new();
    let mut i: usize = 0;
    while i < s.len()
        invariant
            i <= s.len(),
            r@ == ascii_lower(s@.take(i as int)),
        decreases s.len() - i,
    {
        let c = to_ascii_lower_char(s[i]);
        r.push(c);
        i += 1;
        assert(ascii_lower(s@.take(i as int)) =~= ascii_lower(s@.take(i - 1)).push(lower_char(
            s@[i - 1],
        )));
    }
    assert(s@.take(s.len() as int) =~= s@);
    r
}

// ---------------------------------------------------------------------------
// Conversions between `str`, `String` and character vectors
// ---------------------------------------------------------------------------

/// The characters of `s`, in order.
pub fn chars_of(s: &str) -> (v: Vec<char>)
    ensures
        v@ == s@,
{
    let mut v: Vec<char> = Vec::new();
    for c in it: s.chars()
        invariant
            v@ == it.seq().take(it.index()),
            it.seq() == s@,
    {
        v.push(c);
    }
    v
}

/// `String::push`.
#[verifier::external_body]
pub fn push_char(s: &mut String, c: char)
    ensures
        final(s)@ == old(s)@.push(c),
{
    s.push(c);
}

/// Appends every character of `v` to `s`.
pub fn push_chars(s: &mut String, v: &[char])
    ensures
        final(s)@ == old(s)@ + v@,
{
    let mut i: usize = 0;
    while i < v.len()
        invariant
            i <= v.len(),
            s@ == old(s)@ + v@.take(i as int),
        decreases v.len() - i,
    {
        push_char(s, v[i]);
        i += 1;
        assert(old(s)@ + v@.take(i as int) =~= old(s)@ + v@.take(i - 1) + seq![v@[i - 1]]);
    }
    assert(v@.take(v.len() as int) =~= v@);
}

/// A `String` holding exactly the characters of `v`.
pub fn string_of(v: &[char]) -> (s: String)
    ensures
        s@ == v@,
{
    let mut s = String::new();
    push_chars(&mut s, v);
    s
}

/// Appends the characters of `t` to `s`.
pub fn push_str(s: &mut String, t: &str)
    ensures
        final(s)@ == old(s)@ + t@,
{
    let v = chars_of(t);
    push_chars(s, v.as_slice());
}

// ---------------------------------------------------------------------------
// Prefixes, suffixes and occurrences
// ---------------------------------------------------------------------------

pub open spec fn starts_with(s: Seq<char>, p: Seq<char>) -> bool {
    p.len() <= s.len() && s.take(p.len() as int) == p
}

pub open spec fn ends_with(s: Seq<char>, p: Seq<char>) -> bool {
    p.len() <= s.len() && s.skip(s.len() - p.len()) == p
}

/// `needle` occurs in `s` starting at position `i`.
pub open spec fn occurs_at(s: Seq<char>, needle: Seq<char>, i: int) -> bool {
    0 <= i && i + needle.len() <= s.len() && s.subrange(i, i + needle.len()) == needle
}

pub open spec fn contains(s: Seq<char>, needle: Seq<char>) -> bool {
    exists|i: int| occurs_at(s, needle, i)
}

/// Whether `needle` occurs in `s` at position `i`.
pub fn occurs_at_exec(s: &[char], needle: &[char], i: usize) -> (r: bool)
    ensures
        r == occurs_at(s@, needle@, i as int),
{
    if i > s.len() || needle.len() > s.len() - i {
        return false;
    }
    let mut k: usize = 0;
    while k < needle.len()
        invariant
            i + needle.len() <= s.len(),
            k <= needle.len(),
            forall|j: int| 0 <= j < k ==> s@[i + j] == needle@[j],
        decreases needle.len() - k,
    {
        if s[i + k] != needle[k] {
            assert(s@.subrange(i as int, i + needle.len())[k as int] != needle@[k as int]);
            return false;
        }
        k += 1;
    }
    assert(s@.subrange(i as int, i + needle.len()) =~= needle@);
    true
}

/// Whether `p` is a prefix of `s`.
pub fn starts_with_exec(s: &[char], p: &[char]) -> (r: bool)
    ensures
        r == starts_with(s@, p@),
{
    let r = occurs_at_exec(s, p, 0);
    assert(s@.subrange(0, p@.len() as int) =~= s@.take(p@.len() as int));
    r
}

/// Whether `p` is a suffix of `s`.
pub fn ends_with_exec(s: &[char], p: &[char]) -> (r: bool)
    ensures
        r == ends_with(s@, p@),
{
    if p.len() > s.len() {
        return false;
    }
    let r = occurs_at_exec(s, p, s.len() - p.len());
    assert(s@.subrange(s.len() - p.len(), s.len() as int) =~= s@.skip(s.len() - p.len()));
    r
}

/// Whether `needle` occurs anywhere in `s`.
pub fn contains_exec(s: &[char], needle: &[char]) -> (r: bool)
    ensures
        r == contains(s@, needle@),
{
    if needle.len() > s.len() {
        assert(forall|i: int| !occurs_at(s@, needle@, i));
        return false;
    }
    let limit = s.len() - needle.len();
    let mut i: usize = 0;
    loop
        invariant
            limit == s.len() - needle.len(),
            i <= limit,
            forall|j: int| 0 <= j < i ==> !occurs_at(s@, needle@, j),
        ensures
            forall|j: int| 0 <= j <= limit ==> !occurs_at(s@, needle@, j),
        decreases limit - i,
    {
        if occurs_at_exec(s, needle, i) {
            return true;
        }
        if i == limit {
            break;
        }
        i += 1;
    }
    assert(forall|j: int| !occurs_at(s@, needle@, j));
    false
}

// ---------------------------------------------------------------------------
// Whitespace-separated tokens (`str::split_whitespace`)
// ---------------------------------------------------------------------------

/// The maximal runs of non-whitespace characters of `s`, in order.
pub open spec fn ws_split(s: Seq<char>) -> Seq<Seq<char>>
    decreases s.len(),
{
    if s.len() == 0 {
        seq![]
    } else {
        let prev = ws_split(s.drop_last());
        let c = s.last();
        if is_ws(c) {
            prev
        } else if s.len() >= 2 && !is_ws(s[s.len() - 2]) {
            prev.update(prev.len() - 1, prev.last().push(c))
        } else {
            prev.push(seq![c])
        }
    }
}

pub proof fn lemma_ws_split_nonempty(s: Seq<char>)
    requires
        s.len() > 0,
        !is_ws(s.last()),
    ensures
        ws_split(s).len() > 0,
    decreases s.len(),
{
    if s.len() >= 2 && !is_ws(s[s.len() - 2]) {
        lemma_ws_split_nonempty(s.drop_last());
    }
}

pub open spec fn views(v: Seq<Vec<char>>) -> Seq<Seq<char>> {
    v.map_values(|x: Vec<char>| x@)
}

/// `str::split_whitespace`, on characters.
pub fn split_ws(s: &[char]) -> (toks: Vec<Vec<char>>)
    ensures
        views(toks@) == ws_split(s@),
{
    let mut toks: Vec<Vec<char>> = Vec::new();
    let mut i: usize = 0;
    while i < s.len()
        invariant
            i <= s.len(),
            views(toks@) == ws_split(s@.take(i as int)),
        decreases s.len() - i,
    {
        let c = s[i];
        let ghost pre = s@.take(i as int);
        let ghost cur = s@.take(i + 1);
        assert(cur.drop_last() =~= pre);
        if is_whitespace(c) {
        } else if i >= 1 && !is_whitespace(s[i - 1]) {
            proof {
                lemma_ws_split_nonempty(pre);
            }
            let mut last = toks.pop().unwrap();
            last.push(c);
            toks.push(last);
            assert(views(toks@) =~= ws_split(pre).update(ws_split(pre).len() - 1, ws_split(
                pre,
            ).last().push(c)));
        } else {
            let mut t: Vec<char> = Vec::new();
            t.push(c);
            toks.push(t);
            assert(views(toks@) =~= ws_split(pre).push(seq![c]));
        }
        i += 1;
    }
    assert(s@.take(s.len() as int) =~= s@);
    toks
}

// ---------------------------------------------------------------------------
// Lines (`str::lines`)
// ---------------------------------------------------------------------------

/// The pieces of `s` each ending just after a `\n` (the last one may not end
/// in `\n`), as `str::split_inclusive('\n')` yields them.
pub open spec fn raw_lines(s: Seq<char>) -> Seq<Seq<char>>
    decreases s.len(),
{
    if s.len() == 0 {
        seq![]
    } else {
        let prev = raw_lines(s.drop_last());
        let c = s.last();
        if s.len() == 1 || s[s.len() - 2] == '\n' {
            prev.push(seq![c])
        } else {
            prev.update(prev.len() - 1, prev.last().push(c))
        }
    }
}

pub proof fn lemma_raw_lines_nonempty(s: Seq<char>)
    requires
        s.len() > 0,
    ensures
        raw_lines(s).len() > 0,
    decreases s.len(),
{
    if s.len() >= 2 {
        lemma_raw_lines_nonempty(s.drop_last());
    }
}

/// A line without its terminator: a trailing `\n`, then a `\r` before it.
pub open spec fn strip_eol(p: Seq<char>) -> Seq<char> {
    if p.len() > 0 && p.last() == '\n' {
        let q = p.drop_last();
        if q.len() > 0 && q.last() == '\r' {
            q.drop_last()
        } else {
            q
        }
    } else {
        p
    }
}

/// The lines of `s` as `str::lines` yields them.
pub open spec fn lines_of(s: Seq<char>) -> Seq<Seq<char>> {
    raw_lines(s).map_values(|p: Seq<char>| strip_eol(p))
}

fn strip_eol_exec(p: Vec<char>) -> (r: Vec<char>)
    ensures
        r@ == strip_eol(p@),
{
    let mut q = p;
    if q.len() > 0 && q[q.len() - 1] == '\n' {
        q.pop();
        if q.len() > 0 && q[q.len() - 1] == '\r' {
            q.pop();
        }
    }
    q
}

/// `str::lines`, on characters.
pub fn split_lines(s: &[char]) -> (lines: Vec<Vec<char>>)
    ensures
        views(lines@) == lines_of(s@),
{
    let mut raw: Vec<Vec<char>> = Vec::new();
    let mut i: usize = 0;
    while i < s.len()
        invariant
            i <= s.len(),
            views(raw@) == raw_lines(s@.take(i as int)),
        decreases s.len() - i,
    {
        let c = s[i];
        let ghost pre = s@.take(i as int);
        let ghost cur = s@.take(i + 1);
        assert(cur.drop_last() =~= pre);
        if i == 0 || s[i - 1] == '\n' {
            let mut t: Vec<char> = Vec::new();
            t.push(c);
            raw.push(t);
            assert(views(raw@) =~= raw_lines(pre).push(seq![c]));
        } else {
            proof {
                lemma_raw_lines_nonempty(pre);
            }
            let mut last = raw.pop().unwrap();
            last.push(c);
            raw.push(last);
            assert(views(raw@) =~= raw_lines(pre).update(raw_lines(pre).len() - 1, raw_lines(
                pre,
            ).last().push(c)));
        }
        i += 1;
    }
    assert(s@.take(s.len() as int) =~= s@);
    let ghost rl = raw_lines(s@);
    let mut lines: Vec<Vec<char>> = Vec::new();
    let mut j: usize = 0;
    let n = raw.len();
    while j < n
        invariant
            n == rl.len(),
            j <= n,
            raw@.len() == n - j,
            forall|k: int| 0 <= k < n - j ==> #[trigger] raw@[k]@ == rl[j + k],
            views(lines@) == rl.take(j as int).map_values(|p: Seq<char>| strip_eol(p)),
        decreases n - j,
    {
        let ghost old_raw = raw@;
        let ghost old_lines = lines@;
        assert(old_raw[0]@ == rl[j as int]);
        let p = raw.remove(0);
        assert(p@ == rl[j as int]);
        let q = strip_eol_exec(p);
        lines.push(q);
        assert forall|k: int| 0 <= k < n - (j + 1) implies #[trigger] raw@[k]@ == rl[(j + 1) + k] by {
            assert(raw@[k] == old_raw[k + 1]);
        }
        assert(rl.take(j + 1) =~= rl.take(j as int).push(rl[j as int]));
        assert(views(lines@) =~= views(old_lines).push(q@));
        j += 1;
        assert(views(lines@) =~= rl.take(j as int).map_values(|p: Seq<char>| strip_eol(p)));
    }
    assert(rl.take(n as int) =~= rl);
    lines
}

// ---------------------------------------------------------------------------
// Decimal integers
// ---------------------------------------------------------------------------

pub open spec fn all_digits(s: Seq<char>) -> bool {
    forall|i: int| 0 <= i < s.len() ==> is_ascii_digit(#[trigger] s[i])
}

pub open spec fn digits_value(s: Seq<char>) -> int
    decreases s.len(),
{
    if s.len() == 0 {
        0
    } else {
        digits_value(s.drop_last()) * 10 + digit_of(s.last())
    }
}

/// What `str::parse::<i64>` accepts and yields: an optional `+` or `-`, then
/// one or more ASCII digits, whose value fits in an `i64`.
pub open spec fn parse_i64_spec(s: Seq<char>) -> Option<i64> {
    let neg = s.len() > 0 && s[0] == '-';
    let body = if s.len() > 0 && (s[0] == '-' || s[0] == '+') {
        s.drop_first()
    } else {
        s
    };
    if body.len() == 0 || !all_digits(body) {
        None
    } else {
        let v = if neg {
            -digits_value(body)
        } else {
            digits_value(body)
        };
        if i64::MIN <= v <= i64::MAX {
            Some(v as i64)
        } else {
            None
        }
    }
}

pub proof fn lemma_digits_value_nonneg(s: Seq<char>)
    requires
        all_digits(s),
    ensures
        digits_value(s) >= 0,
    decreases s.len(),
{
    if s.len() > 0 {
        assert(all_digits(s.drop_last()));
        assert(is_ascii_digit(s[s.len() - 1]));
        lemma_digits_value_nonneg(s.drop_last());
    }
}

/// The value of a digit string is at least that of any of its prefixes.
pub proof fn lemma_digits_value_prefix(s: Seq<char>, k: int)
    requires
        all_digits(s),
        0 <= k <= s.len(),
    ensures
        digits_value(s) >= digits_value(s.take(k)),
    decreases s.len(),
{
    if k < s.len() {
        assert(all_digits(s.drop_last()));
        assert(is_ascii_digit(s[s.len() - 1]));
        lemma_digits_value_nonneg(s.drop_last());
        lemma_digits_value_prefix(s.drop_last(), k);
        assert(s.drop_last().take(k) =~= s.take(k));
    } else {
        assert(s.take(k) =~= s);
    }
}

/// `str::parse::<i64>`, on characters.
pub fn parse_i64(s: &[char]) -> (r: Option<i64>)
    ensures
        r == parse_i64_spec(s@),
{
    let neg = s.len() > 0 && s[0] == '-';
    let start: usize = if s.len() > 0 && (s[0] == '-' || s[0] == '+') {
        1
    } else {
        0
    };
    let ghost body = if s@.len() > 0 && (s@[0] == '-' || s@[0] == '+') {
        s@.drop_first()
    } else {
        s@
    };
    assert(body =~= s@.skip(start as int));
    if start == s.len() {
        return None;
    }
    let bound: u64 = if neg {
        0x8000_0000_0000_0000
    } else {
        0x7FFF_FFFF_FFFF_FFFF
    };
    let mut acc: u64 = 0;
    let mut i: usize = start;
    while i < s.len()
        invariant
            start <= i <= s.len(),
            body == s@.skip(start as int),
            body == (if s@.len() > 0 && (s@[0] == '-' || s@[0] == '+') {
                s@.drop_first()
            } else {
                s@
            }),
            neg == (s@.len() > 0 && s@[0] == '-'),
            all_digits(body.take(i - start)),
            acc as int == digits_value(body.take(i - start)),
            acc <= bound,
            bound == (if neg {
                0x8000_0000_0000_0000u64
            } else {
                0x7FFF_FFFF_FFFF_FFFFu64
            }),
        decreases s.len() - i,
    {
        let c = s[i];
        let u = c as u32;
        let ghost pre = body.take(i - start);
        let ghost cur = body.take(i - start + 1);
        assert(cur.drop_last() =~= pre);
        assert(cur.last() == c);
        if u < 48 || u > 57 {
            assert(body[i - start] == c);
            assert(!is_ascii_digit(body[i - start]));
            assert(!all_digits(body));
            return None;
        }
        let d: u64 = (u - 48) as u64;
        if acc > (bound - d) / 10 {
            proof {
                assert(all_digits(cur));
                assert(digits_value(cur) == acc * 10 + d);
                assert(digits_value(cur) > bound);
                if all_digits(body) {
                    lemma_digits_value_prefix(body, i - start + 1);
                    assert(digits_value(body) > bound);
                }
            }
            return None;
        }
        acc = acc * 10 + d;
        i += 1;
        assert(all_digits(cur));
    }
    assert(body.take(s.len() - start) =~= body);
    if neg {
        if acc == 0x8000_0000_0000_0000 {
            Some(i64::MIN)
        } else {
            Some(-(acc as i64))
        }
    } else {
        Some(acc as i64)
    }
}

pub open spec fn digit_char(d: int) -> char {
    (d + 48) as char
}

/// The decimal spelling of `n`, without leading zeros.
pub open spec fn dec_nat(n: nat) -> Seq<char>
    decreases n,
{
    if n < 10 {
        seq![digit_char(n as int)]
    } else {
        dec_nat(n / 10).push(digit_char((n % 10) as int))
    }
}

/// The decimal spelling of `n` as `Display` writes it (a `-` before negatives).
pub open spec fn dec_int(n: int) -> Seq<char> {
    if n < 0 {
        seq!['-'] + dec_nat((-n) as nat)
    } else {
        dec_nat(n as nat)
    }
}

fn digit_char_exec(d: u64) -> (c: char)
    requires
        d < 10,
    ensures
        c == digit_char(d as int),
{
    let b: u8 = (48 + d) as u8;
    let c = b as char;
    assert(c as u32 == 48 + d);
    c
}

/// Appends the decimal spelling of `n`.
pub fn push_u64(s: &mut String, n: u64)
    ensures
        final(s)@ == old(s)@ + dec_nat(n as nat),
    decreases n,
{
    if n >= 10 {
        push_u64(s, n / 10);
    }
    let c = digit_char_exec(n % 10);
    push_char(s, c);
    if n >= 10 {
        assert(dec_nat(n as nat) == dec_nat((n / 10) as nat).push(c));
    }
}

/// Appends the decimal spelling of `n`.
pub fn push_u128(s: &mut String, n: u128)
    ensures
        final(s)@ == old(s)@ + dec_nat(n as nat),
    decreases n,
{
    if n >= 10 {
        push_u128(s, n / 10);
    }
    let c = digit_char_exec((n % 10) as u64);
    push_char(s, c);
    if n >= 10 {
        assert(dec_nat(n as nat) == dec_nat((n / 10) as nat).push(c));
    }
}

/// Appends the decimal spelling of `n` (with a leading `-` when negative).
pub fn push_i64(s: &mut String, n: i64)
    ensures
        final(s)@ == old(s)@ + dec_int(n as int),
{
    if n < 0 {
        push_char(s, '-');
        let m: u64 = ((-(n + 1)) as u64) + 1;
        push_u64(s, m);
        assert(old(s)@.push('-') + dec_nat(m as nat) =~= old(s)@ + (seq!['-'] + dec_nat(m as nat)));
    } else {
        push_u64(s, n as u64);
    }
}

/// The decimal spelling of `n`.
pub fn u64_text(n: u64) -> (s: String)
    ensures
        s@ == dec_nat(n as nat),
{
    let mut s = String::new();
    push_u64(&mut s, n);
    assert(Seq::<char>::empty() + dec_nat(n as nat) =~= dec_nat(n as nat));
    s
}

/// The decimal spelling of `n`.
pub fn i64_text(n: i64) -> (s: String)
    ensures
        s@ == dec_int(n as int),
{
    let mut s = String::new();
    push_i64(&mut s, n);
    assert(Seq::<char>::empty() + dec_int(n as int) =~= dec_int(n as int));
    s
}


// ---------------------------------------------------------------------------
// Unicode case and quick-filter matching
// ---------------------------------------------------------------------------

/// What `str::to_lowercase` gives for `s` (full Unicode lowercase mapping).
pub uninterp spec fn lowercase(s: Seq<char>) -> Seq<char>;

/// `str::to_lowercase`: the result is a function of `s` alone, named `lowercase`; the
/// Unicode tables it follows are not restated here.
#[verifier::external_body]
pub fn to_lowercase(s: &str) -> (r: String)
    ensures
        r@ == lowercase(s@),
{
    s.to_lowercase()
}

/// Whether two strings hold the same characters.
pub fn str_eq(a: &str, b: &str) -> (r: bool)
    ensures
        r == (a@ == b@),
{
    let x = a.to_owned();
    let y = b.to_owned();
    x == y
}

/// Every whitespace-separated token of `q` occurs somewhere in `hay`.
pub open spec fn all_tokens_in(hay: Seq<char>, q: Seq<char>) -> bool {
    forall|i: int| 0 <= i < ws_split(q).len() ==> contains(hay, #[trigger] ws_split(q)[i])
}

/// A quick filter over `hay`: an empty query matches everything, otherwise every token of
/// `q` (already lowercased) must occur in the lowercased `hay`.
pub open spec fn query_matches(hay: Seq<char>, q: Seq<char>) -> bool {
    q.len() == 0 || all_tokens_in(lowercase(hay), q)
}

/// Checks a quick filter `q` against the searchable text `hay` of a row.
pub fn query_match(hay: &str, q: &str) -> (r: bool)
    ensures
        r == query_matches(hay@, q@),
{
    let qv = chars_of(q);
    if qv.len() == 0 {
        return true;
    }
    let lower = to_lowercase(hay);
    let hv = chars_of(lower.as_str());
    let toks = split_ws(qv.as_slice());
    let mut i: usize = 0;
    while i < toks.len()
        invariant
            views(toks@) == ws_split(q@),
            hv@ == lowercase(hay@),
            i <= toks@.len(),
            forall|j: int| 0 <= j < i ==> contains(hv@, #[trigger] ws_split(q@)[j]),
        decreases toks@.len() - i,
    {
        assert(toks@[i as int]@ == ws_split(q@)[i as int]);
        if !contains_exec(hv.as_slice(), toks[i].as_slice()) {
            return false;
        }
        i += 1;
    }
    true
}

/// Whether `s` is empty or whitespace only (`str::trim` leaves nothing).
pub open spec fn is_blank(s: Seq<char>) -> bool {
    forall|i: int| 0 <= i < s.len() ==> is_ws(#[trigger] s[i])
}

pub fn blank(s: &str) -> (r: bool)
    ensures
        r == is_blank(s@),
{
    let v = chars_of(s);
    let mut i: usize = 0;
    while i < v.len()
        invariant
            v@ == s@,
            i <= v@.len(),
            forall|j: int| 0 <= j < i ==> is_ws(#[trigger] s@[j]),
        decreases v@.len() - i,
    {
        if !is_whitespace(v[i]) {
            return false;
        }
        i += 1;
    }
    true
}

} // verus!
