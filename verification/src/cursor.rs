//! Cursor arithmetic shared by the lists and trees: wrapping and clamping moves.
use vstd::prelude::*;

verus! {

/// `sel + delta` wrapped into `0..len` (Euclidean remainder, so a negative sum wraps to
/// the end).
pub open spec fn wrapped(sel: int, delta: int, len: int) -> int {
    (sel + delta) % len
}

/// Wrapping forward by `delta` and back by `delta` returns to a position inside the list.
pub proof fn lemma_wrapped_back(p: int, delta: int, len: int)
    requires
        0 <= p < len,
    ensures
        0 <= wrapped(p, delta, len) < len,
        wrapped(wrapped(p, delta, len), -delta, len) == p,
{
    let q = (p + delta) % len;
    let k = (p + delta) / len;
    vstd::arithmetic::div_mod::lemma_fundamental_div_mod(p + delta, len);
    vstd::arithmetic::div_mod::lemma_mod_bound(p + delta, len);
    assert(q - delta == (-k) * len + p) by (nonlinear_arith)
        requires
            p + delta == len * k + q,
    ;
    vstd::arithmetic::div_mod::lemma_fundamental_div_mod_converse(q - delta, len, -k, p);
}

/// Moves a cursor `sel` by `delta` in a list of `len` rows, wrapping at both ends.
pub fn wrap_add(sel: usize, delta: isize, len: usize) -> (r: usize)
    requires
        len > 0,
    ensures
        r == wrapped(sel as int, delta as int, len as int),
        r < len,
{
    let x: i128 = sel as i128 + delta as i128;
    let n: u128 = len as u128;
    let r: u128 = if x >= 0 {
        (x as u128) % n
    } else {
        let m: u128 = ((-x) as u128) % n;
        proof {
            let y: int = -(x as int);
            vstd::arithmetic::div_mod::lemma_fundamental_div_mod(y, n as int);
            let q: int = y / (n as int);
            assert((x as int) == (-q) * (n as int) - m) by (nonlinear_arith)
                requires
                    y == (n as int) * q + m,
                    (x as int) == -y,
            ;
            if m == 0 {
                vstd::arithmetic::div_mod::lemma_fundamental_div_mod_converse(x as int, n as int, -q, 0);
            } else {
                assert((x as int) == (-q - 1) * (n as int) + (n - m)) by (nonlinear_arith)
                    requires
                        (x as int) == (-q) * (n as int) - m,
                ;
                vstd::arithmetic::div_mod::lemma_fundamental_div_mod_converse(
                    x as int,
                    n as int,
                    -q - 1,
                    (n - m) as int,
                );
            }
        }
        if m == 0 {
            0
        } else {
            n - m
        }
    };
    r as usize
}

/// `v` kept inside `lo..=hi`.
pub open spec fn clamped(v: int, lo: int, hi: int) -> int {
    if v < lo {
        lo
    } else if v > hi {
        hi
    } else {
        v
    }
}

/// A cursor kept inside `len` rows: past the end it moves to the last row (0 when empty).
pub open spec fn clamp_index(sel: int, len: int) -> int {
    if sel >= len {
        if len == 0 {
            0
        } else {
            len - 1
        }
    } else {
        sel
    }
}

/// Moves a cursor `sel` by `delta` inside `len` rows, stopping at either end.
pub fn clamp_add(sel: usize, delta: isize, len: usize) -> (r: usize)
    requires
        len > 0,
    ensures
        r == clamped(sel + delta, 0, len - 1),
        r < len,
{
    let x: i128 = sel as i128 + delta as i128;
    if x < 0 {
        0
    } else if x > (len - 1) as i128 {
        len - 1
    } else {
        x as usize
    }
}

} // verus!
