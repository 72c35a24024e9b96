//! The single rounding rule of the pipeline.
//!
//! Every quantization — milliseconds to frames, blend factors to 8-bit
//! alpha — goes through round-half-up division, so that the same value
//! always lands on the same side of a boundary.

use vstd::prelude::*;

verus! {

/// `n / d` rounded half up: the unique integer nearest `n / d`, ties
/// resolved upward.
pub open spec fn round_div(n: int, d: int) -> int {
    (2 * n + d) / (2 * d)
}

pub proof fn lemma_round_div_zero(d: int)
    requires
        d >= 1,
    ensures
        round_div(0, d) == 0,
{
    assert(d / (2 * d) == 0) by (nonlinear_arith)
        requires d >= 1;
}

/// Round-half-up division never exceeds the numerator (for `d >= 1`),
/// and is monotone in the numerator.
pub proof fn lemma_round_div_le_num(n: int, d: int)
    requires
        n >= 0,
        d >= 1,
    ensures
        0 <= round_div(n, d) <= n,
{
    assert(0 <= (2 * n + d) / (2 * d) <= n) by (nonlinear_arith)
        requires n >= 0 && d >= 1;
}

pub proof fn lemma_round_div_monotone(n1: int, n2: int, d: int)
    requires
        0 <= n1 <= n2,
        d >= 1,
    ensures
        round_div(n1, d) <= round_div(n2, d),
{
    assert((2 * n1 + d) / (2 * d) <= (2 * n2 + d) / (2 * d)) by (nonlinear_arith)
        requires 0 <= n1 <= n2 && d >= 1;
}

/// If the numerator stays under `b * d`, the rounded quotient stays
/// under `b`: the bound that keeps alpha values inside a byte.
pub proof fn lemma_round_div_upper(n: int, d: int, b: int)
    requires
        d >= 1,
        b >= 1,
        0 <= n,
        2 * n < (2 * b - 1) * d,
    ensures
        round_div(n, d) < b,
{
    assert((2 * n + d) / (2 * d) < b) by (nonlinear_arith)
        requires d >= 1 && b >= 1 && 0 <= n && 2 * n < (2 * b - 1) * d;
}

/// `round(a * b / d)` computed exactly in wide intermediates.
///
/// The callers' numerators are far below `u64::MAX * 1000`, so the
/// 128-bit intermediates cannot wrap; the result bound is the caller's
/// burden, stated as a precondition.
pub fn round_mul_div(a: u64, b: u64, d: u64) -> (r: u64)
    requires
        d >= 1,
        (a as int) * (b as int) <= (u64::MAX as int) * 1000,
        round_div((a as int) * (b as int), d as int) <= u64::MAX as int,
    ensures
        r as int == round_div((a as int) * (b as int), d as int),
{
    proof {
        assert((a as int) * (b as int) >= 0) by (nonlinear_arith);
        lemma_round_div_le_num((a as int) * (b as int), d as int);
    }
    let n: u128 = (a as u128) * (b as u128);
    let q: u128 = (2 * n + (d as u128)) / (2 * (d as u128));
    q as u64
}

} // verus!
