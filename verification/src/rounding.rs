//! Rounding a ratio of two integers to the nearest integer.

use vstd::arithmetic::div_mod::{lemma_div_is_ordered, lemma_fundamental_div_mod};
use vstd::prelude::*;

verus! {

/// `x` held to the range from `low` to `high`.
pub open spec fn clip(x: int, low: int, high: int) -> int {
    if x < low {
        low
    } else if x > high {
        high
    } else {
        x
    }
}

/// The integer nearest to `num / den`; where two are equally near, the
/// larger one. It is the whole part of `num / den + 1/2`, which is that of
/// twice the numerator and the denominator over twice the denominator.
pub open spec fn round_div(num: int, den: int) -> int
    recommends
        den != 0,
{
    if den > 0 {
        (num + num + den) / (den + den)
    } else {
        (-num - num - den) / (-den - den)
    }
}

/// `round_div(num, den)` is the one integer `r` with
/// `r - 1/2 <= num / den < r + 1/2`.
pub proof fn lemma_round_div_nearest(num: int, den: int)
    requires
        den > 0,
    ensures
        2 * den * round_div(num, den) - den <= 2 * num < 2 * den * round_div(num, den) + den,
{
    let r: int = round_div(num, den);
    lemma_fundamental_div_mod(2 * num + den, 2 * den);
    assert(0 <= (2 * num + den) % (2 * den) < 2 * den) by (nonlinear_arith)
        requires
            den > 0,
    ;
    assert((2 * den) * r == 2 * den * r) by (nonlinear_arith);
}

/// No other integer is as near: an `r` within a half of `num / den`, the
/// upper half excluded, is `round_div(num, den)`.
pub proof fn lemma_round_div_unique(num: int, den: int, r: int)
    requires
        den > 0,
        2 * den * r - den <= 2 * num < 2 * den * r + den,
    ensures
        r == round_div(num, den),
{
    let q: int = round_div(num, den);
    lemma_round_div_nearest(num, den);
    assert(q == r) by (nonlinear_arith)
        requires
            den > 0,
            2 * den * r - den <= 2 * num < 2 * den * r + den,
            2 * den * q - den <= 2 * num < 2 * den * q + den,
    ;
}

/// Changing the sign of both the numerator and the denominator changes
/// nothing.
pub proof fn lemma_round_div_signs(num: int, den: int)
    requires
        den != 0,
    ensures
        round_div(num, den) == round_div(-num, -den),
{
}

/// A larger numerator over the same positive denominator rounds to no
/// smaller an integer.
pub proof fn lemma_round_div_monotonic(a: int, b: int, den: int)
    requires
        a <= b,
        den > 0,
    ensures
        round_div(a, den) <= round_div(b, den),
{
    lemma_div_is_ordered(2 * a + den, 2 * b + den, 2 * den);
}

/// A whole multiple of the denominator rounds to the multiplier.
pub proof fn lemma_round_div_multiple(k: int, den: int)
    requires
        den > 0,
    ensures
        round_div(k * den, den) == k,
{
    assert(2 * den * k - den <= 2 * (k * den) < 2 * den * k + den) by (nonlinear_arith)
        requires
            den > 0,
    ;
    lemma_round_div_unique(k * den, den, k);
}

/// A numerator between two multiples of the positive denominator rounds to
/// an integer between the two multipliers.
pub proof fn lemma_round_div_between(num: int, den: int, low: int, high: int)
    requires
        den > 0,
        low * den <= num <= high * den,
    ensures
        low <= round_div(num, den) <= high,
{
    lemma_round_div_multiple(low, den);
    lemma_round_div_multiple(high, den);
    lemma_round_div_monotonic(low * den, num, den);
    lemma_round_div_monotonic(num, high * den, den);
}

/// A numerator that is not positive, over a positive denominator, rounds to
/// an integer that is not positive.
pub proof fn lemma_round_div_not_positive(num: int, den: int)
    requires
        num <= 0,
        den > 0,
    ensures
        round_div(num, den) <= 0,
{
    lemma_round_div_multiple(0, den);
    lemma_round_div_monotonic(num, 0 * den, den);
}

/// The size of a number without its sign.
pub fn magnitude(x: i32) -> (size: u32)
    ensures
        size == if x < 0 {
            -x
        } else {
            x as int
        },
{
    if x < 0 {
        (-(x as i64)) as u32
    } else {
        x as u32
    }
}

/// The share `part / whole` of `total`, rounded to the nearest integer.
pub fn rounded_share(total: u64, part: u32, whole: u32) -> (share: u128)
    requires
        whole > 0,
    ensures
        share == round_div(total * part, whole as int),
{
    assert(total * part <= 0xffff_ffff_ffff_ffff * 0xffff_ffff) by (nonlinear_arith)
        requires
            total <= 0xffff_ffff_ffff_ffff,
            part <= 0xffff_ffff,
    ;
    let num: u128 = (total as u128) * (part as u128);
    (2 * num + whole as u128) / (2 * (whole as u128))
}

} // verus!
