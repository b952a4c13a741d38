//! Fixed-point arithmetic.
//!
//! Every quantity of the engine is a signed 64-bit count of billionths, so that
//! `ONE` stands for 1 and the smallest positive quantity is `1` (one billionth).
//! Products and quotients round to the nearest billionth, halves upwards, and
//! every operation saturates at the ends of the 64-bit range instead of
//! overflowing.

use vstd::prelude::*;

verus! {

/// The representation of the number 1.
pub const ONE: i64 = 1_000_000_000;

/// The nearest value of the 64-bit range.
pub open spec fn saturate(v: int) -> int {
    if v < i64::MIN as int {
        i64::MIN as int
    } else if v > i64::MAX as int {
        i64::MAX as int
    } else {
        v
    }
}

/// The larger of two integers.
pub open spec fn max_int(a: int, b: int) -> int {
    if a >= b {
        a
    } else {
        b
    }
}

/// The smaller of two integers.
pub open spec fn min_int(a: int, b: int) -> int {
    if a <= b {
        a
    } else {
        b
    }
}

/// `x` raised to at least `lo`, then lowered to at most `hi`. The upper bound
/// wins where the two bounds cross.
pub open spec fn clamp_spec(x: int, lo: int, hi: int) -> int {
    min_int(max_int(x, lo), hi)
}

/// The saturated sum of two quantities.
pub open spec fn add_spec(a: int, b: int) -> int {
    saturate(a + b)
}

/// The saturated difference of two quantities.
pub open spec fn sub_spec(a: int, b: int) -> int {
    saturate(a - b)
}

/// The quotient of `n` by a positive `d`, rounded to the nearest whole
/// number, halves upwards.
pub open spec fn round_div(n: int, d: int) -> int
    recommends
        d > 0,
{
    (n + d / 2) / d
}

/// The saturated product of two quantities, rounded to the nearest billionth.
pub open spec fn mul_spec(a: int, b: int) -> int {
    saturate((a * b + ONE / 2) / (ONE as int))
}

/// The saturated quotient of two quantities, rounded to the nearest billionth.
pub open spec fn div_spec(a: int, b: int) -> int
    recommends
        b > 0,
{
    saturate(round_div(a * (ONE as int), b))
}

/// A quotient is at least `q` where the dividend is at least `q` times the
/// divisor.
pub proof fn lemma_quotient_at_least(n: int, d: int, q: int)
    requires
        d > 0,
        n >= q * d,
    ensures
        n / d >= q,
{
    vstd::arithmetic::div_mod::lemma_div_is_ordered(q * d, n, d);
    vstd::arithmetic::div_mod::lemma_div_multiples_vanish(q, d);
    assert(q * d == d * q) by (nonlinear_arith);
}

/// A quotient times its divisor is at most the dividend.
pub proof fn lemma_quotient_times_divisor(n: int, d: int)
    requires
        d > 0,
    ensures
        (n / d) * d <= n,
{
    vstd::arithmetic::div_mod::lemma_fundamental_div_mod(n, d);
    vstd::arithmetic::div_mod::lemma_mod_bound(n, d);
    assert((n / d) * d == d * (n / d)) by (nonlinear_arith);
}

/// The rounded quotient is the quotient of the doubled dividend plus the
/// divisor by the doubled divisor, rounded down.
pub proof fn lemma_round_div_doubled(n: int, d: int)
    requires
        d > 0,
    ensures
        round_div(n, d) == (2 * n + d) / (2 * d),
{
    let q = (n + d / 2) / d;
    let r = (n + d / 2) % d;
    vstd::arithmetic::div_mod::lemma_fundamental_div_mod(n + d / 2, d);
    vstd::arithmetic::div_mod::lemma_mod_bound(n + d / 2, d);
    assert(2 * n + d == q * (2 * d) + (2 * r + d % 2)) by (nonlinear_arith)
        requires
            n + d / 2 == d * q + r,
            d == 2 * (d / 2) + d % 2,
    ;
    vstd::arithmetic::div_mod::lemma_fundamental_div_mod_converse_div(
        2 * n + d,
        2 * d,
        q,
        2 * r + d % 2,
    );
}

/// The rounded quotient of a number that is not negative does not grow with
/// the divisor.
pub proof fn lemma_round_div_antitone(n: int, d1: int, d2: int)
    requires
        n >= 0,
        0 < d1 <= d2,
    ensures
        0 <= round_div(n, d2) <= round_div(n, d1),
{
    let q = round_div(n, d2);
    lemma_round_div_doubled(n, d1);
    lemma_round_div_doubled(n, d2);
    lemma_quotient_times_divisor(2 * n + d2, 2 * d2);
    lemma_quotient_at_least(2 * n + d2, 2 * d2, 0);
    assert(q * (2 * d1) <= 2 * n + d1) by (nonlinear_arith)
        requires
            q * (2 * d2) <= 2 * n + d2,
            q >= 0,
            n >= 0,
            0 < d1 <= d2,
    ;
    lemma_quotient_at_least(2 * n + d1, 2 * d1, q);
}

/// The rounded quotient keeps the order of the dividends.
pub proof fn lemma_round_div_monotone(n1: int, n2: int, d: int)
    requires
        n1 <= n2,
        d > 0,
    ensures
        round_div(n1, d) <= round_div(n2, d),
{
    vstd::arithmetic::div_mod::lemma_div_is_ordered(n1 + d / 2, n2 + d / 2, d);
}

/// The rounded quotient of a whole multiple is the multiple's factor.
pub proof fn lemma_round_div_of_multiple(q: int, d: int)
    requires
        d > 0,
    ensures
        round_div(q * d, d) == q,
{
    lemma_round_div_doubled(q * d, d);
    assert(2 * (q * d) + d == q * (2 * d) + d) by (nonlinear_arith);
    vstd::arithmetic::div_mod::lemma_fundamental_div_mod_converse_div(
        2 * (q * d) + d,
        2 * d,
        q,
        d,
    );
}

/// Multiplication by a non-negative quantity keeps the order.
pub proof fn lemma_mul_monotone(a: int, b: int, c: int)
    requires
        a <= b,
        c >= 0,
    ensures
        mul_spec(a, c) <= mul_spec(b, c),
        mul_spec(c, a) <= mul_spec(c, b),
{
    assert(a * c <= b * c) by (nonlinear_arith)
        requires
            a <= b,
            c >= 0,
    ;
    assert(c * a == a * c && c * b == b * c) by (nonlinear_arith);
}

/// A product of non-negative quantities is non-negative, and one of a
/// non-negative with a non-positive quantity is non-positive.
pub proof fn lemma_mul_sign(a: int, b: int)
    ensures
        a >= 0 && b >= 0 ==> mul_spec(a, b) >= 0,
        a >= 0 && b <= 0 ==> mul_spec(a, b) <= 0,
        a <= 0 && b >= 0 ==> mul_spec(a, b) <= 0,
{
    assert(a >= 0 && b >= 0 ==> a * b >= 0) by (nonlinear_arith);
    assert(a >= 0 && b <= 0 ==> a * b <= 0) by (nonlinear_arith);
    assert(a <= 0 && b >= 0 ==> a * b <= 0) by (nonlinear_arith);
}

/// A product with 0 is 0.
pub proof fn lemma_mul_zero(a: int)
    ensures
        mul_spec(a, 0) == 0,
        mul_spec(0, a) == 0,
{
    assert(a * 0 == 0 && 0 * a == 0) by (nonlinear_arith);
}

/// Multiplying by 1 changes nothing.
pub proof fn lemma_mul_one(a: i64)
    ensures
        mul_spec(a as int, ONE as int) == a,
        mul_spec(ONE as int, a as int) == a,
{
    assert((ONE as int) * a == a * (ONE as int)) by (nonlinear_arith);
}

/// A factor of at least 1 does not shrink a non-negative quantity, and one of
/// at most 1 does not grow it.
pub proof fn lemma_mul_by_factor(a: i64, f: int)
    requires
        a >= 0,
    ensures
        f >= ONE ==> mul_spec(a as int, f) >= a,
        0 <= f <= ONE ==> 0 <= mul_spec(a as int, f) <= a,
{
    lemma_mul_one(a);
    if f >= ONE {
        lemma_mul_monotone(ONE as int, f, a as int);
    }
    if 0 <= f <= ONE {
        lemma_mul_monotone(f, ONE as int, a as int);
        lemma_mul_sign(a as int, f);
    }
}

/// Division by a fixed positive quantity keeps the order.
pub proof fn lemma_div_monotone(a: int, b: int, d: int)
    requires
        a <= b,
        d > 0,
    ensures
        div_spec(a, d) <= div_spec(b, d),
{
    lemma_round_div_monotone(a * (ONE as int), b * (ONE as int), d);
}

/// The nearest 64-bit value of a wide integer.
pub fn saturating(v: i128) -> (r: i64)
    ensures
        r == saturate(v as int),
{
    if v < i64::MIN as i128 {
        i64::MIN
    } else if v > i64::MAX as i128 {
        i64::MAX
    } else {
        v as i64
    }
}

/// The quotient rounded towards negative infinity.
pub fn floor_div(p: i128, d: i128) -> (q: i128)
    requires
        d > 0,
    ensures
        q == (p as int) / (d as int),
{
    if p >= 0 {
        p / d
    } else {
        let m: i128 = -(p + 1);
        let k: i128 = m / d;
        proof {
            let r = (m as int) % (d as int);
            vstd::arithmetic::div_mod::lemma_fundamental_div_mod(m as int, d as int);
            vstd::arithmetic::div_mod::lemma_mod_pos_bound(m as int, d as int);
            assert(p as int == (-(k as int) - 1) * (d as int) + ((d as int) - 1 - r))
                by (nonlinear_arith)
                requires
                    m as int == (d as int) * (k as int) + r,
                    m as int == -(p as int) - 1,
            ;
            vstd::arithmetic::div_mod::lemma_fundamental_div_mod_converse_div(
                p as int,
                d as int,
                -(k as int) - 1,
                (d as int) - 1 - r,
            );
        }
        -k - 1
    }
}

/// The larger of two quantities.
pub fn max_fx(a: i64, b: i64) -> (r: i64)
    ensures
        r == max_int(a as int, b as int),
{
    if a >= b {
        a
    } else {
        b
    }
}

/// The smaller of two quantities.
pub fn min_fx(a: i64, b: i64) -> (r: i64)
    ensures
        r == min_int(a as int, b as int),
{
    if a <= b {
        a
    } else {
        b
    }
}

/// Clamps `x` into `[lo, hi]`; where `lo > hi` the result is `hi`.
pub fn clamp_fx(x: i64, lo: i64, hi: i64) -> (r: i64)
    ensures
        r == clamp_spec(x as int, lo as int, hi as int),
{
    min_fx(max_fx(x, lo), hi)
}

/// Saturating addition.
pub fn add_fx(a: i64, b: i64) -> (r: i64)
    ensures
        r == add_spec(a as int, b as int),
{
    saturating(a as i128 + b as i128)
}

/// Saturating subtraction.
pub fn sub_fx(a: i64, b: i64) -> (r: i64)
    ensures
        r == sub_spec(a as int, b as int),
{
    saturating(a as i128 - b as i128)
}

/// Saturating fixed-point multiplication, rounded to the nearest billionth.
pub fn mul_fx(a: i64, b: i64) -> (r: i64)
    ensures
        r == mul_spec(a as int, b as int),
{
    assert(-0x4000_0000_0000_0000_0000_0000_0000_0000 <= (a as int) * (b as int)
        <= 0x4000_0000_0000_0000_0000_0000_0000_0000) by (nonlinear_arith)
        requires
            -0x8000_0000_0000_0000 <= (a as int) <= 0x8000_0000_0000_0000,
            -0x8000_0000_0000_0000 <= (b as int) <= 0x8000_0000_0000_0000,
    ;
    let p: i128 = (a as i128) * (b as i128);
    saturating(floor_div(p + 500_000_000, ONE as i128))
}

/// Saturating fixed-point division by a positive quantity, rounded to the
/// nearest billionth.
pub fn div_fx(a: i64, b: i64) -> (r: i64)
    requires
        b > 0,
    ensures
        r == div_spec(a as int, b as int),
{
    let p: i128 = (a as i128) * 1_000_000_000i128;
    assert(p as int == (a as int) * (ONE as int));
    saturating(floor_div(p + (b / 2) as i128, b as i128))
}

} // verus!
