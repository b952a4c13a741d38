//! Exponential, logarithm and power on fixed-point quantities.
//!
//! The exponential is the compound-interest limit taken at a fixed step, with
//! the second-order term kept: `e^(-t)` is `(1 - u + u^2/2)^(2^22)` for
//! `u = t / 2^22`, computed by 22 squarings in a finer scale in which `UNIT`
//! stands for 1. The logarithm is its inverse: the largest exponent whose
//! exponential does not exceed the argument. Both are monotone by
//! construction, which is what the engine's ordering laws rest on.
//!
//! Exponents and logarithms are counted in trillionths, a thousand times finer
//! than the quantities, so that a power, which is the exponential of a
//! multiple of a logarithm, is still good to the billionth. For exponents up
//! to about 10 in magnitude the results agree with the real functions to some
//! eleven significant digits. The contracts state the exact fixed-point
//! values, their bounds and their order, not that agreement.

use vstd::prelude::*;
use vstd::arithmetic::power2::{pow2, lemma2_to64, lemma_pow2_unfold, lemma_pow2_strictly_increases};
use crate::fixed::{ONE, saturate, min_int, round_div, saturating, floor_div,
    lemma_round_div_antitone, lemma_round_div_of_multiple};

verus! {

/// The representation of 1 in the finer scale of the decay: 2^62.
pub const UNIT: u128 = 0x4000_0000_0000_0000;

/// The number of squarings of one decay.
pub const SQUARINGS: u32 = 22;

/// The representation of 1 as an exponent or a logarithm: these are counted
/// in trillionths.
pub const FINE: i64 = 1_000_000_000_000;

/// Exponents of at least this magnitude (2^22, in trillionths) decay to nothing.
pub const LN_BOUND: i64 = 4_194_304_000_000_000_000;

/// `y`, a fraction of `UNIT`, squared `k` times over, each square rounded down.
pub open spec fn squarings(y: nat, k: nat) -> nat
    decreases k,
{
    if k == 0 {
        y
    } else {
        let z = squarings(y, (k - 1) as nat);
        (z * z) / (UNIT as nat)
    }
}

/// The step of a decay in the finer scale: `t / 2^22` for `t` in trillionths.
pub open spec fn decay_step(t: nat) -> nat {
    (t * 0x100_0000_0000) / 1_000_000_000_000
}

/// `1 - u + u^2/2` in the finer scale, for the step `u` of `t`; 0 where the
/// step reaches 1.
pub open spec fn decay_start(t: nat) -> nat {
    let u = decay_step(t);
    if u >= UNIT as nat {
        0
    } else {
        (UNIT as nat - u + (u * u) / (2 * (UNIT as nat))) as nat
    }
}

/// `e^(-t)` in the finer scale, for `t` in trillionths.
pub open spec fn decay(t: nat) -> nat {
    squarings(decay_start(t), SQUARINGS as nat)
}

/// `e^t` in billionths, for `t` in trillionths, rounded to the nearest
/// billionth; saturates at the top of the range.
pub open spec fn exp_fine(t: int) -> int {
    if t <= 0 {
        (decay((-t) as nat) * (ONE as nat) + (UNIT as nat) / 2) as int / (UNIT as int)
    } else if decay(t as nat) == 0 {
        i64::MAX as int
    } else {
        min_int(round_div((ONE as int) * (UNIT as int), decay(t as nat) as int), i64::MAX as int)
    }
}

/// `e^x` in billionths, for `x` in billionths.
pub open spec fn exp_spec(x: int) -> int {
    exp_fine(1000 * x)
}

/// Whether `e^y` is at most the ratio `num / den`, for `y` in trillionths.
pub open spec fn exp_at_most(y: int, num: nat, den: nat) -> bool {
    if y <= 0 {
        decay((-y) as nat) * den <= num * (UNIT as nat)
    } else {
        decay(y as nat) * num >= (UNIT as nat) * den
    }
}

/// Whether `y` is the logarithm of `num / den` in trillionths: the largest
/// exponent whose exponential is at most the ratio.
pub open spec fn is_ln(y: int, num: nat, den: nat) -> bool {
    &&& -(LN_BOUND as int) <= y < LN_BOUND as int
    &&& exp_at_most(y, num, den)
    &&& !exp_at_most(y + 1, num, den)
}

/// The natural logarithm of `num / den`, in trillionths.
pub open spec fn ln_spec(num: nat, den: nat) -> int
    recommends
        num > 0,
        den > 0,
{
    choose|y: int| is_ln(y, num, den)
}

/// The logarithm of `n / p` in trillionths, for a whole number `n` and a power
/// of two `p`: the logarithm of 2 for each doubling of `p` that `n` still
/// reaches, and the logarithm of the remaining ratio, which lies between 1 and 2.
pub open spec fn ln_scaled(n: nat, p: nat) -> int
    decreases n - p,
{
    if p > 0 && 2 * p <= n {
        ln_spec(2, 1) + ln_scaled(n, 2 * p)
    } else {
        ln_spec(n, p)
    }
}

/// The natural logarithm of a whole number, in trillionths. It keeps its
/// precision over the whole 64-bit range, where the exponential of the
/// logarithm itself would be too small to tell apart from 0.
pub open spec fn ln_count(n: nat) -> int {
    ln_scaled(n, 1)
}

/// `x` to the power `e`, both in billionths. A base below 0 counts as 0, and
/// 0 to a negative power is the top of the range.
pub open spec fn pow_spec(x: int, e: int) -> int {
    if x <= 0 {
        if e > 0 {
            0
        } else if e == 0 {
            ONE as int
        } else {
            i64::MAX as int
        }
    } else {
        exp_fine((e * ln_spec(x as nat, ONE as nat)) / (ONE as int))
    }
}

/// A quantity in billionths times a logarithm in trillionths, rounded to the
/// nearest billionth and saturated.
pub open spec fn mul_fine_spec(l: int, q: int) -> int {
    saturate((l * q + FINE / 2) / (FINE as int))
}

/// Squaring keeps the order.
pub proof fn lemma_squarings_monotone(a: nat, b: nat, k: nat)
    requires
        a <= b,
    ensures
        squarings(a, k) <= squarings(b, k),
    decreases k,
{
    if k > 0 {
        lemma_squarings_monotone(a, b, (k - 1) as nat);
        let x = squarings(a, (k - 1) as nat);
        let y = squarings(b, (k - 1) as nat);
        assert(x * x <= y * y) by (nonlinear_arith)
            requires
                x <= y,
        ;
    }
}

/// Squaring a fraction never grows it, and 0 and `UNIT` stay where they are.
pub proof fn lemma_squarings_shrink(y: nat, k: nat)
    requires
        y <= UNIT,
    ensures
        squarings(y, k) <= y,
        y == UNIT ==> squarings(y, k) == UNIT,
        y == 0 ==> squarings(y, k) == 0,
    decreases k,
{
    if k > 0 {
        lemma_squarings_shrink(y, (k - 1) as nat);
        let z = squarings(y, (k - 1) as nat);
        assert(z * z <= z * (UNIT as nat)) by (nonlinear_arith)
            requires
                z <= UNIT as nat,
        ;
        assert((z * (UNIT as nat)) / (UNIT as nat) == z) by (nonlinear_arith);
        if y == UNIT {
            assert(z * z == (UNIT as nat) * (UNIT as nat));
        }
        if y == 0 {
            assert(z * z == 0) by (nonlinear_arith)
                requires
                    z == 0,
            ;
        }
    }
}

/// Squaring `k` times takes from a fraction no more than `2^k` times what it
/// lacks to `UNIT`.
pub proof fn lemma_squarings_lower(a: nat, k: nat)
    requires
        a <= UNIT,
    ensures
        squarings((UNIT as nat - a) as nat, k) + pow2(k) * a >= UNIT,
    decreases k,
{
    if k == 0 {
        lemma2_to64();
    } else {
        lemma_squarings_lower(a, (k - 1) as nat);
        lemma_pow2_unfold(k);
        let z = squarings((UNIT as nat - a) as nat, (k - 1) as nat);
        let b = pow2((k - 1) as nat) * a;
        assert(pow2(k) * a == 2 * b) by (nonlinear_arith)
            requires
                pow2(k) == 2 * pow2((k - 1) as nat),
                b == pow2((k - 1) as nat) * a,
        ;
        if 2 * b < UNIT as nat {
            let c: int = UNIT as int - 2 * b;
            assert(z * z >= c * (UNIT as int)) by (nonlinear_arith)
                requires
                    z + b >= UNIT as int,
                    2 * b < UNIT as int,
                    c == UNIT as int - 2 * b,
            ;
            vstd::arithmetic::div_mod::lemma_div_is_ordered(
                c * (UNIT as int),
                (z * z) as int,
                UNIT as int,
            );
            assert((c * (UNIT as int)) / (UNIT as int) == c) by (nonlinear_arith);
        }
    }
}

/// One squaring step of the upper bound: if `z` is at most `m / (1 + a/m)`,
/// its rounded square is at most `m / (1 + 2a/m)`.
proof fn lemma_square_step(z: int, sq: int, a: int, m: int)
    requires
        m > 0,
        a >= 0,
        z >= 0,
        sq >= 0,
        sq * m <= z * z,
        z * (m + a) <= m * m,
    ensures
        sq * (m + 2 * a) <= m * m,
{
    let w = z * (m + a);
    assert(w * w <= (m * m) * (m * m)) by (nonlinear_arith)
        requires
            0 <= w <= m * m,
    ;
    assert(w * w == (z * z) * ((m + a) * (m + a))) by (nonlinear_arith)
        requires
            w == z * (m + a),
    ;
    assert(m * (m + 2 * a) <= (m + a) * (m + a)) by (nonlinear_arith);
    assert((z * z) * (m * (m + 2 * a)) <= (z * z) * ((m + a) * (m + a))) by (nonlinear_arith)
        requires
            m * (m + 2 * a) <= (m + a) * (m + a),
            z * z >= 0,
    ;
    assert((sq * m) * (m * (m + 2 * a)) <= (z * z) * (m * (m + 2 * a))) by (nonlinear_arith)
        requires
            sq * m <= z * z,
            m * (m + 2 * a) >= 0,
    ;
    let t = sq * (m + 2 * a);
    assert((sq * m) * (m * (m + 2 * a)) == t * (m * m)) by (nonlinear_arith)
        requires
            t == sq * (m + 2 * a),
    ;
    assert(t <= m * m) by (nonlinear_arith)
        requires
            t * (m * m) <= (m * m) * (m * m),
            m > 0,
    ;
}

/// Squaring `k` times leaves of `1 - u` at most `1 / (1 + 2^k u)`, in the
/// finer scale.
pub proof fn lemma_squarings_upper(u: nat, k: nat)
    requires
        u <= UNIT,
    ensures
        squarings((UNIT as nat - u) as nat, k) * (UNIT as nat + pow2(k) * u) <= (UNIT as nat) * (
        UNIT as nat),
    decreases k,
{
    let m = UNIT as int;
    if k == 0 {
        lemma2_to64();
        assert((m - u) * (m + 1 * u) <= m * m) by (nonlinear_arith);
    } else {
        lemma_squarings_upper(u, (k - 1) as nat);
        lemma_pow2_unfold(k);
        let z = squarings((UNIT as nat - u) as nat, (k - 1) as nat) as int;
        let a = (pow2((k - 1) as nat) * u) as int;
        let sq = (z * z) / m;
        assert(pow2(k) * u == 2 * a) by (nonlinear_arith)
            requires
                pow2(k) == 2 * pow2((k - 1) as nat),
                a == pow2((k - 1) as nat) * u,
        ;
        assert(z * z >= 0) by (nonlinear_arith);
        vstd::arithmetic::div_mod::lemma_fundamental_div_mod(z * z, m);
        vstd::arithmetic::div_mod::lemma_mod_pos_bound(z * z, m);
        assert(sq * m == m * sq) by (nonlinear_arith);
        vstd::arithmetic::div_mod::lemma_div_pos_is_pos(z * z, m);
        lemma_square_step(z, sq, a, m);
    }
}

/// The start of a decay is a fraction, is `UNIT` for no step, is below
/// `UNIT` for any step, and does not grow with the step.
pub proof fn lemma_decay_start(s: nat, t: nat)
    requires
        s <= t,
    ensures
        decay_start(t) <= decay_start(s) <= UNIT,
        decay_step(s) == 0 ==> decay_start(s) == UNIT,
        decay_step(s) > 0 ==> decay_start(s) < UNIT,
{
    let u1 = decay_step(s) as int;
    let u2 = decay_step(t) as int;
    assert(u1 <= u2) by {
        vstd::arithmetic::div_mod::lemma_div_is_ordered(
            (s * 0x100_0000_0000) as int,
            (t * 0x100_0000_0000) as int,
            1_000_000_000_000,
        );
    }
    if u1 < 0x4000_0000_0000_0000 {
        let a1 = u1 * u1;
        assert(0 <= a1 <= u1 * 0x8000_0000_0000_0000 - u1) by (nonlinear_arith)
            requires
                0 <= u1 < 0x4000_0000_0000_0000,
                a1 == u1 * u1,
        ;
        assert(a1 / 0x8000_0000_0000_0000 <= u1);
        assert(u1 > 0 ==> a1 / 0x8000_0000_0000_0000 < u1);
        assert((decay_step(s) * decay_step(s)) / (2 * (UNIT as nat)) == a1 / 0x8000_0000_0000_0000);
        if u2 < 0x4000_0000_0000_0000 {
            let a2 = u2 * u2;
            let gap = u2 - u1;
            assert(0 <= a2 <= a1 + gap * 0x8000_0000_0000_0000) by (nonlinear_arith)
                requires
                    0 <= u1 <= u2 < 0x4000_0000_0000_0000,
                    gap == u2 - u1,
                    a1 == u1 * u1,
                    a2 == u2 * u2,
            ;
            assert(a2 / 0x8000_0000_0000_0000 <= a1 / 0x8000_0000_0000_0000 + gap);
            assert((decay_step(t) * decay_step(t)) / (2 * (UNIT as nat)) == a2
                / 0x8000_0000_0000_0000);
        }
    }
}

/// The decay is a fraction, is `UNIT` at 0, is below `UNIT` elsewhere, and is
/// 0 from `LN_BOUND` on.
pub proof fn lemma_decay_bounds(t: nat)
    ensures
        decay(t) <= UNIT,
        t == 0 ==> decay(t) == UNIT,
        t > 0 ==> decay(t) < UNIT,
        t >= LN_BOUND ==> decay(t) == 0,
{
    lemma_decay_start(t, t);
    lemma_squarings_shrink(decay_start(t), SQUARINGS as nat);
}

/// A longer decay leaves no more.
pub proof fn lemma_decay_antitone(s: nat, t: nat)
    requires
        s <= t,
    ensures
        decay(t) <= decay(s),
{
    lemma_decay_start(s, t);
    lemma_squarings_monotone(decay_start(t), decay_start(s), SQUARINGS as nat);
}

/// The exponential is within the 64-bit range, is 1 at 0, at most 1 below 0
/// and at least 1 above.
pub proof fn lemma_exp_fine_bounds(t: int)
    ensures
        0 <= exp_fine(t) <= i64::MAX,
        t == 0 ==> exp_fine(t) == ONE,
        t <= 0 ==> exp_fine(t) <= ONE,
        t >= 0 ==> exp_fine(t) >= ONE,
{
    if t <= 0 {
        let d = decay((-t) as nat);
        lemma_decay_bounds((-t) as nat);
        assert(d * (ONE as nat) <= (UNIT as nat) * (ONE as nat)) by (nonlinear_arith)
            requires
                d <= UNIT as nat,
        ;
    } else {
        let d = decay(t as nat) as int;
        lemma_decay_bounds(t as nat);
        if d > 0 {
            let c = (ONE as int) * (UNIT as int);
            lemma_round_div_antitone(c, d, UNIT as int);
            lemma_round_div_of_multiple(ONE as int, UNIT as int);
        }
    }
}

/// The exponential keeps the order.
pub proof fn lemma_exp_fine_monotone(s: int, t: int)
    requires
        s <= t,
    ensures
        exp_fine(s) <= exp_fine(t),
{
    lemma_exp_fine_bounds(s);
    lemma_exp_fine_bounds(t);
    if t <= 0 {
        lemma_decay_antitone((-t) as nat, (-s) as nat);
        let ds = decay((-s) as nat);
        let dt = decay((-t) as nat);
        assert(ds * (ONE as nat) <= dt * (ONE as nat)) by (nonlinear_arith)
            requires
                ds <= dt,
        ;
    } else if s > 0 {
        lemma_decay_antitone(s as nat, t as nat);
        let ds = decay(s as nat) as int;
        let dt = decay(t as nat) as int;
        if dt > 0 {
            lemma_round_div_antitone((ONE as int) * (UNIT as int), dt, ds);
        }
    }
}

/// The exponential of a quantity is within the 64-bit range, is 1 at 0, at
/// most 1 below 0 and at least 1 above.
pub proof fn lemma_exp_bounds(x: int)
    ensures
        0 <= exp_spec(x) <= i64::MAX,
        x == 0 ==> exp_spec(x) == ONE,
        x <= 0 ==> exp_spec(x) <= ONE,
        x >= 0 ==> exp_spec(x) >= ONE,
{
    lemma_exp_fine_bounds(1000 * x);
}

/// The exponential of a quantity keeps the order.
pub proof fn lemma_exp_monotone(x: int, y: int)
    requires
        x <= y,
    ensures
        exp_spec(x) <= exp_spec(y),
{
    lemma_exp_fine_monotone(1000 * x, 1000 * y);
}

/// If `e^y2` is at most a ratio, so is `e^y1` for every smaller `y1`.
pub proof fn lemma_exp_at_most_downward(y1: int, y2: int, num: nat, den: nat)
    requires
        y1 <= y2,
        exp_at_most(y2, num, den),
    ensures
        exp_at_most(y1, num, den),
{
    if y2 <= 0 {
        lemma_decay_antitone((-y2) as nat, (-y1) as nat);
        let d1 = decay((-y1) as nat);
        let d2 = decay((-y2) as nat);
        assert(d1 * den <= d2 * den) by (nonlinear_arith)
            requires
                d1 <= d2,
        ;
    } else if y1 > 0 {
        lemma_decay_antitone(y1 as nat, y2 as nat);
        let d1 = decay(y1 as nat);
        let d2 = decay(y2 as nat);
        assert(d2 * num <= d1 * num) by (nonlinear_arith)
            requires
                d2 <= d1,
        ;
    } else {
        let d1 = decay((-y1) as nat);
        let d2 = decay(y2 as nat);
        lemma_decay_bounds((-y1) as nat);
        lemma_decay_bounds(y2 as nat);
        assert(d2 * num <= (UNIT as nat) * num) by (nonlinear_arith)
            requires
                d2 <= UNIT as nat,
        ;
        assert(d1 * den <= (UNIT as nat) * den) by (nonlinear_arith)
            requires
                d1 <= UNIT as nat,
        ;
        assert((UNIT as nat) * num == num * (UNIT as nat)) by (nonlinear_arith);
    }
}

/// If `e^y` is at most a ratio, it is at most every larger ratio of the same
/// denominator.
pub proof fn lemma_exp_at_most_upward(y: int, num1: nat, num2: nat, den: nat)
    requires
        num1 <= num2,
        exp_at_most(y, num1, den),
    ensures
        exp_at_most(y, num2, den),
{
    if y <= 0 {
        assert(num1 * (UNIT as nat) <= num2 * (UNIT as nat)) by (nonlinear_arith)
            requires
                num1 <= num2,
        ;
    } else {
        let d = decay(y as nat);
        assert(d * num1 <= d * num2) by (nonlinear_arith)
            requires
                num1 <= num2,
        ;
    }
}

/// Between an exponent whose exponential is at most the ratio and a larger
/// one whose exponential is not, some exponent is the logarithm.
proof fn lemma_ln_between(lo: int, hi: int, num: nat, den: nat)
    requires
        -(LN_BOUND as int) <= lo < hi <= LN_BOUND as int,
        exp_at_most(lo, num, den),
        !exp_at_most(hi, num, den),
    ensures
        exists|y: int| is_ln(y, num, den),
    decreases hi - lo,
{
    if !exp_at_most(lo + 1, num, den) {
        assert(is_ln(lo, num, den));
    } else {
        lemma_ln_between(lo + 1, hi, num, den);
    }
}

/// At the lower end of the search the exponential is at most any ratio of
/// positive numbers, and at the upper end it is not.
pub proof fn lemma_ln_ends(num: nat, den: nat)
    requires
        num > 0,
        den > 0,
    ensures
        exp_at_most(-(LN_BOUND as int), num, den),
        !exp_at_most(LN_BOUND as int, num, den),
{
    lemma_decay_bounds(LN_BOUND as nat);
    assert(0 * den == 0 && 0 * num == 0) by (nonlinear_arith);
    assert((UNIT as nat) * den > 0) by (nonlinear_arith)
        requires
            den > 0,
    ;
    assert(num * (UNIT as nat) >= 0) by (nonlinear_arith);
}

/// Every ratio of positive numbers has a logarithm.
pub proof fn lemma_ln_exists(num: nat, den: nat)
    requires
        num > 0,
        den > 0,
    ensures
        is_ln(ln_spec(num, den), num, den),
{
    lemma_ln_ends(num, den);
    lemma_ln_between(-(LN_BOUND as int), LN_BOUND as int, num, den);
}

/// A ratio has one logarithm only.
pub proof fn lemma_ln_unique(y: int, num: nat, den: nat)
    requires
        is_ln(y, num, den),
    ensures
        y == ln_spec(num, den),
{
    let z = ln_spec(num, den);
    assert(is_ln(z, num, den));
    if y < z {
        lemma_exp_at_most_downward(y + 1, z, num, den);
    } else if z < y {
        lemma_exp_at_most_downward(z + 1, y, num, den);
    }
}

/// The logarithm keeps the order of the numerators.
pub proof fn lemma_ln_monotone(num1: nat, num2: nat, den: nat)
    requires
        0 < num1 <= num2,
        den > 0,
    ensures
        ln_spec(num1, den) <= ln_spec(num2, den),
{
    let y1 = ln_spec(num1, den);
    let y2 = ln_spec(num2, den);
    lemma_ln_exists(num1, den);
    lemma_ln_exists(num2, den);
    if y2 < y1 {
        lemma_exp_at_most_upward(y1, num1, num2, den);
        lemma_exp_at_most_downward(y2 + 1, y1, num2, den);
    }
}

/// The logarithm of a ratio of at least 1 is not negative, that of a smaller
/// ratio is negative, and that of 1 is 0.
pub proof fn lemma_ln_sign(num: nat, den: nat)
    requires
        num > 0,
        den > 0,
    ensures
        num >= den ==> ln_spec(num, den) >= 0,
        num < den ==> ln_spec(num, den) < 0,
        num == den ==> ln_spec(num, den) == 0,
{
    let y = ln_spec(num, den);
    lemma_ln_exists(num, den);
    lemma_decay_bounds(0);
    assert(num >= den <==> (UNIT as nat) * den <= num * (UNIT as nat)) by (nonlinear_arith);
    if num >= den {
        assert(exp_at_most(0, num, den));
        if y < 0 {
            lemma_exp_at_most_downward(y + 1, 0, num, den);
        }
    } else {
        assert(!exp_at_most(0, num, den));
        if y >= 0 {
            lemma_exp_at_most_downward(0, y, num, den);
        }
    }
    if num == den {
        lemma_decay_bounds(1);
        let d = decay(1);
        assert(d * num < (UNIT as nat) * den) by (nonlinear_arith)
            requires
                d < UNIT as nat,
                num == den,
                num > 0,
        ;
        assert(!exp_at_most(1, num, den));
        if y >= 1 {
            lemma_exp_at_most_downward(1, y, num, den);
        }
    }
}

/// The first step leaves `UNIT` less 1 to start from.
proof fn lemma_first_step()
    ensures
        decay_step(1) == 1,
        decay_start(1) == UNIT - 1,
{
    let u = decay_step(1);
    assert(u == 1);
    assert(u * u == 1) by (nonlinear_arith)
        requires
            u == 1,
    ;
    assert(2 * (UNIT as nat) == 0x8000_0000_0000_0000);
    assert(1nat / 0x8000_0000_0000_0000nat == 0);
    assert((u * u) / (2 * (UNIT as nat)) == 0);
}

/// The logarithm of a ratio of at least 2 is positive.
pub proof fn lemma_ln_positive(num: nat, den: nat)
    requires
        den > 0,
        num >= 2 * den,
    ensures
        ln_spec(num, den) >= 1,
{
    let y = ln_spec(num, den);
    lemma_ln_exists(num, den);
    lemma_first_step();
    lemma_squarings_lower(1, SQUARINGS as nat);
    lemma2_to64();
    let d = decay(1);
    assert(d * num >= (UNIT as nat) * den) by (nonlinear_arith)
        requires
            d >= 0x2000_0000_0000_0000,
            num >= 2 * den,
            UNIT == 0x4000_0000_0000_0000,
    ;
    assert(exp_at_most(1, num, den));
    if y < 1 {
        lemma_exp_at_most_downward(y + 1, 1, num, den);
    }
}

/// The logarithm of a ratio of at most 2 is below 2.
pub proof fn lemma_ln_below_two(num: nat, den: nat)
    requires
        den > 0,
        0 < num <= 2 * den,
    ensures
        ln_spec(num, den) < 2 * FINE,
{
    let y = ln_spec(num, den);
    lemma_ln_exists(num, den);
    let d = decay(2_000_000_000_000);
    let u = decay_step(2_000_000_000_000);
    assert(u == 0x200_0000_0000);
    assert(u * u == 0x4_0000_0000_0000_0000_0000) by (nonlinear_arith)
        requires
            u == 0x200_0000_0000,
    ;
    assert(2 * (UNIT as nat) == 0x8000_0000_0000_0000);
    assert(0x4_0000_0000_0000_0000_0000nat / 0x8000_0000_0000_0000nat == 0x8_0000);
    assert((u * u) / (2 * (UNIT as nat)) == 0x8_0000);
    assert(decay_start(2_000_000_000_000) == UNIT - 0x1ff_fff8_0000);
    lemma_squarings_upper(0x1ff_fff8_0000, SQUARINGS as nat);
    lemma2_to64();
    assert(d * 5 <= 2 * (UNIT as nat)) by (nonlinear_arith)
        requires
            d * ((UNIT as nat) + 0x40_0000 * 0x1ff_fff8_0000) <= (UNIT as nat) * (UNIT as nat),
            UNIT == 0x4000_0000_0000_0000,
    ;
    assert(d * num < (UNIT as nat) * den) by (nonlinear_arith)
        requires
            d * 5 <= 2 * (UNIT as nat),
            num <= 2 * den,
            den > 0,
            UNIT == 0x4000_0000_0000_0000,
    ;
    assert(!exp_at_most(2_000_000_000_000, num, den));
    if y >= 2_000_000_000_000 {
        lemma_exp_at_most_downward(2_000_000_000_000, y, num, den);
    }
}

/// The scaled logarithm is not negative where `n` reaches `p`, and positive
/// where it reaches twice `p`.
pub proof fn lemma_ln_scaled_sign(n: nat, p: nat)
    requires
        0 < p <= n,
    ensures
        ln_scaled(n, p) >= 0,
        2 * p <= n ==> ln_scaled(n, p) >= 1,
    decreases n - p,
{
    if 2 * p <= n {
        lemma_ln_scaled_sign(n, 2 * p);
        lemma_ln_positive(2, 1);
    } else {
        lemma_ln_sign(n, p);
    }
}

/// A power is within the non-negative 64-bit range.
pub proof fn lemma_pow_bounds(x: int, e: int)
    ensures
        0 <= pow_spec(x, e) <= i64::MAX,
{
    if x > 0 {
        lemma_exp_fine_bounds((e * ln_spec(x as nat, ONE as nat)) / (ONE as int));
    }
}

/// A power with a non-negative exponent keeps the order of the bases.
pub proof fn lemma_pow_monotone(x1: int, x2: int, e: int)
    requires
        x1 <= x2,
        e >= 0,
    ensures
        pow_spec(x1, e) <= pow_spec(x2, e),
{
    lemma_pow_bounds(x1, e);
    lemma_pow_bounds(x2, e);
    if x1 > 0 {
        lemma_ln_monotone(x1 as nat, x2 as nat, ONE as nat);
        let l1 = ln_spec(x1 as nat, ONE as nat);
        let l2 = ln_spec(x2 as nat, ONE as nat);
        assert(e * l1 <= e * l2) by (nonlinear_arith)
            requires
                l1 <= l2,
                e >= 0,
        ;
        lemma_exp_fine_monotone((e * l1) / (ONE as int), (e * l2) / (ONE as int));
    } else if x2 > 0 && e == 0 {
        let l2 = ln_spec(x2 as nat, ONE as nat);
        assert(0 * l2 == 0) by (nonlinear_arith);
        lemma_exp_fine_bounds(0);
    }
}

/// A logarithm that is not negative, times a quantity that is not negative,
/// is not negative, and the product keeps the order of the logarithms.
pub proof fn lemma_mul_fine(l1: int, l2: int, q: int)
    requires
        l1 <= l2,
        q >= 0,
    ensures
        mul_fine_spec(l1, q) <= mul_fine_spec(l2, q),
        l1 >= 0 ==> mul_fine_spec(l1, q) >= 0,
{
    assert(l1 * q <= l2 * q) by (nonlinear_arith)
        requires
            l1 <= l2,
            q >= 0,
    ;
    assert(l1 >= 0 ==> l1 * q >= 0) by (nonlinear_arith)
        requires
            q >= 0,
    ;
}

/// `e^(-t)` in the finer scale, for `t` in trillionths.
pub fn decay_fx(t: u64) -> (d: u128)
    ensures
        d == decay(t as nat),
        d <= UNIT,
{
    let u: u128 = (t as u128 * 0x100_0000_0000u128) / 1_000_000_000_000u128;
    let mut y: u128 = if u >= UNIT {
        0
    } else {
        assert(u * u <= (UNIT as nat) * (UNIT as nat)) by (nonlinear_arith)
            requires
                u <= UNIT as nat,
        ;
        proof {
            lemma_decay_start(t as nat, t as nat);
        }
        UNIT - u + (u * u) / (2 * UNIT)
    };
    let ghost start = y as nat;
    let mut i: u32 = 0;
    proof {
        lemma_decay_start(t as nat, t as nat);
    }
    while i < SQUARINGS
        invariant
            i <= SQUARINGS,
            start == decay_start(t as nat),
            start <= UNIT,
            y == squarings(start, i as nat),
        decreases SQUARINGS - i,
    {
        proof {
            lemma_squarings_shrink(start, i as nat);
            assert(y * y <= (UNIT as nat) * (UNIT as nat)) by (nonlinear_arith)
                requires
                    y <= UNIT as nat,
            ;
        }
        y = (y * y) / UNIT;
        i = i + 1;
    }
    proof {
        lemma_squarings_shrink(start, SQUARINGS as nat);
    }
    y
}

/// `e^t` in billionths, for `t` in trillionths, saturating at the top of the
/// range.
pub fn exp_fine_fx(t: i128) -> (r: i64)
    ensures
        r == exp_fine(t as int),
{
    if t <= 0 {
        proof {
            lemma_decay_bounds((-t) as nat);
        }
        if t <= -(LN_BOUND as i128) {
            proof {
                let d = decay((-t) as nat);
                assert(d * (ONE as nat) == 0) by (nonlinear_arith)
                    requires
                        d == 0,
                ;
            }
            return 0;
        }
        let d: u128 = decay_fx((-t) as u64);
        assert(d * (ONE as nat) <= (UNIT as nat) * (ONE as nat)) by (nonlinear_arith)
            requires
                d <= UNIT as nat,
        ;
        ((d * 1_000_000_000u128 + UNIT / 2) / UNIT) as i64
    } else {
        proof {
            lemma_decay_bounds(t as nat);
        }
        if t >= LN_BOUND as i128 {
            return i64::MAX;
        }
        let d: u128 = decay_fx(t as u64);
        if d == 0 {
            i64::MAX
        } else {
            let q: u128 = (1_000_000_000u128 * UNIT + d / 2) / d;
            if q > i64::MAX as u128 {
                i64::MAX
            } else {
                q as i64
            }
        }
    }
}

/// `e^x` in billionths, saturating at the top of the range.
pub fn exp_fx(x: i64) -> (r: i64)
    ensures
        r == exp_spec(x as int),
{
    exp_fine_fx(1000 * (x as i128))
}

/// Whether `e^y` is at most `num / den`.
pub fn exp_at_most_fx(y: i64, num: u128, den: u128) -> (r: bool)
    requires
        num <= 0x1_0000_0000_0000_0000,
        den <= 0x1_0000_0000_0000_0000,
    ensures
        r == exp_at_most(y as int, num as nat, den as nat),
{
    if y <= 0 {
        let d: u128 = decay_fx((-(y as i128)) as u64);
        assert(d * den <= 0x4000_0000_0000_0000_0000_0000_0000_0000) by (nonlinear_arith)
            requires
                d <= 0x4000_0000_0000_0000,
                den <= 0x1_0000_0000_0000_0000,
        ;
        d * den <= num * UNIT
    } else {
        let d: u128 = decay_fx(y as u64);
        assert(d * num <= 0x4000_0000_0000_0000_0000_0000_0000_0000) by (nonlinear_arith)
            requires
                d <= 0x4000_0000_0000_0000,
                num <= 0x1_0000_0000_0000_0000,
        ;
        d * num >= UNIT * den
    }
}

/// The natural logarithm of `num / den` in trillionths, by bisection.
pub fn ln_fx(num: u128, den: u128) -> (y: i64)
    requires
        0 < num <= 0x1_0000_0000_0000_0000,
        0 < den <= 0x1_0000_0000_0000_0000,
    ensures
        y == ln_spec(num as nat, den as nat),
        is_ln(y as int, num as nat, den as nat),
{
    let mut lo: i64 = -LN_BOUND;
    let mut hi: i64 = LN_BOUND;
    proof {
        lemma_ln_ends(num as nat, den as nat);
    }
    while hi - lo > 1
        invariant
            -(LN_BOUND as int) <= lo < hi <= LN_BOUND as int,
            num <= 0x1_0000_0000_0000_0000,
            den <= 0x1_0000_0000_0000_0000,
            exp_at_most(lo as int, num as nat, den as nat),
            !exp_at_most(hi as int, num as nat, den as nat),
        decreases hi - lo,
    {
        let mid: i64 = lo + (hi - lo) / 2;
        if exp_at_most_fx(mid, num, den) {
            lo = mid;
        } else {
            hi = mid;
        }
    }
    proof {
        lemma_ln_unique(lo as int, num as nat, den as nat);
    }
    lo
}

/// The natural logarithm of a whole number in trillionths.
pub fn ln_count_fx(n: u128) -> (y: i64)
    requires
        0 < n <= 0x1_0000_0000_0000_0000,
    ensures
        y == ln_count(n as nat),
        y >= 0,
        n >= 2 ==> y >= 1,
{
    let l2: i64 = ln_fx(2, 1);
    let mut p: u128 = 1;
    let mut acc: i64 = 0;
    let mut i: u32 = 0;
    proof {
        lemma_ln_below_two(2, 1);
        lemma_ln_positive(2, 1);
        lemma2_to64();
        lemma_ln_scaled_sign(n as nat, 1);
    }
    while 2 * p <= n
        invariant
            0 < p <= n <= 0x1_0000_0000_0000_0000,
            p == pow2(i as nat),
            i <= 64,
            l2 == ln_spec(2, 1),
            1 <= l2 < 2_000_000_000_000,
            0 <= acc <= i * 2_000_000_000_000,
            ln_count(n as nat) == acc + ln_scaled(n as nat, p as nat),
        decreases n - p,
    {
        proof {
            lemma_pow2_unfold((i + 1) as nat);
            if i >= 64 {
                lemma_pow2_strictly_increases(64, (i + 1) as nat);
                lemma2_to64();
            }
        }
        p = 2 * p;
        acc = acc + l2;
        i = i + 1;
    }
    proof {
        lemma_ln_below_two(n as nat, p as nat);
        lemma_ln_sign(n as nat, p as nat);
    }
    acc + ln_fx(n, p)
}

/// `x` to the power `e`, in billionths.
pub fn pow_fx(x: i64, e: i64) -> (r: i64)
    ensures
        r == pow_spec(x as int, e as int),
{
    if x <= 0 {
        if e > 0 {
            0
        } else if e == 0 {
            ONE
        } else {
            i64::MAX
        }
    } else {
        let l: i64 = ln_fx(x as u128, 1_000_000_000u128);
        assert(-0x4000_0000_0000_0000_0000_0000_0000_0000 <= (e as int) * (l as int)
            <= 0x4000_0000_0000_0000_0000_0000_0000_0000) by (nonlinear_arith)
            requires
                -0x8000_0000_0000_0000 <= (e as int) <= 0x8000_0000_0000_0000,
                -0x8000_0000_0000_0000 <= (l as int) <= 0x8000_0000_0000_0000,
        ;
        exp_fine_fx(floor_div((e as i128) * (l as i128), ONE as i128))
    }
}

/// A quantity in billionths times a logarithm in trillionths, in billionths.
pub fn mul_fine_fx(l: i64, q: i64) -> (r: i64)
    ensures
        r == mul_fine_spec(l as int, q as int),
{
    assert(-0x4000_0000_0000_0000_0000_0000_0000_0000 <= (l as int) * (q as int)
        <= 0x4000_0000_0000_0000_0000_0000_0000_0000) by (nonlinear_arith)
        requires
            -0x8000_0000_0000_0000 <= (l as int) <= 0x8000_0000_0000_0000,
            -0x8000_0000_0000_0000 <= (q as int) <= 0x8000_0000_0000_0000,
    ;
    let p: i128 = (l as i128) * (q as i128);
    saturating(floor_div(p + 500_000_000_000, FINE as i128))
}

} // verus!
