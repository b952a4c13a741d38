//! Quality score and effective followers.

use vstd::prelude::*;
use crate::fixed::{ONE, clamp_spec, min_int, mul_spec, mul_fx};
use crate::explog::{ln_spec, pow_spec, mul_fine_spec, ln_fx, pow_fx, mul_fine_fx,
    lemma_ln_monotone, lemma_ln_sign, lemma_pow_bounds, lemma_pow_monotone, lemma_mul_fine};
use crate::params::{Params, QWeights};

verus! {

/// The highest quality that content without human verification can reach: 0.4.
pub const UNVERIFIED_CAP: i64 = 400_000_000;

/// Quality score inputs: authenticity, reliability, timeliness, diversity,
/// human verification and spam suppression.
#[allow(non_snake_case)]
#[derive(Debug, Clone, Copy)]
pub struct QInputs {
    pub A: i64,
    pub R: i64,
    pub T: i64,
    pub D: i64,
    pub H: i64,
    pub S: i64,
}

/// The weighted sum of the five positive dimensions less the weighted spam
/// penalty, before clamping.
pub open spec fn weighted_quality(inp: QInputs, w: QWeights) -> int {
    mul_spec(w.w_a as int, inp.A as int) + mul_spec(w.w_r as int, inp.R as int) + mul_spec(
        w.w_t as int,
        inp.T as int,
    ) + mul_spec(w.w_d as int, inp.D as int) + mul_spec(w.w_h as int, inp.H as int) - mul_spec(
        w.w_s as int,
        inp.S as int,
    )
}

/// The quality score: the weighted sum clamped to `[0, 1]`, and capped at 0.4
/// where human verification is exactly 0.
pub open spec fn quality_spec(inp: QInputs, w: QWeights) -> int {
    let q = clamp_spec(weighted_quality(inp, w), 0, ONE as int);
    if inp.H == 0 {
        min_int(q, UNVERIFIED_CAP as int)
    } else {
        q
    }
}

/// Compute quality score q.
pub fn calculate_quality(inp: QInputs, params: &Params) -> (q: i64)
    ensures
        q == quality_spec(inp, params.q_weights),
        0 <= q <= ONE,
        inp.H == 0 ==> q <= UNVERIFIED_CAP,
{
    let w = &params.q_weights;
    let sum: i128 = mul_fx(w.w_a, inp.A) as i128 + mul_fx(w.w_r, inp.R) as i128 + mul_fx(
        w.w_t,
        inp.T,
    ) as i128 + mul_fx(w.w_d, inp.D) as i128 + mul_fx(w.w_h, inp.H) as i128 - mul_fx(
        w.w_s,
        inp.S,
    ) as i128;
    let mut q: i64 = if sum < 0 {
        0
    } else if sum > ONE as i128 {
        ONE
    } else {
        sum as i64
    };
    if inp.H == 0 && q > UNVERIFIED_CAP {
        q = UNVERIFIED_CAP;
    }
    q
}

/// What one follower adds to the sum: its quality to the power `gamma` where
/// it reaches `q_min`, nothing otherwise.
pub open spec fn follower_term(q: int, q_min: int, gamma: int) -> int {
    if q >= q_min {
        pow_spec(q, gamma)
    } else {
        0
    }
}

/// The sum of the terms of all followers.
pub open spec fn follower_sum(qs: Seq<i64>, q_min: int, gamma: int) -> int
    decreases qs.len(),
{
    if qs.len() == 0 {
        0
    } else {
        follower_sum(qs.drop_last(), q_min, gamma) + follower_term(qs.last() as int, q_min, gamma)
    }
}

/// Effective followers: `cap * ln(1 + sum)`, the sum saturated at the top of
/// the range.
pub open spec fn ef_spec(qs: Seq<i64>, params: Params) -> int {
    let sum = min_int(follower_sum(qs, params.q_min as int, params.ef.gamma as int), i64::MAX as int);
    mul_fine_spec(ln_spec((ONE + sum) as nat, ONE as nat), params.ef.cap as int)
}

/// The sum of the followers' terms is not negative.
pub proof fn lemma_follower_sum_nonneg(qs: Seq<i64>, q_min: int, gamma: int)
    ensures
        follower_sum(qs, q_min, gamma) >= 0,
    decreases qs.len(),
{
    if qs.len() > 0 {
        lemma_follower_sum_nonneg(qs.drop_last(), q_min, gamma);
        lemma_pow_bounds(qs.last() as int, gamma);
    }
}

/// Raising followers' qualities raises the sum, for a non-negative exponent.
pub proof fn lemma_follower_sum_monotone(a: Seq<i64>, b: Seq<i64>, q_min: int, gamma: int)
    requires
        a.len() == b.len(),
        forall|i: int| 0 <= i < a.len() ==> a[i] <= b[i],
        gamma >= 0,
    ensures
        follower_sum(a, q_min, gamma) <= follower_sum(b, q_min, gamma),
    decreases a.len(),
{
    if a.len() > 0 {
        lemma_follower_sum_monotone(a.drop_last(), b.drop_last(), q_min, gamma);
        lemma_pow_bounds(a.last() as int, gamma);
        lemma_pow_bounds(b.last() as int, gamma);
        lemma_pow_monotone(a.last() as int, b.last() as int, gamma);
    }
}

/// Effective followers are not negative where the scale `cap` is not.
pub proof fn lemma_ef_nonneg(qs: Seq<i64>, params: Params)
    requires
        params.ef.cap >= 0,
    ensures
        ef_spec(qs, params) >= 0,
{
    lemma_follower_sum_nonneg(qs, params.q_min as int, params.ef.gamma as int);
    let sum = min_int(follower_sum(qs, params.q_min as int, params.ef.gamma as int), i64::MAX as int);
    lemma_ln_sign((ONE + sum) as nat, ONE as nat);
    let l = ln_spec((ONE + sum) as nat, ONE as nat);
    lemma_mul_fine(l, l, params.ef.cap as int);
}

/// Effective followers do not fall when any follower's quality rises, for a
/// non-negative exponent `gamma` and a non-negative scale `cap`.
pub proof fn lemma_ef_monotone(a: Seq<i64>, b: Seq<i64>, params: Params)
    requires
        a.len() == b.len(),
        forall|i: int| 0 <= i < a.len() ==> a[i] <= b[i],
        params.ef.gamma >= 0,
        params.ef.cap >= 0,
    ensures
        ef_spec(a, params) <= ef_spec(b, params),
{
    let q_min = params.q_min as int;
    let gamma = params.ef.gamma as int;
    lemma_follower_sum_nonneg(a, q_min, gamma);
    lemma_follower_sum_nonneg(b, q_min, gamma);
    lemma_follower_sum_monotone(a, b, q_min, gamma);
    let sa = min_int(follower_sum(a, q_min, gamma), i64::MAX as int);
    let sb = min_int(follower_sum(b, q_min, gamma), i64::MAX as int);
    lemma_ln_monotone((ONE + sa) as nat, (ONE + sb) as nat, ONE as nat);
    lemma_mul_fine(
        ln_spec((ONE + sa) as nat, ONE as nat),
        ln_spec((ONE + sb) as nat, ONE as nat),
        params.ef.cap as int,
    );
}

/// Compute effective followers EF.
pub fn calculate_ef(followers_q: &[i64], params: &Params) -> (ef: i64)
    ensures
        ef == ef_spec(followers_q@, *params),
        params.ef.cap >= 0 ==> ef >= 0,
{
    let gamma = params.ef.gamma;
    let n = followers_q.len();
    let mut sum: i64 = 0;
    let mut i: usize = 0;
    while i < n
        invariant
            i <= n,
            n == followers_q@.len(),
            gamma == params.ef.gamma,
            follower_sum(followers_q@.take(i as int), params.q_min as int, gamma as int) >= 0,
            sum == min_int(
                follower_sum(followers_q@.take(i as int), params.q_min as int, gamma as int),
                i64::MAX as int,
            ),
        decreases n - i,
    {
        let q: i64 = followers_q[i];
        proof {
            assert(followers_q@.take(i + 1).drop_last() =~= followers_q@.take(i as int));
            lemma_pow_bounds(q as int, gamma as int);
        }
        if q >= params.q_min {
            let term: i64 = pow_fx(q, gamma);
            sum = if sum > i64::MAX - term {
                i64::MAX
            } else {
                sum + term
            };
        }
        i = i + 1;
    }
    proof {
        assert(followers_q@.take(n as int) =~= followers_q@);
        if params.ef.cap >= 0 {
            lemma_ef_nonneg(followers_q@, *params);
        }
    }
    let l: i64 = ln_fx(1_000_000_000u128 + sum as u128, 1_000_000_000u128);
    mul_fine_fx(l, params.ef.cap)
}

} // verus!
