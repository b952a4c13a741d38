//! Serve reward: what a server earns for one serving event.

use vstd::prelude::*;
use crate::fixed::{ONE, clamp_spec, max_int, min_int, sub_spec, mul_spec, div_spec, clamp_fx,
    max_fx, min_fx, sub_fx, mul_fx, div_fx, lemma_mul_monotone, lemma_mul_sign,
    lemma_round_div_antitone, lemma_round_div_of_multiple, lemma_round_div_doubled,
    lemma_quotient_at_least};
use crate::explog::{ln_count, ln_count_fx, lemma_ln_scaled_sign};
use crate::params::Params;

verus! {

/// The payload size, in bytes, whose size weight is 1.
pub const REFERENCE_SIZE: u64 = 1_000_000;

/// Reward calculation input.
#[derive(Debug, Clone, Copy)]
pub struct RewardInput {
    pub ticket_budget: i64,
    pub client_q: i64,
    pub size_bytes: u64,
    pub ttfb_ms: u32,
    pub server_cluster_risk: i64,
}

/// The weight of the payload size: `ln(1 + size) / ln(1 + 1_000_000)`.
pub open spec fn size_weight(size_bytes: int) -> int {
    div_spec(ln_count((1 + size_bytes) as nat), ln_count((1 + REFERENCE_SIZE) as nat))
}

/// The weight of the latency: `1 / (1 + ttfb / 1000)`, the time to first byte
/// in milliseconds.
pub open spec fn latency_weight(ttfb_ms: int) -> int {
    div_spec(1000, 1000 + ttfb_ms)
}

/// The diversity factor: `1 - mu * clamp(risk, 0, 1)`.
pub open spec fn diversity(mu: int, cluster_risk: int) -> int {
    sub_spec(ONE as int, mul_spec(mu, clamp_spec(cluster_risk, 0, ONE as int)))
}

/// The reward before the cap: `r0 * clamp(client_q, 0, 1) * w_size * w_latency * diversity`.
pub open spec fn uncapped_reward(input: RewardInput, params: Params) -> int {
    mul_spec(
        mul_spec(
            mul_spec(
                mul_spec(params.reward.r0 as int, clamp_spec(input.client_q as int, 0, ONE as int)),
                size_weight(input.size_bytes as int),
            ),
            latency_weight(input.ttfb_ms as int),
        ),
        diversity(params.reward.mu as int, input.server_cluster_risk as int),
    )
}

/// The reward: the uncapped reward, at most the ticket budget, which counts
/// as 0 where it is negative.
pub open spec fn reward_spec(input: RewardInput, params: Params) -> int {
    min_int(uncapped_reward(input, params), max_int(input.ticket_budget as int, 0))
}

/// The size weight is not negative.
pub proof fn lemma_size_weight_nonneg(size_bytes: nat)
    ensures
        size_weight(size_bytes as int) >= 0,
{
    lemma_ln_scaled_sign(1 + size_bytes, 1);
    lemma_ln_scaled_sign((1 + REFERENCE_SIZE) as nat, 1);
    let l = ln_count(1 + size_bytes);
    let r = ln_count((1 + REFERENCE_SIZE) as nat);
    assert(l * (ONE as int) >= 0) by (nonlinear_arith)
        requires
            l >= 0,
    ;
    lemma_round_div_antitone(l * (ONE as int), r, r);
}

/// The latency weight is positive, at most 1, 1 without latency, and falls as
/// the latency grows.
pub proof fn lemma_latency_weight(ttfb_ms: u32, later_ms: u32)
    requires
        ttfb_ms <= later_ms,
    ensures
        0 < latency_weight(later_ms as int) <= latency_weight(ttfb_ms as int) <= ONE,
        latency_weight(0) == ONE,
{
    let n = 1000 * (ONE as int);
    lemma_round_div_antitone(n, 1000 + ttfb_ms, 1000 + later_ms);
    lemma_round_div_antitone(n, 1000, 1000 + ttfb_ms);
    lemma_round_div_of_multiple(ONE as int, 1000);
    lemma_round_div_doubled(n, 1000 + later_ms);
    lemma_quotient_at_least(2 * n + (1000 + later_ms), 2 * (1000 + later_ms), 1);
}

/// The diversity factor is not negative for a penalty `mu` of at most 1.
pub proof fn lemma_diversity_nonneg(mu: int, cluster_risk: int)
    requires
        mu <= ONE,
    ensures
        diversity(mu, cluster_risk) >= 0,
{
    let c = clamp_spec(cluster_risk, 0, ONE as int);
    if mu >= 0 {
        lemma_mul_monotone(c, ONE as int, mu);
        assert(mu * (ONE as int) == (ONE as int) * mu) by (nonlinear_arith);
    } else {
        lemma_mul_sign(c, mu);
        assert(c * mu == mu * c) by (nonlinear_arith);
    }
}

/// The reward lies between 0 and the ticket budget, for a base reward `r0`
/// and a diversity factor that are not negative.
pub proof fn lemma_reward_bounds(input: RewardInput, params: Params)
    requires
        params.reward.r0 >= 0,
        diversity(params.reward.mu as int, input.server_cluster_risk as int) >= 0,
    ensures
        0 <= reward_spec(input, params) <= max_int(input.ticket_budget as int, 0),
{
    let q = clamp_spec(input.client_q as int, 0, ONE as int);
    let s = size_weight(input.size_bytes as int);
    let l = latency_weight(input.ttfb_ms as int);
    let d = diversity(params.reward.mu as int, input.server_cluster_risk as int);
    lemma_size_weight_nonneg(input.size_bytes as nat);
    lemma_latency_weight(input.ttfb_ms, input.ttfb_ms);
    let by_quality = mul_spec(params.reward.r0 as int, q);
    lemma_mul_sign(params.reward.r0 as int, q);
    let by_size = mul_spec(by_quality, s);
    lemma_mul_sign(by_quality, s);
    let by_latency = mul_spec(by_size, l);
    lemma_mul_sign(by_size, l);
    lemma_mul_sign(by_latency, d);
}

/// Compute serving reward.
pub fn calculate_serve_reward(input: &RewardInput, params: &Params) -> (reward: i64)
    ensures
        reward == reward_spec(*input, *params),
        reward <= max_int(input.ticket_budget as int, 0),
        params.reward.r0 >= 0 && diversity(
            params.reward.mu as int,
            input.server_cluster_risk as int,
        ) >= 0 ==> reward >= 0,
{
    let l_size: i64 = ln_count_fx(1u128 + input.size_bytes as u128);
    let l_ref: i64 = ln_count_fx(1u128 + REFERENCE_SIZE as u128);
    proof {
        if params.reward.r0 >= 0 && diversity(
            params.reward.mu as int,
            input.server_cluster_risk as int,
        ) >= 0 {
            lemma_reward_bounds(*input, *params);
        }
    }
    let w_size: i64 = div_fx(l_size, l_ref);
    let w_latency: i64 = div_fx(1000, 1000i64 + input.ttfb_ms as i64);
    let diversity: i64 = sub_fx(ONE, mul_fx(params.reward.mu, clamp_fx(input.server_cluster_risk, 0, ONE)));
    let reward: i64 = mul_fx(
        mul_fx(mul_fx(mul_fx(params.reward.r0, clamp_fx(input.client_q, 0, ONE)), w_size), w_latency),
        diversity,
    );
    min_fx(reward, max_fx(input.ticket_budget, 0))
}

} // verus!
