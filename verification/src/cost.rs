//! Dynamic posting price: what a post costs its author.

use vstd::prelude::*;
use crate::fixed::{ONE, saturate, max_int, add_spec, sub_spec, mul_spec, div_spec, saturating,
    max_fx, add_fx, sub_fx, mul_fx, div_fx, lemma_mul_one, lemma_mul_sign};
use crate::explog::{pow_spec, pow_fx, lemma_pow_bounds};
use crate::params::Params;
use crate::risk::{RiskSignals, RiskWeights, default_risk_weights, risk_spec, calculate_risk};

verus! {

/// The factor of a claim that comes with evidence: 0.7.
pub const EVIDENCED_CLAIM: i64 = 700_000_000;

/// The factor of a claim without evidence: 1.2.
pub const BARE_CLAIM: i64 = 1_200_000_000;

/// The slope of the surcharge on posting over the hourly limit: 0.5.
pub const SURCHARGE_SLOPE: i64 = 500_000_000;

/// Actor (author) input.
#[derive(Debug, Clone, Copy)]
pub struct Actor {
    /// Recent average request load.
    pub rl: i64,
    /// Quality score.
    pub q: i64,
    /// Effective followers.
    pub ef: i64,
    /// Posts in the last hour, where known.
    pub posts_1h: Option<i64>,
}

/// Content input: whether it makes a claim, whether it carries evidence, and
/// its risk signals.
#[derive(Debug, Clone, Copy)]
pub struct Content {
    pub is_claim: Option<bool>,
    pub has_evidence: Option<bool>,
    pub risk_signals: Option<RiskSignals>,
}

/// Whether an optional flag is present and set.
pub open spec fn is_set(flag: Option<bool>) -> bool {
    flag == Some(true)
}

/// First stage: the base fare plus the load and influence components,
/// `a * max(rl, 0)^alpha` and `b * max(ef, 0)^beta`.
pub open spec fn base_components(actor: Actor, params: Params, base_fare: int) -> int {
    saturate(
        base_fare + mul_spec(
            params.cost.a as int,
            pow_spec(max_int(actor.rl as int, 0), params.cost.alpha as int),
        ) + mul_spec(
            params.cost.b as int,
            pow_spec(max_int(actor.ef as int, 0), params.cost.beta as int),
        ),
    )
}

/// Second stage: `1 + lambda_actor * risk + lambda_content * risk`. Both
/// risks are the content's risk under the standard weights.
pub open spec fn risk_multiplier(content: Content, params: Params) -> int {
    let risk = risk_spec(content.risk_signals, default_risk_weights());
    saturate(
        ONE + mul_spec(params.cost.lambda_actor as int, risk) + mul_spec(
            params.cost.lambda_content as int,
            risk,
        ),
    )
}

/// Third stage: 0.7 for a claim with evidence, 1.2 for a claim without, 1 for
/// content that makes no claim.
pub open spec fn claim_multiplier(content: Content) -> int {
    if is_set(content.is_claim) {
        if is_set(content.has_evidence) {
            EVIDENCED_CLAIM as int
        } else {
            BARE_CLAIM as int
        }
    } else {
        ONE as int
    }
}

/// The hourly limit in force: the configured limit, or 1 where that is not
/// positive.
pub open spec fn limit_in_force(params: Params) -> int {
    if params.cost.rate_limit_per_hour > 0 {
        params.cost.rate_limit_per_hour as int
    } else {
        ONE as int
    }
}

/// Fourth stage: `1 + 0.5 * (posts / limit - 1)` where the posts of the last
/// hour exceed the limit in force, 1 otherwise.
pub open spec fn rate_multiplier(actor: Actor, params: Params) -> int {
    match actor.posts_1h {
        Some(posts) => {
            let limit = limit_in_force(params);
            if posts > limit {
                add_spec(
                    ONE as int,
                    mul_spec(SURCHARGE_SLOPE as int, sub_spec(div_spec(posts as int, limit), ONE as int)),
                )
            } else {
                ONE as int
            }
        },
        None => ONE as int,
    }
}

/// The posting cost: the base components multiplied in turn by the risk, the
/// claim and the rate multipliers.
pub open spec fn post_cost_spec(actor: Actor, content: Content, params: Params, base_fare: int) -> int {
    mul_spec(
        mul_spec(
            mul_spec(base_components(actor, params, base_fare), risk_multiplier(content, params)),
            claim_multiplier(content),
        ),
        rate_multiplier(actor, params),
    )
}

/// Before the multipliers the cost is at least the base fare, for
/// non-negative coefficients `a` and `b`.
pub proof fn lemma_base_fare_is_a_floor(actor: Actor, params: Params, base_fare: i64)
    requires
        params.cost.a >= 0,
        params.cost.b >= 0,
    ensures
        base_components(actor, params, base_fare as int) >= base_fare,
{
    let rl_power = pow_spec(max_int(actor.rl as int, 0), params.cost.alpha as int);
    let ef_power = pow_spec(max_int(actor.ef as int, 0), params.cost.beta as int);
    lemma_pow_bounds(max_int(actor.rl as int, 0), params.cost.alpha as int);
    lemma_pow_bounds(max_int(actor.ef as int, 0), params.cost.beta as int);
    lemma_mul_sign(params.cost.a as int, rl_power);
    lemma_mul_sign(params.cost.b as int, ef_power);
}

fn flag_set(flag: Option<bool>) -> (r: bool)
    ensures
        r == is_set(flag),
{
    match flag {
        Some(b) => b,
        None => false,
    }
}

/// Compute posting cost.
pub fn calculate_post_cost(actor: &Actor, content: &Content, params: &Params, base_fare: i64) -> (cost: i64)
    ensures
        cost == post_cost_spec(*actor, *content, *params, base_fare as int),
{
    let rl_cost: i64 = mul_fx(params.cost.a, pow_fx(max_fx(actor.rl, 0), params.cost.alpha));
    let ef_cost: i64 = mul_fx(params.cost.b, pow_fx(max_fx(actor.ef, 0), params.cost.beta));
    let mut cost: i64 = saturating(base_fare as i128 + rl_cost as i128 + ef_cost as i128);

    let weights = RiskWeights::default();
    let risk_actor: i64 = calculate_risk(&content.risk_signals, &weights);
    let risk_content: i64 = calculate_risk(&content.risk_signals, &weights);
    let by_risk: i64 = saturating(
        ONE as i128 + mul_fx(params.cost.lambda_actor, risk_actor) as i128 + mul_fx(
            params.cost.lambda_content,
            risk_content,
        ) as i128,
    );
    cost = mul_fx(cost, by_risk);

    if flag_set(content.is_claim) {
        if flag_set(content.has_evidence) {
            cost = mul_fx(cost, EVIDENCED_CLAIM);
        } else {
            cost = mul_fx(cost, BARE_CLAIM);
        }
    } else {
        proof {
            lemma_mul_one(cost);
        }
    }

    let ghost before_rate = cost;
    if let Some(posts) = actor.posts_1h {
        let limit: i64 = if params.cost.rate_limit_per_hour > 0 {
            params.cost.rate_limit_per_hour
        } else {
            ONE
        };
        if posts > limit {
            let over: i64 = sub_fx(div_fx(posts, limit), ONE);
            cost = mul_fx(cost, add_fx(ONE, mul_fx(SURCHARGE_SLOPE, over)));
        }
    }
    proof {
        lemma_mul_one(before_rate);
    }
    cost
}

} // verus!
