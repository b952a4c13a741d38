//! Tiered discounts and conversion of policy amounts in US dollars into the
//! network's native unit.
//!
//! The price of the native unit comes from a `PriceOracle`, which may answer
//! differently from one call to the next or not at all. An oracle may say
//! which answers it gives (`may_quote`); each function that asks it returns
//! the exact value for one of those answers, and has a companion that takes
//! the answer as an argument and says exactly what is returned for it.

use vstd::prelude::*;
use crate::fixed::{ONE, max_int, mul_spec, div_spec, max_fx, mul_fx, div_fx, lemma_mul_monotone,
    lemma_round_div_antitone};
use crate::params::{Params, QWeights, CostParams, PropagationParams, RewardParams};
use crate::cost::{Actor, Content, post_cost_spec, calculate_post_cost};

verus! {

/// Discount class of an actor, from `T0` (full price) to `T3`.
#[derive(Clone, Copy, Debug)]
pub enum Tier {
    T0,
    T1,
    T2,
    T3,
}

/// Per-tier multipliers, and the policy amounts in US dollars.
#[derive(Debug, Clone, Copy)]
pub struct TierPolicy {
    /// Discount multipliers of `T0` to `T3`.
    pub discounts: (i64, i64, i64, i64),
    /// Risk attenuation factors of `T0` to `T3`.
    pub risk_factor: (i64, i64, i64, i64),
    /// The escrow held for a direct message, in US dollars.
    pub dm_escrow_usd: i64,
    /// The least cost of a post, in US dollars.
    pub cmin_usd: i64,
}

/// A source of exchange rates.
pub trait PriceOracle {
    /// Whether this oracle is known to peg the stable unit to one dollar. An
    /// oracle that leaves `usd_per_usdc` as it is given here may say so; one
    /// that says nothing is held to nothing.
    open spec fn pegs_stable_unit(&self) -> bool {
        false
    }

    /// Whether this oracle may give `quote` as its price of the native unit.
    /// An oracle that says nothing may give any.
    open spec fn may_quote(&self, quote: Option<i64>) -> bool {
        true
    }

    /// US dollars per native unit, where a price is available.
    fn usd_per_social(&self) -> (r: Option<i64>)
        ensures
            self.may_quote(r),
    ;

    /// US dollars per stable unit: one dollar, unless the oracle quotes a rate
    /// of its own.
    fn usd_per_usdc(&self) -> (r: Option<i64>)
        ensures
            self.pegs_stable_unit() ==> r == Some(ONE),
    {
        Some(ONE)
    }
}

/// An oracle that always answers with the price it holds.
pub struct StubOracle {
    pub usd_per_social_px: Option<i64>,
}

impl PriceOracle for StubOracle {
    open spec fn pegs_stable_unit(&self) -> bool {
        true
    }

    open spec fn may_quote(&self, quote: Option<i64>) -> bool {
        quote == self.usd_per_social_px
    }

    fn usd_per_social(&self) -> (r: Option<i64>) {
        self.usd_per_social_px
    }
}

/// The alternate calibration: what `apply_musk_mode_params` makes of `p`.
pub open spec fn musk_mode(p: Params) -> Params {
    Params {
        q_weights: QWeights { w_h: 250_000_000, ..p.q_weights },
        propagation: PropagationParams {
            ttl_base: 5_000_000_000,
            fanout_base: 6_000_000_000,
            k1: 3_000_000_000,
            k2: 3_000_000_000,
        },
        cost: CostParams {
            alpha: 800_000_000,
            beta: 500_000_000,
            a: 1_400_000_000,
            b: 600_000_000,
            lambda_actor: 800_000_000,
            lambda_content: 600_000_000,
            ..p.cost
        },
        reward: RewardParams { mu: 500_000_000, ..p.reward },
        ..p
    }
}

/// Overwrites the fields that the alternate calibration sets, and leaves the
/// others as they are.
pub fn apply_musk_mode_params(p: &mut Params)
    ensures
        *final(p) == musk_mode(*old(p)),
{
    p.q_weights.w_h = 250_000_000;
    p.propagation.ttl_base = 5_000_000_000;
    p.propagation.fanout_base = 6_000_000_000;
    p.propagation.k1 = 3_000_000_000;
    p.propagation.k2 = 3_000_000_000;
    p.cost.alpha = 800_000_000;
    p.cost.beta = 500_000_000;
    p.cost.a = 1_400_000_000;
    p.cost.b = 600_000_000;
    p.cost.lambda_actor = 800_000_000;
    p.cost.lambda_content = 600_000_000;
    p.reward.mu = 500_000_000;
}

/// The discount multiplier of a tier.
pub open spec fn discount_spec(tier: Tier, policy: TierPolicy) -> int {
    match tier {
        Tier::T0 => policy.discounts.0 as int,
        Tier::T1 => policy.discounts.1 as int,
        Tier::T2 => policy.discounts.2 as int,
        Tier::T3 => policy.discounts.3 as int,
    }
}

/// The risk attenuation factor of a tier.
pub open spec fn risk_factor_spec(tier: Tier, policy: TierPolicy) -> int {
    match tier {
        Tier::T0 => policy.risk_factor.0 as int,
        Tier::T1 => policy.risk_factor.1 as int,
        Tier::T2 => policy.risk_factor.2 as int,
        Tier::T3 => policy.risk_factor.3 as int,
    }
}

/// The discount multiplier of a tier.
pub fn tier_discount(tier: Tier, policy: &TierPolicy) -> (r: i64)
    ensures
        r == discount_spec(tier, *policy),
{
    match tier {
        Tier::T0 => policy.discounts.0,
        Tier::T1 => policy.discounts.1,
        Tier::T2 => policy.discounts.2,
        Tier::T3 => policy.discounts.3,
    }
}

/// The risk attenuation factor of a tier.
pub fn tier_risk_factor(tier: Tier, policy: &TierPolicy) -> (r: i64)
    ensures
        r == risk_factor_spec(tier, *policy),
{
    match tier {
        Tier::T0 => policy.risk_factor.0,
        Tier::T1 => policy.risk_factor.1,
        Tier::T2 => policy.risk_factor.2,
        Tier::T3 => policy.risk_factor.3,
    }
}

/// The price in force: the oracle's quote, or the fallback where it has none,
/// and never less than one billionth.
pub open spec fn price_in_force(quote: Option<i64>, fallback_usd_per_social: int) -> int {
    max_int(
        match quote {
            Some(px) => px as int,
            None => fallback_usd_per_social,
        },
        1,
    )
}

/// An amount in US dollars in the native unit, at the price in force.
pub open spec fn social_spec(usd: int, quote: Option<i64>, fallback_usd_per_social: int) -> int {
    div_spec(usd, price_in_force(quote, fallback_usd_per_social))
}

/// The final posting cost for a given quote: the posting cost, raised to the
/// least cost where it is below, then multiplied by the tier's discount.
pub open spec fn final_cost_spec(
    actor: Actor,
    content: Content,
    params: Params,
    basefare: int,
    tier: Tier,
    policy: TierPolicy,
    quote: Option<i64>,
    fallback_usd_per_social: int,
) -> int {
    mul_spec(
        floored_cost_spec(actor, content, params, basefare, policy, quote, fallback_usd_per_social),
        discount_spec(tier, policy),
    )
}

/// The posting cost raised to the least cost, before the discount.
pub open spec fn floored_cost_spec(
    actor: Actor,
    content: Content,
    params: Params,
    basefare: int,
    policy: TierPolicy,
    quote: Option<i64>,
    fallback_usd_per_social: int,
) -> int {
    max_int(
        post_cost_spec(actor, content, params, basefare),
        social_spec(policy.cmin_usd as int, quote, fallback_usd_per_social),
    )
}

/// Tier ordering: at one quote, the final cost under `T3` is at most that
/// under `T0`, where the policy gives `T3` no larger a multiplier than `T0`
/// and the cost that is discounted is not negative.
pub proof fn lemma_tier_ordering(
    actor: Actor,
    content: Content,
    params: Params,
    basefare: int,
    policy: TierPolicy,
    quote: Option<i64>,
    fallback_usd_per_social: int,
)
    requires
        policy.discounts.3 <= policy.discounts.0,
        floored_cost_spec(actor, content, params, basefare, policy, quote, fallback_usd_per_social)
            >= 0,
    ensures
        final_cost_spec(
            actor,
            content,
            params,
            basefare,
            Tier::T3,
            policy,
            quote,
            fallback_usd_per_social,
        ) <= final_cost_spec(
            actor,
            content,
            params,
            basefare,
            Tier::T0,
            policy,
            quote,
            fallback_usd_per_social,
        ),
{
    let floored = floored_cost_spec(
        actor,
        content,
        params,
        basefare,
        policy,
        quote,
        fallback_usd_per_social,
    );
    lemma_mul_monotone(policy.discounts.3 as int, policy.discounts.0 as int, floored);
}

/// An amount in the native unit is not negative where the amount in dollars
/// is not; so a least cost that is not negative keeps the discounted cost
/// from being negative.
pub proof fn lemma_social_nonneg(usd: int, quote: Option<i64>, fallback_usd_per_social: int)
    requires
        usd >= 0,
    ensures
        social_spec(usd, quote, fallback_usd_per_social) >= 0,
{
    let px = price_in_force(quote, fallback_usd_per_social);
    assert(usd * (ONE as int) >= 0) by (nonlinear_arith)
        requires
            usd >= 0,
    ;
    lemma_round_div_antitone(usd * (ONE as int), px, px);
}

/// Convert a USD amount to the native unit at a given quote.
pub fn social_at_quote(usd: i64, quote: Option<i64>, fallback_usd_per_social: i64) -> (r: i64)
    ensures
        r == social_spec(usd as int, quote, fallback_usd_per_social as int),
{
    let px: i64 = max_fx(
        match quote {
            Some(px) => px,
            None => fallback_usd_per_social,
        },
        1,
    );
    div_fx(usd, px)
}

/// Convert a USD amount to the native unit using the oracle; fall back to a
/// fixed peg where it has no price. The oracle is asked once.
pub fn usd_to_social<O: PriceOracle + ?Sized>(
    usd: i64,
    oracle: &O,
    fallback_usd_per_social: i64,
) -> (r: i64)
    ensures
        exists|quote: Option<i64>|
            oracle.may_quote(quote) && r == #[trigger] social_spec(
                usd as int,
                quote,
                fallback_usd_per_social as int,
            ),
{
    let quote = oracle.usd_per_social();
    social_at_quote(usd, quote, fallback_usd_per_social)
}

/// The final posting cost at a given quote.
pub fn final_cost_at_quote(
    actor: &Actor,
    content: &Content,
    params: &Params,
    basefare: i64,
    tier: Tier,
    policy: &TierPolicy,
    quote: Option<i64>,
    fallback_usd_per_social: i64,
) -> (r: i64)
    ensures
        r == final_cost_spec(
            *actor,
            *content,
            *params,
            basefare as int,
            tier,
            *policy,
            quote,
            fallback_usd_per_social as int,
        ),
{
    let cost: i64 = calculate_post_cost(actor, content, params, basefare);
    let cmin_social: i64 = social_at_quote(policy.cmin_usd, quote, fallback_usd_per_social);
    let floored: i64 = max_fx(cost, cmin_social);
    mul_fx(floored, tier_discount(tier, policy))
}

/// Compute the final posting cost with the least cost and the tier discount.
/// The least cost is enforced before the discount is applied.
pub fn compute_final_cost_with_tier<O: PriceOracle + ?Sized>(
    actor: &Actor,
    content: &Content,
    params: &Params,
    basefare: i64,
    tier: Tier,
    policy: &TierPolicy,
    oracle: &O,
    fallback_usd_per_social: i64,
) -> (r: i64)
    ensures
        exists|quote: Option<i64>|
            oracle.may_quote(quote) && r == #[trigger] final_cost_spec(
                *actor,
                *content,
                *params,
                basefare as int,
                tier,
                *policy,
                quote,
                fallback_usd_per_social as int,
            ),
{
    let quote = oracle.usd_per_social();
    final_cost_at_quote(actor, content, params, basefare, tier, policy, quote, fallback_usd_per_social)
}

/// The escrow fee of a direct message in the native unit.
pub fn dm_escrow_social<O: PriceOracle + ?Sized>(
    policy: &TierPolicy,
    oracle: &O,
    fallback_usd_per_social: i64,
) -> (r: i64)
    ensures
        exists|quote: Option<i64>|
            oracle.may_quote(quote) && r == #[trigger] social_spec(
                policy.dm_escrow_usd as int,
                quote,
                fallback_usd_per_social as int,
            ),
{
    usd_to_social(policy.dm_escrow_usd, oracle, fallback_usd_per_social)
}

} // verus!
