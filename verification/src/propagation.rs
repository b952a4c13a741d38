//! Propagation control: how far and how wide content travels, given its risk.

use vstd::prelude::*;
use crate::fixed::{ONE, clamp_spec, min_int, sub_spec, mul_spec, clamp_fx, sub_fx, mul_fx,
    lemma_mul_monotone};
use crate::params::Params;
use crate::risk::{RiskSignals, RiskWeights, default_risk_weights, risk_spec, calculate_risk};

verus! {

/// Propagation result: hop budget and branching factor.
#[derive(Debug, Clone, Copy)]
pub struct PropagationResult {
    pub ttl: u32,
    pub fanout: u32,
}

/// The whole number nearest to a quantity, halves rounding up, within the
/// range of a 32-bit count: nothing below 0, nothing above the largest count.
pub open spec fn round_to_count(x: int) -> int {
    if x <= 0 {
        0
    } else {
        min_int((x + ONE / 2) / (ONE as int), u32::MAX as int)
    }
}

/// A base value shrunk by risk: `base - k * risk`, clamped to `[1, base]`,
/// rounded to the nearest count.
pub open spec fn shrunk_count(base: int, k: int, risk: int) -> int {
    round_to_count(clamp_spec(sub_spec(base, mul_spec(k, risk)), ONE as int, base))
}

/// The shrunk value is a count of at least 1 that does not exceed the rounded
/// base, for a base of at least 1; a whole base bounds it as it stands.
pub proof fn lemma_shrunk_bounds(base: int, k: int, risk: int)
    requires
        base >= ONE,
    ensures
        1 <= shrunk_count(base, k, risk) <= round_to_count(base),
        base % (ONE as int) == 0 ==> shrunk_count(base, k, risk) * ONE <= base,
{
}

/// Without risk the base value stands.
pub proof fn lemma_shrunk_at_zero_risk(base: i64, k: int)
    requires
        base >= ONE,
    ensures
        shrunk_count(base as int, k, 0) == round_to_count(base as int),
{
    assert(k * 0 == 0) by (nonlinear_arith);
}

/// More risk shrinks further, for a non-negative sensitivity `k`.
pub proof fn lemma_shrunk_monotone(base: int, k: int, risk1: int, risk2: int)
    requires
        k >= 0,
        risk1 <= risk2,
    ensures
        shrunk_count(base, k, risk2) <= shrunk_count(base, k, risk1),
{
    lemma_mul_monotone(risk1, risk2, k);
}

/// Signals of higher risk give no larger a time-to-live and no larger a
/// fanout, for non-negative sensitivities.
pub proof fn lemma_propagation_monotone(
    low: Option<RiskSignals>,
    high: Option<RiskSignals>,
    params: Params,
)
    requires
        risk_spec(low, default_risk_weights()) <= risk_spec(high, default_risk_weights()),
        params.propagation.k1 >= 0,
        params.propagation.k2 >= 0,
    ensures
        ttl_spec(high, params) <= ttl_spec(low, params),
        fanout_spec(high, params) <= fanout_spec(low, params),
{
    let r1 = risk_spec(low, default_risk_weights());
    let r2 = risk_spec(high, default_risk_weights());
    lemma_shrunk_monotone(params.propagation.ttl_base as int, params.propagation.k1 as int, r1, r2);
    lemma_shrunk_monotone(params.propagation.fanout_base as int, params.propagation.k2 as int, r1, r2);
}

/// The time-to-live for the given signals.
pub open spec fn ttl_spec(signals: Option<RiskSignals>, params: Params) -> int {
    shrunk_count(
        params.propagation.ttl_base as int,
        params.propagation.k1 as int,
        risk_spec(signals, default_risk_weights()),
    )
}

/// The fanout for the given signals.
pub open spec fn fanout_spec(signals: Option<RiskSignals>, params: Params) -> int {
    shrunk_count(
        params.propagation.fanout_base as int,
        params.propagation.k2 as int,
        risk_spec(signals, default_risk_weights()),
    )
}

fn rounded(x: i64) -> (r: u32)
    ensures
        r == round_to_count(x as int),
{
    if x <= 0 {
        0
    } else {
        let n: i128 = (x as i128 + 500_000_000) / 1_000_000_000;
        if n > u32::MAX as i128 {
            u32::MAX
        } else {
            n as u32
        }
    }
}

fn shrunk(base: i64, k: i64, risk: i64) -> (r: u32)
    ensures
        r == shrunk_count(base as int, k as int, risk as int),
{
    rounded(clamp_fx(sub_fx(base, mul_fx(k, risk)), ONE, base))
}

/// Adjust TTL/Fanout.
pub fn adjust_propagation(risk_signals: &Option<RiskSignals>, params: &Params) -> (r: PropagationResult)
    ensures
        r.ttl == ttl_spec(*risk_signals, *params),
        r.fanout == fanout_spec(*risk_signals, *params),
        params.propagation.ttl_base >= ONE ==> 1 <= r.ttl <= round_to_count(
            params.propagation.ttl_base as int,
        ),
        params.propagation.fanout_base >= ONE ==> 1 <= r.fanout <= round_to_count(
            params.propagation.fanout_base as int,
        ),
        params.propagation.ttl_base >= ONE && params.propagation.ttl_base % ONE == 0 ==> r.ttl
            * ONE <= params.propagation.ttl_base,
        params.propagation.fanout_base >= ONE && params.propagation.fanout_base % ONE == 0
            ==> r.fanout * ONE <= params.propagation.fanout_base,
{
    let weights = RiskWeights::default();
    let risk: i64 = calculate_risk(risk_signals, &weights);
    proof {
        if params.propagation.ttl_base >= ONE {
            lemma_shrunk_bounds(
                params.propagation.ttl_base as int,
                params.propagation.k1 as int,
                risk as int,
            );
        }
        if params.propagation.fanout_base >= ONE {
            lemma_shrunk_bounds(
                params.propagation.fanout_base as int,
                params.propagation.k2 as int,
                risk as int,
            );
        }
    }
    PropagationResult {
        ttl: shrunk(params.propagation.ttl_base, params.propagation.k1, risk),
        fanout: shrunk(params.propagation.fanout_base, params.propagation.k2, risk),
    }
}

} // verus!
