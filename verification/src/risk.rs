//! Risk scoring: behavioural signals folded into one value between 0 and 1.

use vstd::prelude::*;
use crate::fixed::{ONE, clamp_spec, mul_spec, mul_fx, lemma_mul_zero};

verus! {

/// Risk signals, each between 0 and 1 where present. An absent signal counts as 0.
#[derive(Debug, Clone, Copy)]
pub struct RiskSignals {
    pub coordination: Option<i64>,
    pub clustering: Option<i64>,
    pub burst: Option<i64>,
    pub monotonicity: Option<i64>,
    pub abuse_history: Option<i64>,
}

impl Default for RiskSignals {
    fn default() -> (r: Self)
        ensures
            r == RiskSignals::absent(),
    {
        RiskSignals {
            coordination: None,
            clustering: None,
            burst: None,
            monotonicity: None,
            abuse_history: None,
        }
    }
}

impl RiskSignals {
    /// The signals with every indicator absent.
    pub open spec fn absent() -> RiskSignals {
        RiskSignals {
            coordination: None,
            clustering: None,
            burst: None,
            monotonicity: None,
            abuse_history: None,
        }
    }
}

/// Risk weights, by convention summing to 1.
#[derive(Debug, Clone, Copy)]
pub struct RiskWeights {
    pub w_coord: i64,
    pub w_clust: i64,
    pub w_burst: i64,
    pub w_mono: i64,
    pub w_hist: i64,
}

/// The standard risk weights.
pub open spec fn default_risk_weights() -> RiskWeights {
    RiskWeights {
        w_coord: 250_000_000,
        w_clust: 250_000_000,
        w_burst: 200_000_000,
        w_mono: 150_000_000,
        w_hist: 150_000_000,
    }
}

impl Default for RiskWeights {
    fn default() -> (r: Self)
        ensures
            r == default_risk_weights(),
    {
        RiskWeights {
            w_coord: 250_000_000,
            w_clust: 250_000_000,
            w_burst: 200_000_000,
            w_mono: 150_000_000,
            w_hist: 150_000_000,
        }
    }
}

/// The value of a signal: 0 where it is absent.
pub open spec fn signal_value(signal: Option<i64>) -> int {
    match signal {
        Some(x) => x as int,
        None => 0,
    }
}

/// The weighted sum of the five signals, before clamping.
pub open spec fn weighted_signals(s: RiskSignals, w: RiskWeights) -> int {
    mul_spec(w.w_coord as int, signal_value(s.coordination))
        + mul_spec(w.w_clust as int, signal_value(s.clustering))
        + mul_spec(w.w_burst as int, signal_value(s.burst))
        + mul_spec(w.w_mono as int, signal_value(s.monotonicity))
        + mul_spec(w.w_hist as int, signal_value(s.abuse_history))
}

/// The risk score: the weighted sum of the signals, clamped to `[0, 1]`.
/// Missing signals count as all absent.
pub open spec fn risk_spec(signals: Option<RiskSignals>, w: RiskWeights) -> int {
    match signals {
        Some(s) => clamp_spec(weighted_signals(s, w), 0, ONE as int),
        None => 0,
    }
}

fn value_of(signal: Option<i64>) -> (r: i64)
    ensures
        r == signal_value(signal),
{
    match signal {
        Some(x) => x,
        None => 0,
    }
}

/// Compute the risk score, between 0 and 1. With every signal absent it is 0.
pub fn calculate_risk(signals: &Option<RiskSignals>, weights: &RiskWeights) -> (r: i64)
    ensures
        r == risk_spec(*signals, *weights),
        0 <= r <= ONE,
        (*signals is None || signals->Some_0 == RiskSignals::absent()) ==> r == 0,
{
    match signals {
        None => 0,
        Some(s) => {
            let sum: i128 = mul_fx(weights.w_coord, value_of(s.coordination)) as i128
                + mul_fx(weights.w_clust, value_of(s.clustering)) as i128
                + mul_fx(weights.w_burst, value_of(s.burst)) as i128
                + mul_fx(weights.w_mono, value_of(s.monotonicity)) as i128
                + mul_fx(weights.w_hist, value_of(s.abuse_history)) as i128;
            proof {
                lemma_mul_zero(weights.w_coord as int);
                lemma_mul_zero(weights.w_clust as int);
                lemma_mul_zero(weights.w_burst as int);
                lemma_mul_zero(weights.w_mono as int);
                lemma_mul_zero(weights.w_hist as int);
            }
            if sum < 0 {
                0
            } else if sum > ONE as i128 {
                ONE
            } else {
                sum as i64
            }
        },
    }
}

} // verus!
