//! The configuration of the engine. Every field is a fixed-point quantity.

use vstd::prelude::*;

verus! {

/// Weights of the six quality dimensions.
#[derive(Debug, Clone, Copy)]
pub struct QWeights {
    pub w_a: i64,
    pub w_r: i64,
    pub w_t: i64,
    pub w_d: i64,
    pub w_h: i64,
    pub w_s: i64,
}

impl Default for QWeights {
    fn default() -> (r: Self)
        ensures
            r == (QWeights {
                w_a: 200_000_000,
                w_r: 200_000_000,
                w_t: 200_000_000,
                w_d: 150_000_000,
                w_h: 200_000_000,
                w_s: 250_000_000,
            }),
    {
        QWeights {
            w_a: 200_000_000,
            w_r: 200_000_000,
            w_t: 200_000_000,
            w_d: 150_000_000,
            w_h: 200_000_000,
            w_s: 250_000_000,
        }
    }
}

/// Effective followers: the exponent of each follower's quality and the scale
/// of the compressed sum.
#[derive(Debug, Clone, Copy)]
pub struct EfParams {
    pub gamma: i64,
    pub cap: i64,
}

/// Posting price: exponents and coefficients of load and influence, the risk
/// multipliers, and the hourly posting limit.
#[derive(Debug, Clone, Copy)]
pub struct CostParams {
    pub alpha: i64,
    pub beta: i64,
    pub a: i64,
    pub b: i64,
    pub lambda_actor: i64,
    pub lambda_content: i64,
    pub rate_limit_per_hour: i64,
}

/// Propagation: base time-to-live and fanout, and how fast risk shrinks each.
#[derive(Debug, Clone, Copy)]
pub struct PropagationParams {
    pub ttl_base: i64,
    pub fanout_base: i64,
    pub k1: i64,
    pub k2: i64,
}

/// Serve reward: base reward and the diversity penalty.
#[derive(Debug, Clone, Copy)]
pub struct RewardParams {
    pub r0: i64,
    pub mu: i64,
}

/// Congestion: adaptation rate, target load, and the bounds of the base fare.
#[derive(Debug, Clone, Copy)]
pub struct CongestionParams {
    pub eta: i64,
    pub target_load: i64,
    pub base_min: i64,
    pub base_max: i64,
}

/// Parameter bundle.
#[derive(Debug, Clone, Copy)]
pub struct Params {
    pub q_weights: QWeights,
    pub q_min: i64,
    pub ef: EfParams,
    pub cost: CostParams,
    pub propagation: PropagationParams,
    pub reward: RewardParams,
    pub congestion: CongestionParams,
}

/// The standard calibration.
pub open spec fn default_params() -> Params {
    Params {
        q_weights: QWeights {
            w_a: 200_000_000,
            w_r: 200_000_000,
            w_t: 200_000_000,
            w_d: 150_000_000,
            w_h: 200_000_000,
            w_s: 250_000_000,
        },
        q_min: 500_000_000,
        ef: EfParams { gamma: 800_000_000, cap: 10_000_000_000 },
        cost: CostParams {
            alpha: 700_000_000,
            beta: 500_000_000,
            a: 1_200_000_000,
            b: 600_000_000,
            lambda_actor: 600_000_000,
            lambda_content: 400_000_000,
            rate_limit_per_hour: 10_000_000_000,
        },
        propagation: PropagationParams {
            ttl_base: 4_000_000_000,
            fanout_base: 5_000_000_000,
            k1: 2_000_000_000,
            k2: 2_000_000_000,
        },
        reward: RewardParams { r0: 1_000_000_000, mu: 300_000_000 },
        congestion: CongestionParams {
            eta: 100_000_000,
            target_load: 500_000_000_000,
            base_min: 100_000_000,
            base_max: 100_000_000_000,
        },
    }
}

impl Default for Params {
    fn default() -> (r: Self)
        ensures
            r == default_params(),
    {
        Params {
            q_weights: QWeights::default(),
            q_min: 500_000_000,
            ef: EfParams { gamma: 800_000_000, cap: 10_000_000_000 },
            cost: CostParams {
                alpha: 700_000_000,
                beta: 500_000_000,
                a: 1_200_000_000,
                b: 600_000_000,
                lambda_actor: 600_000_000,
                lambda_content: 400_000_000,
                rate_limit_per_hour: 10_000_000_000,
            },
            propagation: PropagationParams {
                ttl_base: 4_000_000_000,
                fanout_base: 5_000_000_000,
                k1: 2_000_000_000,
                k2: 2_000_000_000,
            },
            reward: RewardParams { r0: 1_000_000_000, mu: 300_000_000 },
            congestion: CongestionParams {
                eta: 100_000_000,
                target_load: 500_000_000_000,
                base_min: 100_000_000,
                base_max: 100_000_000_000,
            },
        }
    }
}

} // verus!
