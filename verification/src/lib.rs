//! The formula engine of a content-distribution network: what a post costs,
//! how far content propagates, what serving earns, how the base fare follows
//! load, and how tiers discount all of it.
//!
//! Every function is pure and works on fixed-point quantities (see `fixed`),
//! so that the same inputs give the same outputs on every machine.

pub mod fixed;
pub mod explog;
pub mod params;
pub mod risk;
pub mod quality;
pub mod cost;
pub mod propagation;
pub mod reward;
pub mod congestion;
pub mod tier;

pub use crate::fixed::ONE;
pub use crate::params::{Params, QWeights, EfParams, CostParams, PropagationParams, RewardParams,
    CongestionParams};
pub use crate::risk::{RiskSignals, RiskWeights, calculate_risk};
pub use crate::quality::{QInputs, calculate_quality, calculate_ef};
pub use crate::cost::{Actor, Content, calculate_post_cost};
pub use crate::propagation::{PropagationResult, adjust_propagation};
pub use crate::reward::{RewardInput, calculate_serve_reward};
pub use crate::congestion::update_base_cost;
pub use crate::tier::{Tier, TierPolicy, PriceOracle, StubOracle, apply_musk_mode_params,
    tier_discount, tier_risk_factor, social_at_quote, usd_to_social, final_cost_at_quote,
    compute_final_cost_with_tier, dm_escrow_social};
