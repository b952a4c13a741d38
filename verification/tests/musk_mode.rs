use slimechain_algo::{
    apply_musk_mode_params, calculate_post_cost, compute_final_cost_with_tier, dm_escrow_social,
    final_cost_at_quote, social_at_quote, tier_discount, tier_risk_factor, usd_to_social, Actor,
    Content, Params, PriceOracle, StubOracle, Tier, TierPolicy, ONE,
};

/// A decimal number as a count of billionths.
fn nano(x: f64) -> i64 {
    (x * 1e9).round() as i64
}

fn sample_policy() -> TierPolicy {
    TierPolicy {
        discounts: (nano(1.0), nano(0.95), nano(0.85), nano(0.7)),
        risk_factor: (nano(1.0), nano(0.95), nano(0.9), nano(0.8)),
        dm_escrow_usd: nano(0.003),
        cmin_usd: nano(0.005),
    }
}

/// An oracle that overrides both rates.
struct TwoRates {
    social: Option<i64>,
    usdc: Option<i64>,
}

impl PriceOracle for TwoRates {
    fn usd_per_social(&self) -> Option<i64> {
        self.social
    }

    fn usd_per_usdc(&self) -> Option<i64> {
        self.usdc
    }
}

#[test]
fn t_costs() {
    let mut p = Params::default();
    apply_musk_mode_params(&mut p);
    let actor = Actor { rl: nano(120.0), q: nano(0.8), ef: nano(30.0), posts_1h: Some(nano(12.0)) };
    let content = Content { is_claim: Some(true), has_evidence: Some(false), risk_signals: None };
    let pol = TierPolicy {
        discounts: (nano(1.0), nano(0.95), nano(0.85), nano(0.7)),
        risk_factor: (nano(1.0), nano(0.95), nano(0.9), nano(0.8)),
        dm_escrow_usd: nano(0.003),
        cmin_usd: nano(0.005),
    };
    let oracle = StubOracle { usd_per_social_px: Some(nano(0.2)) };
    let basefare = nano(1.0);
    let c0 = compute_final_cost_with_tier(&actor, &content, &p, basefare, Tier::T0, &pol, &oracle, nano(0.2));
    let c3 = compute_final_cost_with_tier(&actor, &content, &p, basefare, Tier::T3, &pol, &oracle, nano(0.2));
    assert!(c3 < c0);
    let dm = dm_escrow_social(&pol, &oracle, nano(0.2));
    assert!(dm > nano(0.0));
}

#[test]
fn musk_mode_overwrites_its_fields_only() {
    let mut p = Params::default();
    p.q_min = nano(0.45);
    p.cost.rate_limit_per_hour = nano(7.0);
    p.reward.r0 = nano(2.0);
    apply_musk_mode_params(&mut p);
    assert_eq!(p.q_weights.w_h, nano(0.25));
    assert_eq!((p.propagation.ttl_base, p.propagation.fanout_base), (nano(5.0), nano(6.0)));
    assert_eq!((p.propagation.k1, p.propagation.k2), (nano(3.0), nano(3.0)));
    assert_eq!((p.cost.alpha, p.cost.beta, p.cost.a, p.cost.b), (nano(0.8), nano(0.5), nano(1.4), nano(0.6)));
    assert_eq!((p.cost.lambda_actor, p.cost.lambda_content), (nano(0.8), nano(0.6)));
    assert_eq!(p.reward.mu, nano(0.5));
    let d = Params::default();
    assert_eq!((p.q_weights.w_a, p.q_weights.w_s), (d.q_weights.w_a, d.q_weights.w_s));
    assert_eq!((p.q_min, p.cost.rate_limit_per_hour, p.reward.r0), (nano(0.45), nano(7.0), nano(2.0)));
    assert_eq!((p.ef.gamma, p.ef.cap), (d.ef.gamma, d.ef.cap));
    assert_eq!(p.congestion.eta, d.congestion.eta);
    assert_eq!(p.congestion.base_max, d.congestion.base_max);
}

#[test]
fn tier_tables() {
    let pol = sample_policy();
    assert_eq!(tier_discount(Tier::T0, &pol), nano(1.0));
    assert_eq!(tier_discount(Tier::T1, &pol), nano(0.95));
    assert_eq!(tier_discount(Tier::T2, &pol), nano(0.85));
    assert_eq!(tier_discount(Tier::T3, &pol), nano(0.7));
    assert_eq!(tier_risk_factor(Tier::T0, &pol), nano(1.0));
    assert_eq!(tier_risk_factor(Tier::T1, &pol), nano(0.95));
    assert_eq!(tier_risk_factor(Tier::T2, &pol), nano(0.9));
    assert_eq!(tier_risk_factor(Tier::T3, &pol), nano(0.8));
}

#[test]
fn usd_to_social_at_a_fifth_of_a_dollar() {
    let oracle = StubOracle { usd_per_social_px: Some(nano(0.2)) };
    assert_eq!(usd_to_social(nano(0.005), &oracle, nano(0.2)), nano(0.025));
    assert_eq!(social_at_quote(nano(0.005), Some(nano(0.2)), nano(0.2)), nano(0.025));
}

#[test]
fn usd_to_social_falls_back_without_a_price() {
    let silent = StubOracle { usd_per_social_px: None };
    assert_eq!(usd_to_social(nano(0.005), &silent, nano(0.25)), nano(0.02));
    let quoting = StubOracle { usd_per_social_px: Some(nano(0.5)) };
    assert_eq!(usd_to_social(nano(0.005), &quoting, nano(0.25)), nano(0.01));
}

#[test]
fn usd_to_social_floors_the_price() {
    let free = StubOracle { usd_per_social_px: Some(0) };
    assert_eq!(usd_to_social(nano(1.0), &free, nano(0.2)), 1_000_000_000_000_000_000);
    let negative = StubOracle { usd_per_social_px: Some(nano(-3.0)) };
    assert_eq!(usd_to_social(nano(1.0), &negative, nano(0.2)), 1_000_000_000_000_000_000);
    assert_eq!(usd_to_social(nano(100.0), &free, nano(0.2)), i64::MAX);
}

#[test]
fn stable_unit_defaults_to_one_dollar() {
    let oracle = StubOracle { usd_per_social_px: None };
    assert_eq!(oracle.usd_per_usdc(), Some(ONE));
    assert_eq!(oracle.usd_per_social(), None);
    let other = TwoRates { social: Some(nano(0.4)), usdc: Some(nano(0.999)) };
    assert_eq!(other.usd_per_usdc(), Some(nano(0.999)));
    assert_eq!(usd_to_social(nano(1.0), &other, nano(0.2)), nano(2.5));
}

#[test]
fn final_cost_per_tier() {
    let mut p = Params::default();
    apply_musk_mode_params(&mut p);
    let actor = Actor { rl: nano(120.0), q: nano(0.8), ef: nano(30.0), posts_1h: Some(nano(12.0)) };
    let content = Content { is_claim: Some(true), has_evidence: Some(false), risk_signals: None };
    let pol = sample_policy();
    let oracle = StubOracle { usd_per_social_px: Some(nano(0.2)) };
    let cost = calculate_post_cost(&actor, &content, &p, nano(1.0));
    assert_eq!(cost, 90_780_971_006);
    let at = |tier: Tier| {
        compute_final_cost_with_tier(&actor, &content, &p, nano(1.0), tier, &pol, &oracle, nano(0.2))
    };
    assert_eq!(at(Tier::T0), 90_780_971_006);
    assert_eq!(at(Tier::T1), 86_241_922_456);
    assert_eq!(at(Tier::T2), 77_163_825_355);
    assert_eq!(at(Tier::T3), 63_546_679_704);
    assert_eq!(
        final_cost_at_quote(&actor, &content, &p, nano(1.0), Tier::T3, &pol, Some(nano(0.2)), nano(0.2)),
        63_546_679_704
    );
}

#[test]
fn least_cost_is_enforced_before_the_discount() {
    let mut p = Params::default();
    p.cost.a = 0;
    p.cost.b = 0;
    let actor = Actor { rl: 0, q: 0, ef: 0, posts_1h: None };
    let content = Content { is_claim: None, has_evidence: None, risk_signals: None };
    let pol = sample_policy();
    let oracle = StubOracle { usd_per_social_px: Some(nano(0.2)) };
    let base = nano(0.01);
    assert_eq!(calculate_post_cost(&actor, &content, &p, base), nano(0.01));
    let c0 = compute_final_cost_with_tier(&actor, &content, &p, base, Tier::T0, &pol, &oracle, nano(0.2));
    let c3 = compute_final_cost_with_tier(&actor, &content, &p, base, Tier::T3, &pol, &oracle, nano(0.2));
    assert_eq!(c0, nano(0.025));
    assert_eq!(c3, nano(0.0175));
    assert!(c3 < nano(0.025));
}

#[test]
fn escrow_in_the_native_unit() {
    let pol = sample_policy();
    let oracle = StubOracle { usd_per_social_px: Some(nano(0.2)) };
    assert_eq!(dm_escrow_social(&pol, &oracle, nano(0.2)), nano(0.015));
    let silent = StubOracle { usd_per_social_px: None };
    assert_eq!(dm_escrow_social(&pol, &silent, nano(0.3)), nano(0.01));
}

#[test]
fn oracles_behind_a_trait_object() {
    let oracles: Vec<Box<dyn PriceOracle>> = vec![
        Box::new(StubOracle { usd_per_social_px: Some(nano(0.2)) }),
        Box::new(TwoRates { social: None, usdc: None }),
    ];
    let pol = sample_policy();
    let first: &dyn PriceOracle = oracles[0].as_ref();
    let second: &dyn PriceOracle = oracles[1].as_ref();
    assert_eq!(usd_to_social(nano(0.005), first, nano(0.25)), nano(0.025));
    assert_eq!(usd_to_social(nano(0.005), second, nano(0.25)), nano(0.02));
    assert_eq!(dm_escrow_social(&pol, first, nano(0.25)), nano(0.015));
    assert_eq!(dm_escrow_social(&pol, second, nano(0.25)), nano(0.012));
}
