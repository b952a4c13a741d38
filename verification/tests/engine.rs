use slimechain_algo::{
    adjust_propagation, calculate_ef, calculate_post_cost, calculate_quality, calculate_risk,
    calculate_serve_reward, update_base_cost, Actor, Content, Params, QInputs, RewardInput,
    RiskSignals, RiskWeights, ONE,
};

/// A decimal number as a count of billionths.
fn fx(x: f64) -> i64 {
    (x * 1e9).round() as i64
}

fn sample_signals() -> RiskSignals {
    RiskSignals {
        coordination: Some(fx(0.5)),
        clustering: Some(fx(0.4)),
        burst: None,
        monotonicity: None,
        abuse_history: None,
    }
}

fn sample_actor() -> Actor {
    Actor { rl: fx(120.0), q: fx(0.8), ef: fx(30.0), posts_1h: Some(fx(12.0)) }
}

#[test]
fn test_quality_ef() {
    let params = Params::default();
    let q = calculate_quality(
        QInputs { A: fx(0.8), R: fx(0.7), T: fx(0.6), D: fx(0.5), H: fx(1.0), S: fx(0.2) },
        &params,
    );
    assert!(q >= fx(0.0) && q <= fx(1.0));
    let ef = calculate_ef(&[fx(0.8), fx(0.7), fx(0.4), fx(0.9)], &params);
    assert!(ef > fx(0.0));
}

#[test]
fn test_cost_prop_reward() {
    let params = Params::default();
    let actor = Actor { rl: fx(120.0), q: fx(0.8), ef: fx(30.0), posts_1h: Some(fx(12.0)) };
    let content = Content {
        is_claim: Some(true),
        has_evidence: Some(false),
        risk_signals: Some(RiskSignals {
            coordination: Some(fx(0.5)),
            clustering: Some(fx(0.4)),
            burst: None,
            monotonicity: None,
            abuse_history: None,
        }),
    };
    let cost = calculate_post_cost(&actor, &content, &params, fx(1.0));
    assert!(cost > fx(0.0));

    let pr = adjust_propagation(&content.risk_signals, &params);
    assert!(pr.ttl >= 1 && pr.ttl <= (params.propagation.ttl_base / ONE) as u32);

    let ri = RewardInput {
        ticket_budget: fx(1.5),
        client_q: fx(0.8),
        size_bytes: 24000,
        ttfb_ms: 120,
        server_cluster_risk: fx(0.2),
    };
    let rew = calculate_serve_reward(&ri, &params);
    assert!(rew >= fx(0.0));
}

#[test]
fn test_base() {
    let params = Params::default();
    let b2 = update_base_cost(fx(1.0), fx(1000.0), &params);
    assert!(b2 > fx(1.0));
}

#[test]
fn default_params_hold_the_standard_calibration() {
    let p = Params::default();
    assert_eq!(p.q_weights.w_a, fx(0.2));
    assert_eq!(p.q_weights.w_r, fx(0.2));
    assert_eq!(p.q_weights.w_t, fx(0.2));
    assert_eq!(p.q_weights.w_d, fx(0.15));
    assert_eq!(p.q_weights.w_h, fx(0.2));
    assert_eq!(p.q_weights.w_s, fx(0.25));
    assert_eq!(p.q_min, fx(0.5));
    assert_eq!((p.ef.gamma, p.ef.cap), (fx(0.8), fx(10.0)));
    assert_eq!((p.cost.alpha, p.cost.beta, p.cost.a, p.cost.b), (fx(0.7), fx(0.5), fx(1.2), fx(0.6)));
    assert_eq!((p.cost.lambda_actor, p.cost.lambda_content), (fx(0.6), fx(0.4)));
    assert_eq!(p.cost.rate_limit_per_hour, fx(10.0));
    assert_eq!((p.propagation.ttl_base, p.propagation.fanout_base), (fx(4.0), fx(5.0)));
    assert_eq!((p.propagation.k1, p.propagation.k2), (fx(2.0), fx(2.0)));
    assert_eq!((p.reward.r0, p.reward.mu), (fx(1.0), fx(0.3)));
    assert_eq!((p.congestion.eta, p.congestion.target_load), (fx(0.1), fx(500.0)));
    assert_eq!((p.congestion.base_min, p.congestion.base_max), (fx(0.1), fx(100.0)));
    let w = RiskWeights::default();
    assert_eq!(
        (w.w_coord, w.w_clust, w.w_burst, w.w_mono, w.w_hist),
        (fx(0.25), fx(0.25), fx(0.20), fx(0.15), fx(0.15))
    );
    let s = RiskSignals::default();
    assert!(s.coordination.is_none() && s.clustering.is_none() && s.burst.is_none());
    assert!(s.monotonicity.is_none() && s.abuse_history.is_none());
}

#[test]
fn quality_is_the_clamped_weighted_sum() {
    let params = Params::default();
    let q = calculate_quality(
        QInputs { A: fx(0.8), R: fx(0.7), T: fx(0.6), D: fx(0.5), H: fx(1.0), S: fx(0.2) },
        &params,
    );
    assert_eq!(q, 645_000_000);
    let high = calculate_quality(
        QInputs { A: fx(3.0), R: fx(3.0), T: fx(3.0), D: fx(3.0), H: fx(3.0), S: 0 },
        &params,
    );
    assert_eq!(high, ONE);
    let low = calculate_quality(QInputs { A: 0, R: 0, T: 0, D: 0, H: fx(1.0), S: fx(2.0) }, &params);
    assert_eq!(low, 0);
}

#[test]
fn quality_without_human_verification_is_capped() {
    let params = Params::default();
    let q = calculate_quality(
        QInputs { A: fx(1.0), R: fx(1.0), T: fx(1.0), D: fx(1.0), H: 0, S: 0 },
        &params,
    );
    assert_eq!(q, 400_000_000);
    let below = calculate_quality(
        QInputs { A: fx(1.0), R: 0, T: 0, D: 0, H: 0, S: 0 },
        &params,
    );
    assert_eq!(below, 200_000_000);
    let verified = calculate_quality(
        QInputs { A: fx(1.0), R: fx(1.0), T: fx(1.0), D: fx(1.0), H: 1, S: 0 },
        &params,
    );
    assert_eq!(verified, 750_000_000);
}

#[test]
fn effective_followers_exact_values() {
    let params = Params::default();
    assert_eq!(calculate_ef(&[fx(0.8), fx(0.7), fx(0.4), fx(0.9)], &params), 12_548_854_025);
    assert_eq!(calculate_ef(&[], &params), 0);
    assert_eq!(calculate_ef(&[fx(0.4), fx(0.49)], &params), 0);
}

#[test]
fn effective_followers_drop_followers_below_the_threshold() {
    let params = Params::default();
    let with = calculate_ef(&[fx(0.8), fx(0.7), fx(0.4), fx(0.9)], &params);
    let without = calculate_ef(&[fx(0.8), fx(0.7), fx(0.9)], &params);
    assert_eq!(with, without);
}

#[test]
fn effective_followers_rise_with_quality() {
    let params = Params::default();
    let before = calculate_ef(&[fx(0.8), fx(0.7), fx(0.4), fx(0.9)], &params);
    let after = calculate_ef(&[fx(0.8), fx(0.75), fx(0.4), fx(0.9)], &params);
    assert_eq!(after, 12_669_745_445);
    assert!(before <= after);
    let crossing = calculate_ef(&[fx(0.8), fx(0.7), fx(0.5), fx(0.9)], &params);
    assert!(before <= crossing);
}

#[test]
fn risk_of_the_sample_signals() {
    let r = calculate_risk(&Some(sample_signals()), &RiskWeights::default());
    assert_eq!(r, 225_000_000);
}

#[test]
fn risk_of_absent_signals_is_zero() {
    let w = RiskWeights::default();
    assert_eq!(calculate_risk(&None, &w), 0);
    assert_eq!(calculate_risk(&Some(RiskSignals::default()), &w), 0);
}

#[test]
fn risk_is_clamped() {
    let w = RiskWeights::default();
    let all = |v: i64| RiskSignals {
        coordination: Some(v),
        clustering: Some(v),
        burst: Some(v),
        monotonicity: Some(v),
        abuse_history: Some(v),
    };
    assert_eq!(calculate_risk(&Some(all(fx(1.0))), &w), ONE);
    assert_eq!(calculate_risk(&Some(all(fx(7.0))), &w), ONE);
    assert_eq!(calculate_risk(&Some(all(fx(-3.0))), &w), 0);
    assert_eq!(calculate_risk(&Some(all(fx(0.5))), &w), 500_000_000);
}

#[test]
fn post_cost_of_an_unsourced_claim_over_the_limit() {
    let params = Params::default();
    let content = Content {
        is_claim: Some(true),
        has_evidence: Some(false),
        risk_signals: Some(sample_signals()),
    };
    let base_fare = fx(1.0);
    let cost = calculate_post_cost(&sample_actor(), &content, &params, base_fare);
    assert!(cost > base_fare);
    assert_eq!(cost, 62_306_565_148);
    let expected = (1.0 + 1.2 * 120f64.powf(0.7) + 0.6 * 30f64.powf(0.5)) * 1.225 * 1.2 * 1.1;
    assert!((cost as f64 / 1e9 - expected).abs() < 2e-9);
}

#[test]
fn post_cost_stages() {
    let params = Params::default();
    let plain = Content { is_claim: None, has_evidence: None, risk_signals: None };
    let quiet = Actor { rl: fx(120.0), q: fx(0.8), ef: fx(30.0), posts_1h: None };
    assert_eq!(calculate_post_cost(&quiet, &plain, &params, fx(1.0)), 38_532_198_607);

    let at_limit = Actor { rl: fx(120.0), q: fx(0.8), ef: fx(30.0), posts_1h: Some(fx(10.0)) };
    let sourced = Content { is_claim: Some(true), has_evidence: Some(true), risk_signals: None };
    assert_eq!(calculate_post_cost(&at_limit, &sourced, &params, fx(1.0)), 26_972_539_025);

    let not_a_claim = Content { is_claim: Some(false), has_evidence: Some(true), risk_signals: None };
    assert_eq!(calculate_post_cost(&quiet, &not_a_claim, &params, fx(1.0)), 38_532_198_607);
}

#[test]
fn rate_surcharge_goes_by_the_configured_limit() {
    let mut params = Params::default();
    params.cost.rate_limit_per_hour = fx(0.5);
    let plain = Content { is_claim: None, has_evidence: None, risk_signals: None };
    let actor = Actor { rl: 0, q: fx(0.5), ef: 0, posts_1h: Some(fx(0.8)) };
    assert_eq!(calculate_post_cost(&actor, &plain, &params, fx(10.0)), fx(13.0));
    let at_limit = Actor { posts_1h: Some(fx(0.5)), ..actor };
    assert_eq!(calculate_post_cost(&at_limit, &plain, &params, fx(10.0)), fx(10.0));
    let standard = Params::default();
    let over = Actor { posts_1h: Some(fx(12.0)), ..actor };
    assert_eq!(calculate_post_cost(&over, &plain, &standard, fx(10.0)), fx(11.0));
}

#[test]
fn rate_surcharge_with_a_limit_that_is_not_positive() {
    let mut params = Params::default();
    params.cost.rate_limit_per_hour = 0;
    let plain = Content { is_claim: None, has_evidence: None, risk_signals: None };
    let few = Actor { rl: 0, q: 0, ef: 0, posts_1h: Some(fx(0.8)) };
    assert_eq!(calculate_post_cost(&few, &plain, &params, fx(10.0)), fx(10.0));
    let more = Actor { posts_1h: Some(fx(1.5)), ..few };
    assert_eq!(calculate_post_cost(&more, &plain, &params, fx(10.0)), fx(12.5));
    params.cost.rate_limit_per_hour = fx(-3.0);
    let many = Actor { posts_1h: Some(fx(3.0)), ..few };
    assert_eq!(calculate_post_cost(&many, &plain, &params, fx(10.0)), fx(20.0));
}

#[test]
fn post_cost_of_an_idle_actor_is_the_base_fare() {
    let params = Params::default();
    let plain = Content { is_claim: None, has_evidence: None, risk_signals: None };
    let idle = Actor { rl: 0, q: 0, ef: 0, posts_1h: None };
    assert_eq!(calculate_post_cost(&idle, &plain, &params, fx(1.0)), fx(1.0));
    let negative = Actor { rl: fx(-5.0), q: 0, ef: fx(-5.0), posts_1h: None };
    assert_eq!(calculate_post_cost(&negative, &plain, &params, fx(1.0)), fx(1.0));
}

#[test]
fn propagation_shrinks_with_risk() {
    let params = Params::default();
    let none = adjust_propagation(&None, &params);
    assert_eq!((none.ttl, none.fanout), (4, 5));
    let some = adjust_propagation(&Some(sample_signals()), &params);
    assert_eq!((some.ttl, some.fanout), (4, 5));
    let full = adjust_propagation(
        &Some(RiskSignals {
            coordination: Some(ONE),
            clustering: Some(ONE),
            burst: Some(ONE),
            monotonicity: Some(ONE),
            abuse_history: Some(ONE),
        }),
        &params,
    );
    assert_eq!((full.ttl, full.fanout), (2, 3));
    assert!(full.ttl <= some.ttl && some.ttl <= none.ttl);
    assert!(full.fanout <= some.fanout && some.fanout <= none.fanout);
}

#[test]
fn propagation_never_falls_below_one() {
    let mut params = Params::default();
    params.propagation.k1 = fx(50.0);
    params.propagation.k2 = fx(50.0);
    let full = adjust_propagation(
        &Some(RiskSignals {
            coordination: Some(ONE),
            clustering: Some(ONE),
            burst: Some(ONE),
            monotonicity: Some(ONE),
            abuse_history: Some(ONE),
        }),
        &params,
    );
    assert_eq!((full.ttl, full.fanout), (1, 1));
}

#[test]
fn serve_reward_exact_values() {
    let params = Params::default();
    let ri = RewardInput {
        ticket_budget: fx(1.5),
        client_q: fx(0.8),
        size_bytes: 24000,
        ttfb_ms: 120,
        server_cluster_risk: fx(0.2),
    };
    let rew = calculate_serve_reward(&ri, &params);
    assert_eq!(rew, 490_168_486);
    let expected = 0.8 * (24001f64.ln() / 1_000_001f64.ln()) / 1.12 * (1.0 - 0.3 * 0.2);
    assert!((rew as f64 / 1e9 - expected).abs() < 2e-9);

    let reference = RewardInput {
        ticket_budget: fx(5.0),
        client_q: fx(1.0),
        size_bytes: 1_000_000,
        ttfb_ms: 0,
        server_cluster_risk: 0,
    };
    assert_eq!(calculate_serve_reward(&reference, &params), ONE);

    let empty = RewardInput { size_bytes: 0, ..reference };
    assert_eq!(calculate_serve_reward(&empty, &params), 0);

    let huge = RewardInput { ticket_budget: fx(50.0), size_bytes: u64::MAX, ..reference };
    assert_eq!(calculate_serve_reward(&huge, &params), 3_210_986_388);

    let one_byte = RewardInput { size_bytes: 1, ..reference };
    assert_eq!(calculate_serve_reward(&one_byte, &params), 50_171_662);
}

#[test]
fn serve_reward_is_capped_by_the_budget() {
    let params = Params::default();
    let reference = RewardInput {
        ticket_budget: fx(0.1),
        client_q: fx(1.0),
        size_bytes: 1_000_000,
        ttfb_ms: 0,
        server_cluster_risk: 0,
    };
    assert_eq!(calculate_serve_reward(&reference, &params), fx(0.1));
    let negative = RewardInput { ticket_budget: fx(-1.0), ..reference };
    assert_eq!(calculate_serve_reward(&negative, &params), 0);
}

#[test]
fn serve_reward_is_negative_only_for_a_negative_base_or_an_excessive_penalty() {
    let reference = RewardInput {
        ticket_budget: fx(50.0),
        client_q: fx(1.0),
        size_bytes: 1_000_000,
        ttfb_ms: 0,
        server_cluster_risk: fx(1.0),
    };
    let mut steep = Params::default();
    steep.reward.mu = fx(2.0);
    assert_eq!(calculate_serve_reward(&reference, &steep), fx(-1.0));
    let half = RewardInput { server_cluster_risk: fx(0.5), ..reference };
    assert_eq!(calculate_serve_reward(&half, &steep), 0);
    let quarter = RewardInput { server_cluster_risk: fx(0.25), ..reference };
    assert_eq!(calculate_serve_reward(&quarter, &steep), fx(0.5));
    let mut owing = Params::default();
    owing.reward.r0 = fx(-1.0);
    assert_eq!(calculate_serve_reward(&reference, &owing), fx(-0.7));
    assert!(calculate_serve_reward(&reference, &Params::default()) >= 0);
}

#[test]
fn serve_reward_falls_with_latency() {
    let params = Params::default();
    let at = |ttfb_ms: u32| {
        calculate_serve_reward(
            &RewardInput {
                ticket_budget: fx(5.0),
                client_q: fx(1.0),
                size_bytes: 1_000_000,
                ttfb_ms,
                server_cluster_risk: 0,
            },
            &params,
        )
    };
    assert_eq!(at(0), ONE);
    assert_eq!(at(1000), fx(0.5));
    assert_eq!(at(3000), fx(0.25));
    assert!(at(u32::MAX) > 0 && at(u32::MAX) < at(3000));
}

#[test]
fn base_cost_follows_load() {
    let params = Params::default();
    let up = update_base_cost(fx(1.0), fx(1000.0), &params);
    assert_eq!(up, 1_105_170_918);
    assert!((up as f64 / 1e9 - 0.1f64.exp()).abs() < 1e-9);
    assert!(up > fx(1.0) && up <= fx(100.0));
    let down = update_base_cost(fx(1.0), fx(250.0), &params);
    assert_eq!(down, 951_229_425);
    assert!((down as f64 / 1e9 - (-0.05f64).exp()).abs() < 1e-9);
    assert!(down < fx(1.0));
    assert_eq!(update_base_cost(fx(1.0), fx(500.0), &params), fx(1.0));
}

#[test]
fn base_cost_moves_by_a_billionth_at_least() {
    let params = Params::default();
    assert_eq!(update_base_cost(fx(1.0), fx(500.0) + 1, &params), fx(1.0) + 1);
    assert_eq!(update_base_cost(fx(1.0), fx(500.0) - 1, &params), fx(1.0) - 1);
    assert_eq!(update_base_cost(fx(1.0), fx(500.0), &params), fx(1.0));
    let mut still = Params::default();
    still.congestion.eta = 0;
    assert_eq!(update_base_cost(fx(1.0), fx(1000.0), &still), fx(1.0));
    let mut wide = Params::default();
    wide.congestion.base_min = 0;
    assert_eq!(update_base_cost(1, fx(1000.0), &wide), 2);
    assert_eq!(update_base_cost(2, fx(100.0), &wide), 1);
    assert_eq!(update_base_cost(0, fx(1000.0), &wide), 0);
}

#[test]
fn base_cost_stays_within_bounds() {
    let params = Params::default();
    assert_eq!(update_base_cost(fx(99.0), fx(50000.0), &params), fx(100.0));
    assert_eq!(update_base_cost(fx(0.1), 0, &params), fx(0.1));
    assert_eq!(update_base_cost(fx(500.0), fx(500.0), &params), fx(100.0));
    assert_eq!(update_base_cost(0, fx(500.0), &params), fx(0.1));
}

#[test]
fn base_cost_with_no_target_load() {
    let mut params = Params::default();
    params.congestion.target_load = 0;
    assert_eq!(update_base_cost(fx(1.0), fx(1.0), &params), fx(100.0));
    assert_eq!(update_base_cost(fx(1.0), 0, &params), 904_837_418);
}
