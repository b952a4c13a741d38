//! Congestion-adaptive base fare.

use vstd::prelude::*;
use crate::fixed::{ONE, clamp_spec, max_int, min_int, saturate, sub_spec, mul_spec, div_spec,
    clamp_fx, max_fx, min_fx, sub_fx, mul_fx, div_fx, lemma_mul_sign, lemma_mul_by_factor,
    lemma_div_monotone, lemma_round_div_of_multiple};
use crate::explog::{exp_spec, exp_fx, lemma_exp_bounds};
use crate::params::Params;

verus! {

/// The target load in force: the configured one, or one billionth where that
/// is not positive.
pub open spec fn target_in_force(params: Params) -> int {
    max_int(params.congestion.target_load as int, 1)
}

/// The exponent of the feedback law: `eta * (load / target - 1)`.
pub open spec fn load_exponent(current_load: int, params: Params) -> int {
    mul_spec(
        params.congestion.eta as int,
        sub_spec(div_spec(current_load, target_in_force(params)), ONE as int),
    )
}

/// The fare of the feedback law as it rounds:
/// `current_base * exp(eta * (load / target - 1))`.
pub open spec fn moved_base(current_base: int, current_load: int, params: Params) -> int {
    mul_spec(current_base, exp_spec(load_exponent(current_load, params)))
}

/// Whether the law raises the fare: a positive fare, a positive rate and a
/// load above the target.
pub open spec fn raises(current_base: int, current_load: int, params: Params) -> bool {
    params.congestion.eta > 0 && current_base > 0 && current_load > target_in_force(params)
}

/// Whether the law lowers the fare: a positive fare, a positive rate and a
/// load below the target.
pub open spec fn lowers(current_base: int, current_load: int, params: Params) -> bool {
    params.congestion.eta > 0 && current_base > 0 && current_load < target_in_force(params)
}

/// The fare before clamping. Where the law raises or lowers the fare by less
/// than rounding shows, the fare still moves by one billionth.
pub open spec fn unclamped_base(current_base: int, current_load: int, params: Params) -> int {
    let moved = moved_base(current_base, current_load, params);
    if raises(current_base, current_load, params) {
        max_int(moved, saturate(current_base + 1))
    } else if lowers(current_base, current_load, params) {
        min_int(moved, current_base - 1)
    } else {
        moved
    }
}

/// The new base fare: the feedback law's fare, clamped to `[base_min, base_max]`.
pub open spec fn base_cost_spec(current_base: int, current_load: int, params: Params) -> int {
    clamp_spec(
        unclamped_base(current_base, current_load, params),
        params.congestion.base_min as int,
        params.congestion.base_max as int,
    )
}

/// The sign of the exponent follows the load: not negative at or above the
/// target, not positive at or below it, for a non-negative rate `eta`.
pub proof fn lemma_load_exponent_sign(current_load: int, params: Params)
    requires
        params.congestion.eta >= 0,
    ensures
        current_load >= target_in_force(params) ==> load_exponent(current_load, params) >= 0,
        current_load <= target_in_force(params) ==> load_exponent(current_load, params) <= 0,
{
    let target = target_in_force(params);
    lemma_round_div_of_multiple(ONE as int, target);
    assert((ONE as int) * target == target * (ONE as int)) by (nonlinear_arith);
    if current_load >= target {
        lemma_div_monotone(target, current_load, target);
    }
    if current_load <= target {
        lemma_div_monotone(current_load, target, target);
    }
    let excess = sub_spec(div_spec(current_load, target), ONE as int);
    lemma_mul_sign(params.congestion.eta as int, excess);
}

/// The fare of the law as it rounds never moves against the load: at or above
/// the target it is at least the current fare, at or below it at most, for a
/// non-negative rate `eta` and a current fare that is not negative. So the
/// billionth by which the fare moves at least is a matter of rounding.
pub proof fn lemma_moved_base_follows_load(current_base: i64, current_load: int, params: Params)
    requires
        params.congestion.eta >= 0,
        current_base >= 0,
    ensures
        current_load >= target_in_force(params) ==> moved_base(
            current_base as int,
            current_load,
            params,
        ) >= current_base,
        current_load <= target_in_force(params) ==> moved_base(
            current_base as int,
            current_load,
            params,
        ) <= current_base,
{
    let x = load_exponent(current_load, params);
    lemma_load_exponent_sign(current_load, params);
    lemma_exp_bounds(x);
    lemma_mul_by_factor(current_base, exp_spec(x));
}

/// Update base fare.
pub fn update_base_cost(current_base: i64, current_load: i64, params: &Params) -> (b: i64)
    ensures
        b == base_cost_spec(current_base as int, current_load as int, *params),
        b <= params.congestion.base_max,
        params.congestion.base_min <= params.congestion.base_max ==> b >= params.congestion.base_min,
        params.congestion.eta > 0 && current_load > target_in_force(*params) && 0 < current_base
            < params.congestion.base_max ==> b > current_base,
        params.congestion.eta > 0 && current_load < target_in_force(*params) && 0 < current_base
            && params.congestion.base_min < current_base ==> b < current_base,
{
    let eta = params.congestion.eta;
    let target: i64 = max_fx(params.congestion.target_load, 1);
    let x: i64 = mul_fx(eta, sub_fx(div_fx(current_load, target), ONE));
    let moved: i64 = mul_fx(current_base, exp_fx(x));
    let b: i64 = if eta > 0 && current_base > 0 && current_load > target {
        let least: i64 = if current_base < i64::MAX {
            current_base + 1
        } else {
            i64::MAX
        };
        max_fx(moved, least)
    } else if eta > 0 && current_base > 0 && current_load < target {
        min_fx(moved, current_base - 1)
    } else {
        moved
    };
    clamp_fx(b, params.congestion.base_min, params.congestion.base_max)
}

} // verus!
