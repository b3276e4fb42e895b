//! The target reference profile for the population-mean membrane potential:
//! a Gaussian bump of height 1.5 centred halfway through the run, of width 5.

use vstd::prelude::*;
use crate::fixed::{
    FX_TWO, fx_div, fx_div_int, fx_exp, fx_mul, fx_neg, fx_sub, spec_fx_div, spec_fx_exp,
    spec_fx_mul, spec_fx_neg, spec_fx_sub, spec_tdiv,
};

verus! {

/// Width of the reference bump (5.0 in fixed point).
pub const REF_SIGMA: i64 = 5_000_000;

/// Height of the reference bump (1.5 in fixed point).
pub const REF_HEIGHT: i64 = 1_500_000;

/// The reference value at time `t` of a run that ends at `t_final`:
/// `1.5 * exp(-(t - t_final / 2)^2 / (2 * 5^2))`.
pub open spec fn spec_reference_profile(t: int, t_final: int) -> int {
    let center = spec_tdiv(t_final, 2);
    let d = spec_fx_sub(t, center);
    let denominator = spec_fx_mul(FX_TWO as int, spec_fx_mul(REF_SIGMA as int, REF_SIGMA as int));
    spec_fx_mul(
        REF_HEIGHT as int,
        spec_fx_exp(spec_fx_div(spec_fx_neg(spec_fx_mul(d, d)), denominator)),
    )
}

/// Target mean membrane potential at time `t` of a run ending at `t_final`
/// (both in fixed-point time units): a Gaussian bump centred at
/// `t_final / 2`.
pub fn reference_profile(t: i64, t_final: i64) -> (v: i64)
    ensures
        v as int == spec_reference_profile(t as int, t_final as int),
{
    let center: i64 = fx_div_int(t_final, 2);
    let d: i64 = fx_sub(t, center);
    let sigma_squared: i64 = fx_mul(REF_SIGMA, REF_SIGMA);
    proof {
        vstd::arithmetic::div_mod::lemma_div_by_multiple(25_000_000int, 1_000_000int);
        assert(sigma_squared == 25_000_000);
    }
    let denominator: i64 = fx_mul(FX_TWO, sigma_squared);
    proof {
        vstd::arithmetic::div_mod::lemma_div_by_multiple(50_000_000int, 1_000_000int);
        assert(denominator == 50_000_000);
    }
    fx_mul(REF_HEIGHT, fx_exp(fx_div(fx_neg(fx_mul(d, d)), denominator)))
}

} // verus!
