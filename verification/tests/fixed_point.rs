//! The saturating fixed-point scalar operations on concrete values.

use fhn::fixed::{fx_add, fx_div, fx_exp, fx_mul, fx_neg, fx_sqrt, fx_sub, FX_LN2, FX_ONE};

#[test]
fn add_and_sub_are_exact_in_range() {
    assert_eq!(fx_add(1, 2), 3);
    assert_eq!(fx_sub(1_000_000, 2_500_000), -1_500_000);
    assert_eq!(fx_neg(-7), 7);
}

#[test]
fn add_saturates_at_the_i64_range() {
    assert_eq!(fx_add(i64::MAX, 1), i64::MAX);
    assert_eq!(fx_add(i64::MIN, -1), i64::MIN);
    assert_eq!(fx_sub(i64::MIN, 1), i64::MIN);
    assert_eq!(fx_neg(i64::MIN), i64::MAX);
}

#[test]
fn mul_rescales_by_one_unit() {
    assert_eq!(fx_mul(2_000_000, 3_000_000), 6_000_000);
    assert_eq!(fx_mul(-2_000_000, 3_000_000), -6_000_000);
    assert_eq!(fx_mul(1_500_000, 333_333), 499_999);
}

#[test]
fn mul_rounds_toward_zero() {
    assert_eq!(fx_mul(1, 1), 0);
    assert_eq!(fx_mul(7, -3), 0);
}

#[test]
fn mul_saturates() {
    assert_eq!(fx_mul(i64::MAX, 2_000_000), i64::MAX);
    assert_eq!(fx_mul(i64::MAX, -2_000_000), i64::MIN);
}

#[test]
fn div_rescales_and_rounds_toward_zero() {
    assert_eq!(fx_div(1_000_000, 3_000_000), 333_333);
    assert_eq!(fx_div(-1_000_000, 3_000_000), -333_333);
    assert_eq!(fx_div(6_000_000, -2_000_000), -3_000_000);
}

#[test]
fn sqrt_is_exact_on_squares() {
    assert_eq!(fx_sqrt(4_000_000), 2_000_000);
    assert_eq!(fx_sqrt(0), 0);
    assert_eq!(fx_sqrt(1_000_000), 1_000_000);
}

#[test]
fn sqrt_rounds_down() {
    assert_eq!(fx_sqrt(2_000_000), 1_414_213);
    assert_eq!(fx_sqrt(100_000), 316_227);
}

#[test]
fn exp_matches_reference_points() {
    assert_eq!(fx_exp(0), FX_ONE);
    assert_eq!(fx_exp(FX_LN2), 2_000_000);
    // e^0.3 = 1.349859, e^-0.3 = 0.740818
    assert_eq!(fx_exp(300_000), 1_349_858);
    assert_eq!(fx_exp(-300_000), 740_818);
}

#[test]
fn exp_flushes_large_negative_arguments_to_zero() {
    assert_eq!(fx_exp(-50_000_000), 0);
    assert_eq!(fx_exp(i64::MIN), 0);
}

#[test]
fn exp_saturates_for_large_arguments() {
    assert_eq!(fx_exp(i64::MAX), i64::MAX);
}
