//! Saturating fixed-point scalars.
//!
//! A real number `x` is represented by the `i64` nearest `x * 1_000_000`
//! (one million units per 1.0).  Every arithmetic operation rounds its exact
//! quotient toward zero and saturates at the `i64` range; each executable
//! operation is proved to return exactly the value of its spec-level
//! counterpart, so that the whole numerical pipeline built on top of these
//! operations has an exact mathematical description.

use vstd::prelude::*;
use vstd::arithmetic::power2::pow2;

verus! {

/// Fixed-point representation of 1.0.
pub const FX_ONE: i64 = 1_000_000;

/// Fixed-point representation of 2.0.
pub const FX_TWO: i64 = 2_000_000;

/// Magnitude of a mathematical integer.
pub open spec fn iabs(x: int) -> int {
    if x >= 0 {
        x
    } else {
        -x
    }
}

/// True when `x` fits in the `i64` range.
pub open spec fn fx_in_range(x: int) -> bool {
    i64::MIN <= x <= i64::MAX
}

/// Saturate `x` into the `i64` range.
pub open spec fn spec_clamp(x: int) -> int {
    if x > i64::MAX {
        i64::MAX as int
    } else if x < i64::MIN {
        i64::MIN as int
    } else {
        x
    }
}

/// Quotient of `a` by `b` rounded toward zero (`b != 0`).
pub open spec fn spec_tdiv(a: int, b: int) -> int {
    let q = iabs(a) / iabs(b);
    if (a >= 0) == (b >= 0) {
        q
    } else {
        -q
    }
}

/// Saturating addition.
pub open spec fn spec_fx_add(a: int, b: int) -> int {
    spec_clamp(a + b)
}

/// Saturating subtraction.
pub open spec fn spec_fx_sub(a: int, b: int) -> int {
    spec_clamp(a - b)
}

/// Saturating negation.
pub open spec fn spec_fx_neg(a: int) -> int {
    spec_clamp(-a)
}

/// Saturating fixed-point product: `a * b` rescaled by one unit.
pub open spec fn spec_fx_mul(a: int, b: int) -> int {
    spec_clamp(spec_tdiv(a * b, FX_ONE as int))
}

/// Saturating fixed-point quotient: `a / b` rescaled by one unit (`b != 0`).
pub open spec fn spec_fx_div(a: int, b: int) -> int {
    spec_clamp(spec_tdiv(a * FX_ONE, b))
}

/// Truncating division shrinks the magnitude: the quotient of an in-range
/// value by a positive count is again in range.
pub proof fn lemma_tdiv_in_range(a: int, b: int)
    requires
        fx_in_range(a),
        b >= 1,
    ensures
        fx_in_range(spec_tdiv(a, b)),
        iabs(spec_tdiv(a, b)) <= iabs(a),
{
    vstd::arithmetic::div_mod::lemma_div_is_ordered_by_denominator(iabs(a), 1, b);
    vstd::arithmetic::div_mod::lemma_div_pos_is_pos(iabs(a), b);
    assert(iabs(a) / 1 == iabs(a));
}

/// Saturating addition.
pub fn fx_add(a: i64, b: i64) -> (r: i64)
    ensures
        r as int == spec_fx_add(a as int, b as int),
{
    let s: i128 = a as i128 + b as i128;
    if s > i64::MAX as i128 {
        i64::MAX
    } else if s < i64::MIN as i128 {
        i64::MIN
    } else {
        s as i64
    }
}

/// Saturating subtraction.
pub fn fx_sub(a: i64, b: i64) -> (r: i64)
    ensures
        r as int == spec_fx_sub(a as int, b as int),
{
    let s: i128 = a as i128 - b as i128;
    if s > i64::MAX as i128 {
        i64::MAX
    } else if s < i64::MIN as i128 {
        i64::MIN
    } else {
        s as i64
    }
}

/// Saturating negation.
pub fn fx_neg(a: i64) -> (r: i64)
    ensures
        r as int == spec_fx_neg(a as int),
{
    fx_sub(0, a)
}

/// Magnitude of `a` as a `u128`.
fn abs_u128(a: i64) -> (r: u128)
    ensures
        r as int == iabs(a as int),
{
    if a >= 0 {
        a as u128
    } else {
        (-(a as i128)) as u128
    }
}

/// Quotient of the magnitudes `num / den`, truncated, negated when `neg`
/// holds, and saturated into the `i64` range.
fn clamp_div_mag(num: u128, den: u128, neg: bool) -> (r: i64)
    requires
        den > 0,
    ensures
        ({
            let q = num as int / den as int;
            r as int == spec_clamp(if neg { -q } else { q })
        }),
{
    let q: u128 = num / den;
    proof {
        vstd::arithmetic::div_mod::lemma_div_pos_is_pos(num as int, den as int);
    }
    if neg {
        if q >= 9_223_372_036_854_775_808u128 {
            i64::MIN
        } else {
            -(q as i64)
        }
    } else {
        if q > i64::MAX as u128 {
            i64::MAX
        } else {
            q as i64
        }
    }
}

/// The magnitude of a product is the product of the magnitudes, and the
/// product is negative exactly when the signs differ (unless it is zero).
proof fn lemma_abs_mul(a: int, b: int)
    ensures
        iabs(a * b) == iabs(a) * iabs(b),
        ((a >= 0) == (b >= 0)) ==> a * b >= 0,
        ((a >= 0) != (b >= 0)) ==> a * b <= 0,
{
    assert(iabs(a * b) == iabs(a) * iabs(b)) by (nonlinear_arith);
    assert(((a >= 0) == (b >= 0)) ==> a * b >= 0) by (nonlinear_arith);
    assert(((a >= 0) != (b >= 0)) ==> a * b <= 0) by (nonlinear_arith);
}

/// Relate a truncated division to the division of magnitudes.
proof fn lemma_tdiv_via_mag(x: int, d: int)
    requires
        d > 0,
    ensures
        x >= 0 ==> spec_tdiv(x, d) == iabs(x) / d,
        x < 0 ==> spec_tdiv(x, d) == -(iabs(x) / d),
        x == 0 ==> spec_tdiv(x, d) == 0,
{
    if x == 0 {
        assert(iabs(0int) / d == 0) by {
            vstd::arithmetic::div_mod::lemma_div_of0(d);
        }
    }
}

/// Saturating fixed-point multiplication.
pub fn fx_mul(a: i64, b: i64) -> (r: i64)
    ensures
        r as int == spec_fx_mul(a as int, b as int),
{
    let neg: bool = (a < 0) != (b < 0);
    let am: u128 = abs_u128(a);
    let bm: u128 = abs_u128(b);
    proof {
        assert(am as int * bm as int <= u128::MAX) by (nonlinear_arith)
            requires
                0 <= am as int <= 9_223_372_036_854_775_808int,
                0 <= bm as int <= 9_223_372_036_854_775_808int,
        ;
    }
    let p: u128 = am * bm;
    let r = clamp_div_mag(p, FX_ONE as u128, neg);
    proof {
        lemma_abs_mul(a as int, b as int);
        lemma_tdiv_via_mag(a as int * b as int, FX_ONE as int);
        vstd::arithmetic::div_mod::lemma_div_of0(FX_ONE as int);
    }
    r
}

/// Saturating fixed-point division (`b != 0`).
pub fn fx_div(a: i64, b: i64) -> (r: i64)
    requires
        b != 0,
    ensures
        r as int == spec_fx_div(a as int, b as int),
{
    let neg: bool = (a < 0) != (b < 0);
    let am: u128 = abs_u128(a);
    let bm: u128 = abs_u128(b);
    proof {
        assert(am as int * (FX_ONE as u128) as int <= u128::MAX) by (nonlinear_arith)
            requires
                0 <= am as int <= 9_223_372_036_854_775_808int,
                0 < (FX_ONE as u128) as int <= 9_223_372_036_854_775_808int,
        ;
    }
    let num: u128 = am * (FX_ONE as u128);
    let r = clamp_div_mag(num, bm, neg);
    proof {
        lemma_abs_mul(a as int, FX_ONE as int);
        let x = a as int * FX_ONE as int;
        // the sign of a * FX_ONE agrees with the sign of a
        assert((a as int) > 0 ==> x > 0) by (nonlinear_arith)
            requires
                x == a as int * 1_000_000int,
        ;
        assert((a as int) < 0 ==> x < 0) by (nonlinear_arith)
            requires
                x == a as int * 1_000_000int,
        ;
        vstd::arithmetic::div_mod::lemma_div_of0(iabs(b as int));
        vstd::arithmetic::div_mod::lemma_div_pos_is_pos(iabs(x), iabs(b as int));
    }
    r
}

/// Truncated division of a fixed-point value by a plain positive count
/// (used for population means and for exact thirds).
pub fn fx_div_int(a: i64, n: u64) -> (r: i64)
    requires
        n >= 1,
    ensures
        r as int == spec_tdiv(a as int, n as int),
{
    let neg: bool = a < 0;
    let am: u128 = abs_u128(a);
    let r = clamp_div_mag(am, n as u128, neg);
    proof {
        lemma_tdiv_via_mag(a as int, n as int);
        lemma_tdiv_in_range(a as int, n as int);
    }
    r
}

/// Fixed-point natural logarithm of 2 (ln 2 in units of 1e-6).
pub const FX_LN2: i64 = 693_147;

/// Number of Taylor terms used by the exponential after range reduction.
pub const EXP_TERMS: u64 = 12;

/// `j`-th Taylor term of `exp` at `r`, in fixed point: `r^j / j!` with each
/// step rounded toward zero.
pub open spec fn spec_exp_term(r: int, j: nat) -> int
    decreases j,
{
    if j == 0 {
        FX_ONE as int
    } else {
        spec_tdiv(spec_exp_term(r, (j - 1) as nat) * r, FX_ONE * j)
    }
}

/// Partial Taylor sum of `exp` at `r` with terms `0..=n`.
pub open spec fn spec_exp_taylor(r: int, n: nat) -> int
    decreases n,
{
    if n == 0 {
        FX_ONE as int
    } else {
        spec_exp_taylor(r, (n - 1) as nat) + spec_exp_term(r, n)
    }
}

/// Fixed-point `exp` for a nonnegative argument: range-reduce by `ln 2`
/// (`x == k * ln2 + r`), evaluate the Taylor sum on `r` and shift by `2^k`,
/// saturating at `i64::MAX`.
pub open spec fn spec_exp_pos(x: int) -> int {
    let k = x / (FX_LN2 as int);
    let r = x % (FX_LN2 as int);
    if k >= 63 {
        i64::MAX as int
    } else {
        spec_clamp(spec_exp_taylor(r, EXP_TERMS as nat) * pow2(k as nat))
    }
}

/// Fixed-point `exp`.  Arguments at or below -43.0 round to zero, which is
/// where the reciprocal of the saturated positive branch lands anyway.
pub open spec fn spec_fx_exp(x: int) -> int {
    if x >= 0 {
        spec_exp_pos(x)
    } else if x <= -43_000_000 {
        0
    } else {
        spec_fx_div(FX_ONE as int, spec_exp_pos(-x))
    }
}

proof fn lemma_exp_term_nonneg(r: int, j: nat)
    requires
        r >= 0,
    ensures
        spec_exp_term(r, j) >= 0,
    decreases j,
{
    if j > 0 {
        lemma_exp_term_nonneg(r, (j - 1) as nat);
        let prev = spec_exp_term(r, (j - 1) as nat);
        assert(prev * r >= 0) by (nonlinear_arith)
            requires
                prev >= 0,
                r >= 0,
        ;
        vstd::arithmetic::div_mod::lemma_div_pos_is_pos(prev * r, FX_ONE * j);
    }
}

proof fn lemma_exp_taylor_ge_one(r: int, n: nat)
    requires
        r >= 0,
    ensures
        spec_exp_taylor(r, n) >= FX_ONE,
    decreases n,
{
    if n > 0 {
        lemma_exp_taylor_ge_one(r, (n - 1) as nat);
        lemma_exp_term_nonneg(r, n);
    }
}

/// The positive-branch exponential always lies in `1 ..= i64::MAX`.
pub proof fn lemma_exp_pos_bounds(x: int)
    requires
        x >= 0,
    ensures
        1 <= spec_exp_pos(x) <= i64::MAX,
{
    let k = x / (FX_LN2 as int);
    let r = x % (FX_LN2 as int);
    vstd::arithmetic::div_mod::lemma_div_pos_is_pos(x, FX_LN2 as int);
    vstd::arithmetic::div_mod::lemma_mod_pos_bound(x, FX_LN2 as int);
    if k < 63 {
        lemma_exp_taylor_ge_one(r, EXP_TERMS as nat);
        vstd::arithmetic::power2::lemma_pow2_pos(k as nat);
        let t = spec_exp_taylor(r, EXP_TERMS as nat);
        assert((t * pow2(k as nat)) >= 1) by (nonlinear_arith)
            requires
                t >= 1,
                pow2(k as nat) >= 1,
        ;
    }
}

/// The fixed-point exponential is a value in `0 ..= i64::MAX`.
pub proof fn lemma_fx_exp_nonneg(x: int)
    ensures
        0 <= spec_fx_exp(x) <= i64::MAX,
{
    if x >= 0 {
        lemma_exp_pos_bounds(x);
    } else if x > -43_000_000 {
        lemma_exp_pos_bounds(-x);
        let e = spec_exp_pos(-x);
        assert(FX_ONE as int * FX_ONE as int >= 0);
        vstd::arithmetic::div_mod::lemma_div_pos_is_pos(iabs(FX_ONE as int * FX_ONE), iabs(e));
    }
}

fn exp_taylor(r: u64) -> (t: u64)
    requires
        r < 693_147,
    ensures
        t as int == spec_exp_taylor(r as int, EXP_TERMS as nat),
        t <= 13_000_000,
{
    let mut term: u64 = FX_ONE as u64;
    let mut acc: u64 = FX_ONE as u64;
    let mut j: u64 = 1;
    while j <= EXP_TERMS
        invariant
            1 <= j <= EXP_TERMS + 1,
            r < 693_147,
            term as int == spec_exp_term(r as int, (j - 1) as nat),
            acc as int == spec_exp_taylor(r as int, (j - 1) as nat),
            term <= 1_000_000,
            acc <= j * 1_000_000,
        decreases EXP_TERMS + 1 - j,
    {
        proof {
            assert((term as int) * (r as int) <= (1_000_000int * 693_146int)) by (nonlinear_arith)
                requires
                    0 <= term as int <= 1_000_000int,
                    0 <= r as int <= 693_146int,
            ;
            assert(((FX_ONE as u64) as int) * (j as int) <= (1_000_000int * 13int)) by (nonlinear_arith)
                requires
                    1 <= j as int <= 13int,
                    (FX_ONE as u64) as int == 1_000_000int,
            ;
        }
        let num: u64 = term * r;
        let den: u64 = (FX_ONE as u64) * j;
        proof {
            assert(den as int >= 1_000_000int) by (nonlinear_arith)
                requires
                    den as int == 1_000_000int * j as int,
                    j as int >= 1,
            ;
            vstd::arithmetic::div_mod::lemma_div_is_ordered_by_denominator(
                num as int,
                1_000_000int,
                den as int,
            );
            vstd::arithmetic::div_mod::lemma_div_is_ordered(
                num as int,
                1_000_000int * 693_146int,
                1_000_000int,
            );
            vstd::arithmetic::div_mod::lemma_div_by_multiple(693_146int, 1_000_000int);
        }
        term = num / den;
        proof {
            vstd::arithmetic::div_mod::lemma_div_pos_is_pos(num as int, den as int);
        }
        acc = acc + term;
        j = j + 1;
    }
    acc
}

fn exp_pos(x: i64) -> (e: i64)
    requires
        x >= 0,
    ensures
        e as int == spec_exp_pos(x as int),
{
    let xu: u64 = x as u64;
    let k: u64 = xu / 693_147;
    let ru: u64 = xu % 693_147;
    if k >= 63 {
        i64::MAX
    } else {
        let t: u64 = exp_taylor(ru);
        let mut p: u128 = t as u128;
        let mut i: u64 = 0;
        proof {
            vstd::arithmetic::power2::lemma2_to64();
        }
        while i < k
            invariant
                i <= k,
                k <= 62,
                t <= 13_000_000,
                p as int == (t as int) * pow2(i as nat),
            decreases k - i,
        {
            proof {
                vstd::arithmetic::power2::lemma_pow2_strictly_increases(i as nat, 63);
                vstd::arithmetic::power2::lemma2_to64_rest();
                assert((t as int) * pow2(i as nat) <= 13_000_000int * pow2(63)) by (nonlinear_arith)
                    requires
                        0 <= t as int <= 13_000_000int,
                        0 <= pow2(i as nat) <= pow2(63),
                ;
                vstd::arithmetic::power2::lemma_pow2_unfold((i + 1) as nat);
                assert(2 * ((t as int) * pow2(i as nat)) == (t as int) * (2 * pow2(
                    i as nat,
                ))) by (nonlinear_arith);
            }
            p = p * 2;
            i = i + 1;
        }
        proof {
            lemma_exp_taylor_ge_one(ru as int, EXP_TERMS as nat);
            vstd::arithmetic::power2::lemma_pow2_pos(k as nat);
            assert((t as int) * pow2(k as nat) >= 0) by (nonlinear_arith)
                requires
                    t as int >= 0,
                    pow2(k as nat) >= 0,
            ;
        }
        if p > i64::MAX as u128 {
            i64::MAX
        } else {
            p as i64
        }
    }
}

/// Fixed-point exponential, saturating at `i64::MAX` and flushing arguments
/// at or below -43.0 to zero.
pub fn fx_exp(x: i64) -> (r: i64)
    ensures
        r as int == spec_fx_exp(x as int),
{
    if x >= 0 {
        exp_pos(x)
    } else if x <= -43_000_000 {
        0
    } else {
        let e: i64 = exp_pos(-x);
        proof {
            lemma_exp_pos_bounds(-x as int);
        }
        fx_div(FX_ONE, e)
    }
}

/// `r` is the integer square root of `n`.
pub open spec fn is_isqrt(n: int, r: int) -> bool {
    r >= 0 && r * r <= n && n < (r + 1) * (r + 1)
}

/// The integer square root of a nonnegative `n`.
pub open spec fn spec_isqrt(n: int) -> int {
    choose|r: int| is_isqrt(n, r)
}

/// Fixed-point square root: `sqrt(x / 1e6) * 1e6 == sqrt(x * 1e6)`,
/// rounded down.
pub open spec fn spec_fx_sqrt(x: int) -> int {
    spec_isqrt(x * FX_ONE)
}

/// Any witness of `is_isqrt` is the integer square root.
pub proof fn lemma_isqrt_agrees(n: int, r: int)
    requires
        is_isqrt(n, r),
    ensures
        spec_isqrt(n) == r,
{
    let c = spec_isqrt(n);
    assert(is_isqrt(n, c));
    if c < r {
        assert((c + 1) * (c + 1) <= r * r) by (nonlinear_arith)
            requires
                0 <= c,
                c < r,
        ;
        assert(false);
    }
    if r < c {
        assert((r + 1) * (r + 1) <= c * c) by (nonlinear_arith)
            requires
                0 <= r,
                r < c,
        ;
        assert(false);
    }
}

/// Fixed-point square root of a nonnegative value, rounded down.
pub fn fx_sqrt(x: i64) -> (r: i64)
    requires
        x >= 0,
    ensures
        r as int == spec_fx_sqrt(x as int),
        r >= 0,
{
    proof {
        let xi = (x as u128) as int;
        assert((xi * 1_000_000int) < (8_796_093_022_208int * 8_796_093_022_208int))
            by (nonlinear_arith)
            requires
                0 <= xi,
                xi < 9_223_372_036_854_775_808int,
        ;
    }
    let n: u128 = (x as u128) * (FX_ONE as u128);
    let mut lo: u128 = 0;
    let mut hi: u128 = 8_796_093_022_208;
    while lo + 1 < hi
        invariant
            lo < hi,
            hi <= 8_796_093_022_208,
            (lo as int) * (lo as int) <= (n as int),
            (n as int) < (hi as int) * (hi as int),
        decreases hi - lo,
    {
        let mid: u128 = lo + (hi - lo) / 2;
        proof {
            assert((mid as int) * (mid as int) < u128::MAX) by (nonlinear_arith)
                requires
                    0 <= mid as int <= 8_796_093_022_208int,
            ;
        }
        let sq: u128 = mid * mid;
        if sq <= n {
            lo = mid;
        } else {
            hi = mid;
        }
    }
    proof {
        assert(is_isqrt(n as int, lo as int));
        lemma_isqrt_agrees(n as int, lo as int);
        assert((lo as int) * (lo as int) <= (n as int));
        assert(n as int == (x as int) * (FX_ONE as int));
    }
    lo as i64
}

} // verus!
