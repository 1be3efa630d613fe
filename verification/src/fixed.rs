//! Saturating fixed-point scalars.
//!
//! A physical quantity (metres per second, Pascal, ...) is stored as an `i64`
//! counting multiples of `1 / SCALE`.  Every operation first computes the
//! exact mathematical result (with division truncated toward zero, as machine
//! division does) and then saturates it into `[-FP_MAX, FP_MAX]`.  The spec
//! functions below give each executable operation its exact meaning.

use vstd::prelude::*;

verus! {

/// Number of fixed-point steps per physical unit.
pub const SCALE: i64 = 1_000_000_000;

/// Largest magnitude a scalar may take; arithmetic saturates here.
pub const FP_MAX: i64 = 0x1000_0000_0000_0000;

pub open spec fn in_range(x: int) -> bool {
    -(FP_MAX as int) <= x <= FP_MAX as int
}

/// Saturation into the representable band.
pub open spec fn clip(x: int) -> int {
    if x > FP_MAX as int {
        FP_MAX as int
    } else if x < -(FP_MAX as int) {
        -(FP_MAX as int)
    } else {
        x
    }
}

/// Division truncated toward zero (what machine division computes),
/// for a positive divisor.
pub open spec fn tdiv(a: int, b: int) -> int
    recommends
        b > 0,
{
    if a >= 0 {
        a / b
    } else {
        -((-a) / b)
    }
}

pub open spec fn fp_add(a: int, b: int) -> int {
    clip(a + b)
}

pub open spec fn fp_sub(a: int, b: int) -> int {
    clip(a - b)
}

pub open spec fn fp_neg(a: int) -> int {
    clip(-a)
}

/// Fixed-point product: the mathematical product carries a factor
/// `SCALE * SCALE`, so one factor of `SCALE` is divided back out.
pub open spec fn fp_mul(a: int, b: int) -> int {
    clip(tdiv(a * b, SCALE as int))
}

/// Fixed-point quotient.
pub open spec fn fp_div(a: int, b: int) -> int
    recommends
        b > 0,
{
    clip(tdiv(a * (SCALE as int), b))
}

pub open spec fn fp_abs(a: int) -> int {
    if a >= 0 {
        a
    } else {
        -a
    }
}

/// The fixed-point image of a small integer.
pub open spec fn fp_of_int(n: int) -> int {
    clip(n * (SCALE as int))
}

/// Mean of two scalars, truncated toward zero.
pub open spec fn fp_avg(a: int, b: int) -> int {
    clip(tdiv(a + b, 2))
}

/// Dividing a multiple of `s` by `s` is exact.
pub proof fn lemma_tdiv_exact(x: int, s: int)
    requires
        s > 0,
    ensures
        tdiv(x * s, s) == x,
{
    if x >= 0 {
        assert(x * s >= 0) by (nonlinear_arith)
            requires x >= 0 && s > 0;
        assert((x * s) / s == x) by (nonlinear_arith)
            requires s > 0;
    } else {
        assert(x * s < 0) by (nonlinear_arith)
            requires x < 0 && s > 0;
        assert(-(x * s) == (-x) * s) by (nonlinear_arith);
        assert(((-x) * s) / s == -x) by (nonlinear_arith)
            requires s > 0;
    }
}

/// Multiplying by the image of an integer is exact scaling (before clipping).
pub proof fn lemma_fp_mul_of_int(c: int, m: int)
    requires
        in_range(m * (SCALE as int)),
    ensures
        fp_mul(c, fp_of_int(m)) == clip(c * m),
{
    assert(c * (m * (SCALE as int)) == (c * m) * (SCALE as int)) by (nonlinear_arith);
    lemma_tdiv_exact(c * m, SCALE as int);
}

/// Zero is absorbing for the fixed-point product and quotient.
pub proof fn lemma_fp_zero()
    ensures
        forall|a: int| #[trigger] fp_mul(a, 0) == 0,
        forall|a: int| #[trigger] fp_mul(0, a) == 0,
        forall|b: int| b > 0 ==> #[trigger] fp_div(0, b) == 0,
{
    vstd::arithmetic::div_mod::lemma_div_of0(SCALE as int);
    assert forall|a: int| #[trigger] fp_mul(a, 0) == 0 by {
        assert(a * 0 == 0) by (nonlinear_arith);
    }
    assert forall|a: int| #[trigger] fp_mul(0, a) == 0 by {
        assert(0 * a == 0) by (nonlinear_arith);
    }
    assert forall|b: int| b > 0 implies #[trigger] fp_div(0, b) == 0 by {
        vstd::arithmetic::div_mod::lemma_div_of0(b);
        assert(0 * (SCALE as int) == 0) by (nonlinear_arith);
    }
}

/// A product whose mathematical value reaches one full unit stays positive
/// under fixed-point truncation.
pub proof fn lemma_fp_mul_ge_one(a: int, b: int)
    requires
        a * b >= SCALE as int,
    ensures
        fp_mul(a, b) >= 1,
{
    vstd::arithmetic::div_mod::lemma_div_is_ordered(SCALE as int, a * b, SCALE as int);
    vstd::arithmetic::div_mod::lemma_div_by_self(SCALE as int);
}

/// Truncating division for wide intermediates.  `a` must be strictly above
/// `i128::MIN` so that its magnitude is representable.
fn tdiv_i128(a: i128, b: i128) -> (r: i128)
    requires
        b > 0,
        a > i128::MIN,
    ensures
        r == tdiv(a as int, b as int),
        fp_abs(r as int) <= fp_abs(a as int),
{
    if a >= 0 {
        let q: u128 = (a as u128) / (b as u128);
        proof {
            assert((a as u128) as int == a as int);
            vstd::arithmetic::div_mod::lemma_div_is_ordered_by_denominator(a as int, 1, b as int);
            vstd::arithmetic::div_mod::lemma_div_by_self(1);
        }
        q as i128
    } else {
        let n: i128 = -a;
        let q: u128 = (n as u128) / (b as u128);
        proof {
            assert((n as u128) as int == n as int);
            vstd::arithmetic::div_mod::lemma_div_is_ordered_by_denominator(n as int, 1, b as int);
            vstd::arithmetic::div_mod::lemma_div_by_self(1);
        }
        -(q as i128)
    }
}

/// Saturate a wide intermediate back to a scalar.
fn clamp_i128(q: i128) -> (r: i64)
    ensures
        r as int == clip(q as int),
{
    if q > FP_MAX as i128 {
        FP_MAX
    } else if q < -(FP_MAX as i128) {
        -FP_MAX
    } else {
        q as i64
    }
}

pub fn add_fp(a: i64, b: i64) -> (r: i64)
    requires
        in_range(a as int),
        in_range(b as int),
    ensures
        r as int == fp_add(a as int, b as int),
        in_range(r as int),
{
    clamp_i128((a as i128) + (b as i128))
}

pub fn sub_fp(a: i64, b: i64) -> (r: i64)
    requires
        in_range(a as int),
        in_range(b as int),
    ensures
        r as int == fp_sub(a as int, b as int),
        in_range(r as int),
{
    clamp_i128((a as i128) - (b as i128))
}

pub fn neg_fp(a: i64) -> (r: i64)
    requires
        in_range(a as int),
    ensures
        r as int == fp_neg(a as int),
        in_range(r as int),
{
    clamp_i128(-(a as i128))
}

pub fn mul_fp(a: i64, b: i64) -> (r: i64)
    requires
        in_range(a as int),
        in_range(b as int),
    ensures
        r as int == fp_mul(a as int, b as int),
        in_range(r as int),
{
    proof {
        assert(-(FP_MAX as int) * (FP_MAX as int) <= (a as int) * (b as int)
            <= (FP_MAX as int) * (FP_MAX as int)) by (nonlinear_arith)
            requires
                -(FP_MAX as int) <= a as int <= FP_MAX as int,
                -(FP_MAX as int) <= b as int <= FP_MAX as int;
    }
    let p: i128 = (a as i128) * (b as i128);
    let q: i128 = tdiv_i128(p, SCALE as i128);
    clamp_i128(q)
}

pub fn div_fp(a: i64, b: i64) -> (r: i64)
    requires
        in_range(a as int),
        0 < b,
    ensures
        r as int == fp_div(a as int, b as int),
        in_range(r as int),
{
    proof {
        assert(-(FP_MAX as int) * (SCALE as int) <= (a as int) * (SCALE as int)
            <= (FP_MAX as int) * (SCALE as int)) by (nonlinear_arith)
            requires
                -(FP_MAX as int) <= a as int <= FP_MAX as int;
    }
    let p: i128 = (a as i128) * (SCALE as i128);
    let q: i128 = tdiv_i128(p, b as i128);
    clamp_i128(q)
}

pub fn abs_fp(a: i64) -> (r: i64)
    requires
        in_range(a as int),
    ensures
        r as int == fp_abs(a as int),
        in_range(r as int),
{
    if a >= 0 {
        a
    } else {
        -a
    }
}

pub fn of_int_fp(n: i64) -> (r: i64)
    requires
        -1_000_000_000 <= n <= 1_000_000_000,
    ensures
        r as int == fp_of_int(n as int),
        in_range(r as int),
{
    proof {
        assert(-1_000_000_000 * (SCALE as int) <= (n as int) * (SCALE as int)
            <= 1_000_000_000 * (SCALE as int)) by (nonlinear_arith)
            requires
                -1_000_000_000 <= n as int <= 1_000_000_000;
    }
    clamp_i128((n as i128) * (SCALE as i128))
}

pub fn avg_fp(a: i64, b: i64) -> (r: i64)
    requires
        in_range(a as int),
        in_range(b as int),
    ensures
        r as int == fp_avg(a as int, b as int),
        in_range(r as int),
{
    let q: i128 = tdiv_i128((a as i128) + (b as i128), 2);
    clamp_i128(q)
}

} // verus!
