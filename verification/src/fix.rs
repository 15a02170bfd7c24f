//! Saturating fixed-point scalar arithmetic.
//!
//! A scalar is an `i64` holding a real value scaled by `SCALE`: the value `v`
//! stands for the real number `v / 1024`. Every operation computes the exact
//! truncated result and then saturates it into `[-i64::MAX, i64::MAX]`, so all
//! operations are total and never overflow.

use vstd::prelude::*;

verus! {

/// Number of fixed-point units in 1.0.
pub const SCALE: i64 = 1024;

/// Absolute value over the mathematical integers.
pub open spec fn iabs(v: int) -> int {
    if v < 0 {
        -v
    } else {
        v
    }
}

/// Saturation of a mathematical integer into the symmetric `i64` range.
pub open spec fn sat(v: int) -> int {
    if v > i64::MAX {
        i64::MAX as int
    } else if v < -(i64::MAX as int) {
        -(i64::MAX as int)
    } else {
        v
    }
}

/// Saturation, returned as an `i64`.
pub open spec fn sat_fx(v: int) -> i64 {
    sat(v) as i64
}

/// Truncating division (round toward zero), as Rust's `/` computes it.
/// Meaningful only for `b != 0`.
pub open spec fn tdiv(a: int, b: int) -> int {
    if (a < 0) != (b < 0) {
        -(iabs(a) / iabs(b))
    } else {
        iabs(a) / iabs(b)
    }
}

/// Fixed-point addition.
pub open spec fn fx_add(a: i64, b: i64) -> i64 {
    sat_fx(a + b)
}

/// Fixed-point subtraction.
pub open spec fn fx_sub(a: i64, b: i64) -> i64 {
    sat_fx(a - b)
}

/// Fixed-point negation.
pub open spec fn fx_neg(a: i64) -> i64 {
    sat_fx(-a)
}

/// Fixed-point multiplication: `a * b / SCALE`, truncated.
pub open spec fn fx_mul(a: i64, b: i64) -> i64 {
    sat_fx(tdiv(a * b, SCALE as int))
}

/// Fixed-point division: `a * SCALE / b`, truncated.
/// A zero divisor yields zero.
pub open spec fn fx_div(a: i64, b: i64) -> i64 {
    if b == 0 {
        0
    } else {
        sat_fx(tdiv(a * SCALE, b as int))
    }
}

/// Multiplication of a fixed-point scalar by a plain integer.
pub open spec fn fx_muli(a: i64, k: i64) -> i64 {
    sat_fx(a * k)
}

/// Division of a fixed-point scalar by a plain integer.
/// A zero divisor yields zero.
pub open spec fn fx_divi(a: i64, k: i64) -> i64 {
    if k == 0 {
        0
    } else {
        sat_fx(tdiv(a as int, k as int))
    }
}

/// `max(0, a)`.
pub open spec fn fx_max0(a: i64) -> i64 {
    if a < 0 {
        0
    } else {
        a
    }
}

/// Clamp into `[-1.0, 1.0]`, that is `[-SCALE, SCALE]` in fixed-point units.
pub open spec fn fx_clamp1(a: i64) -> i64 {
    if a < -SCALE {
        (-SCALE) as i64
    } else if a > SCALE {
        SCALE
    } else {
        a
    }
}

/// The integer square root: the unique `r >= 0` with `r * r <= y < (r + 1) * (r + 1)`.
/// Meaningful only for `y >= 0`.
pub open spec fn isqrt(y: int) -> int {
    choose|r: int| 0 <= r && #[trigger] (r * r) <= y && y < (r + 1) * (r + 1)
}

/// Fixed-point square root: `sqrt(x / SCALE) * SCALE`, truncated.
/// Negative inputs are treated as zero.
#[verifier::opaque]
pub open spec fn fx_sqrt(x: i64) -> i64 {
    sat_fx(isqrt(if x < 0 { 0 } else { x * SCALE }))
}

/// Fixed-point power with a plain integer exponent: `(b / SCALE)^e * SCALE`,
/// each multiplication truncated.
pub open spec fn fx_pow(b: i64, e: nat) -> i64
    decreases e,
{
    if e == 0 {
        SCALE
    } else {
        fx_mul(b, fx_pow(b, (e - 1) as nat))
    }
}

/// The integer square root is unique, so `isqrt` picks exactly the witness.
pub proof fn lemma_isqrt_is(y: int, r: int)
    requires
        0 <= r,
        r * r <= y,
        y < (r + 1) * (r + 1),
    ensures
        isqrt(y) == r,
{
    assert(0 <= r && r * r <= y && y < (r + 1) * (r + 1));
    let s = isqrt(y);
    assert(0 <= s && s * s <= y && y < (s + 1) * (s + 1));
    assert(s == r) by (nonlinear_arith)
        requires
            0 <= r,
            r * r <= y,
            y < (r + 1) * (r + 1),
            0 <= s,
            s * s <= y,
            y < (s + 1) * (s + 1),
    ;
}

proof fn lemma_mul_i64_fits(a: int, b: int)
    requires
        i64::MIN <= a <= i64::MAX,
        i64::MIN <= b <= i64::MAX,
    ensures
        i128::MIN < a * b < i128::MAX,
{
    assert(i128::MIN < a * b < i128::MAX) by (nonlinear_arith)
        requires
            i64::MIN <= a <= i64::MAX,
            i64::MIN <= b <= i64::MAX,
    ;
}

fn sat64(v: i128) -> (r: i64)
    ensures
        r == sat_fx(v as int),
{
    if v > i64::MAX as i128 {
        i64::MAX
    } else if v < -(i64::MAX as i128) {
        -i64::MAX
    } else {
        v as i64
    }
}

fn tdiv128(a: i128, b: i128) -> (r: i128)
    requires
        b != 0,
        i128::MIN < a,
        i128::MIN < b,
    ensures
        r as int == tdiv(a as int, b as int),
{
    let ua: u128 = if a < 0 {
        (-a) as u128
    } else {
        a as u128
    };
    let ub: u128 = if b < 0 {
        (-b) as u128
    } else {
        b as u128
    };
    let q: u128 = ua / ub;
    assert(q as int == iabs(a as int) / iabs(b as int));
    assert(q <= ua);
    if (a < 0) != (b < 0) {
        -(q as i128)
    } else {
        q as i128
    }
}

/// Saturating fixed-point addition.
pub fn add_fx(a: i64, b: i64) -> (r: i64)
    ensures
        r == fx_add(a, b),
{
    sat64(a as i128 + b as i128)
}

/// Saturating fixed-point subtraction.
pub fn sub_fx(a: i64, b: i64) -> (r: i64)
    ensures
        r == fx_sub(a, b),
{
    sat64(a as i128 - b as i128)
}

/// Saturating fixed-point negation.
pub fn neg_fx(a: i64) -> (r: i64)
    ensures
        r == fx_neg(a),
{
    sat64(-(a as i128))
}

/// Saturating fixed-point multiplication.
pub fn mul_fx(a: i64, b: i64) -> (r: i64)
    ensures
        r == fx_mul(a, b),
{
    proof {
        lemma_mul_i64_fits(a as int, b as int);
    }
    let p: i128 = (a as i128) * (b as i128);
    let q: i128 = tdiv128(p, SCALE as i128);
    sat64(q)
}

/// Saturating fixed-point division; a zero divisor yields zero.
pub fn div_fx(a: i64, b: i64) -> (r: i64)
    ensures
        r == fx_div(a, b),
{
    if b == 0 {
        return 0;
    }
    proof {
        lemma_mul_i64_fits(a as int, SCALE as int);
    }
    let p: i128 = (a as i128) * (SCALE as i128);
    let q: i128 = tdiv128(p, b as i128);
    sat64(q)
}

/// Saturating multiplication by a plain integer.
pub fn muli_fx(a: i64, k: i64) -> (r: i64)
    ensures
        r == fx_muli(a, k),
{
    proof {
        lemma_mul_i64_fits(a as int, k as int);
    }
    let p: i128 = (a as i128) * (k as i128);
    sat64(p)
}

/// Saturating division by a plain integer; a zero divisor yields zero.
pub fn divi_fx(a: i64, k: i64) -> (r: i64)
    ensures
        r == fx_divi(a, k),
{
    if k == 0 {
        return 0;
    }
    let q: i128 = tdiv128(a as i128, k as i128);
    sat64(q)
}

/// `max(0, a)`.
pub fn max0_fx(a: i64) -> (r: i64)
    ensures
        r == fx_max0(a),
{
    if a < 0 {
        0
    } else {
        a
    }
}

/// Clamp into `[-1.0, 1.0]`.
pub fn clamp1_fx(a: i64) -> (r: i64)
    ensures
        r == fx_clamp1(a),
{
    if a < -SCALE {
        -SCALE
    } else if a > SCALE {
        SCALE
    } else {
        a
    }
}

fn isqrt_u(y: u128) -> (r: u128)
    requires
        y < 0x4000_0000_0000_0000_0000_0000_0000_0000u128,
    ensures
        0 <= r as int,
        (r as int) * (r as int) <= y as int,
        (y as int) < (r as int + 1) * (r as int + 1),
{
    if y == 0 {
        return 0;
    }
    let mut lo: u128 = 0;
    let mut hi: u128 = 0x8000_0000_0000_0000u128;
    assert((hi as int) * (hi as int) > y as int) by (nonlinear_arith)
        requires
            hi == 0x8000_0000_0000_0000u128,
            y < 0x4000_0000_0000_0000_0000_0000_0000_0000u128,
    ;
    while lo + 1 < hi
        invariant
            lo < hi,
            hi <= 0x8000_0000_0000_0000u128,
            (lo as int) * (lo as int) <= y as int,
            (y as int) < (hi as int) * (hi as int),
        decreases hi - lo,
    {
        let mid: u128 = lo + (hi - lo) / 2;
        assert(lo < mid < hi);
        if mid <= y / mid {
            proof {
                assert((mid as int) * (mid as int) <= y as int) by (nonlinear_arith)
                    requires
                        0 < mid,
                        mid as int <= (y as int) / (mid as int),
                ;
            }
            lo = mid;
        } else {
            proof {
                assert((y as int) < (mid as int) * (mid as int)) by (nonlinear_arith)
                    requires
                        0 < mid,
                        mid as int > (y as int) / (mid as int),
                ;
            }
            hi = mid;
        }
    }
    lo
}

/// Saturating fixed-point square root of a non-negative scalar.
pub fn sqrt_fx(x: i64) -> (r: i64)
    requires
        0 <= x,
    ensures
        r == fx_sqrt(x),
{
    proof {
        assert(0 <= (x as int) * 1024 && (x as int) * 1024 < u128::MAX) by (nonlinear_arith)
            requires
                0 <= x as int <= i64::MAX,
        ;
    }
    proof {
        reveal(fx_sqrt);
    }
    let y: u128 = (x as u128) * (SCALE as u128);
    assert(y as int == (x as int) * 1024);
    assert(y < 0x4000_0000_0000_0000_0000_0000_0000_0000u128);
    let s: u128 = isqrt_u(y);
    proof {
        lemma_isqrt_is(y as int, s as int);
        assert(s as int <= 0x1_0000_0000_0000u128 as int) by (nonlinear_arith)
            requires
                (s as int) * (s as int) <= y as int,
                y as int <= 0x8000_0000_0000_0000_0000i128 as int,
                0 <= s as int,
        ;
    }
    sat64(s as i128)
}

/// Saturating fixed-point power with a plain integer exponent.
pub fn pow_fx(b: i64, e: u32) -> (r: i64)
    ensures
        r == fx_pow(b, e as nat),
{
    let mut acc: i64 = SCALE;
    let mut k: u32 = 0;
    while k < e
        invariant
            k <= e,
            acc == fx_pow(b, k as nat),
        decreases e - k,
    {
        acc = mul_fx(b, acc);
        k = k + 1;
        assert(acc == fx_pow(b, k as nat));
    }
    acc
}

} // verus!
