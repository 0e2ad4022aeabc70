//! The fixed-point audio scalar and its exact arithmetic.
//!
//! A [`Sample`] is a Q32.32 fixed-point number: an `i64` whose value is the
//! represented quantity times [`ONE`] (2^32). Addition and multiplication
//! saturate at the `i64` range instead of overflowing, so every audio-rate
//! operation is total; the contracts state the results exactly.

use vstd::prelude::*;

verus! {

/// One audio-rate scalar, in Q32.32 fixed point: an `i64` holding the
/// represented value times 2^32.
pub type Sample = i64;

/// The fixed-point representation of 1.0 (2^32).
pub const ONE: Sample = 4294967296;

/// The fixed-point representation of 0.5.
pub const HALF: Sample = 2147483648;

/// `ONE` as the phase unit: a phase of `PHASE_ONE` is one full cycle.
pub const PHASE_ONE: u64 = 4294967296;

/// Clamps a mathematical integer into the `i64` range.
pub open spec fn clip(x: int) -> int {
    if x > i64::MAX as int {
        i64::MAX as int
    } else if x < i64::MIN as int {
        i64::MIN as int
    } else {
        x
    }
}

/// The exact value of fixed-point multiplication: the full product scaled
/// down by `ONE`, truncated toward zero, clamped into the `i64` range.
pub open spec fn fx_mul_spec(a: int, b: int) -> int {
    let p = a * b;
    if p >= 0 {
        clip(p / (ONE as int))
    } else {
        clip(-((-p) / (ONE as int)))
    }
}

/// The exact value of fixed-point division of `a` by the plain integer `d`:
/// truncated toward zero.
pub open spec fn div_int_spec(a: int, d: int) -> int
    recommends
        d > 0,
{
    if a >= 0 {
        a / d
    } else {
        -((-a) / d)
    }
}

/// Saturating addition of two samples.
pub fn sat_add(a: Sample, b: Sample) -> (r: Sample)
    ensures
        r == clip(a + b),
{
    match a.checked_add(b) {
        Some(s) => s,
        None => {
            if b > 0 {
                i64::MAX
            } else {
                i64::MIN
            }
        },
    }
}

/// Saturating subtraction of two samples.
pub fn sat_sub(a: Sample, b: Sample) -> (r: Sample)
    ensures
        r == clip(a - b),
{
    match a.checked_sub(b) {
        Some(s) => s,
        None => {
            if b < 0 {
                i64::MAX
            } else {
                i64::MIN
            }
        },
    }
}

/// Magnitude of a sample as a `u64` (total, also at `i64::MIN`).
pub fn abs_u64(a: Sample) -> (r: u64)
    ensures
        r == if a >= 0 { a as int } else { -a as int },
{
    if a >= 0 {
        a as u64
    } else {
        (-(a as i128)) as u64
    }
}

/// Fixed-point multiplication: `a * b / ONE`, truncated toward zero,
/// saturating at the `i64` range.
pub fn fx_mul(a: Sample, b: Sample) -> (r: Sample)
    ensures
        r == fx_mul_spec(a as int, b as int),
{
    let neg: bool = (a < 0) != (b < 0);
    let aa: u64 = abs_u64(a);
    let bb: u64 = abs_u64(b);
    proof {
        assert((aa as int) * (bb as int) <= 0x8000000000000000 * 0x8000000000000000)
            by (nonlinear_arith)
            requires
                aa as int <= 0x8000000000000000,
                bb as int <= 0x8000000000000000,
        ;
        lemma_abs_product(a as int, b as int);
    }
    let m: u128 = (aa as u128) * (bb as u128) / (ONE as u128);
    if neg {
        if m >= 9223372036854775808u128 {
            i64::MIN
        } else {
            -(m as i64)
        }
    } else {
        if m > i64::MAX as u128 {
            i64::MAX
        } else {
            m as i64
        }
    }
}

/// The product of two integers has the magnitude of the product of their
/// magnitudes, with the sign given by the signs of the factors.
proof fn lemma_abs_product(a: int, b: int)
    ensures
        a * b == if (a < 0) != (b < 0) {
            -((if a >= 0 { a } else { -a }) * (if b >= 0 { b } else { -b }))
        } else {
            (if a >= 0 { a } else { -a }) * (if b >= 0 { b } else { -b })
        },
{
    assert(a * b == if (a < 0) != (b < 0) {
        -((if a >= 0 { a } else { -a }) * (if b >= 0 { b } else { -b }))
    } else {
        (if a >= 0 { a } else { -a }) * (if b >= 0 { b } else { -b })
    }) by (nonlinear_arith);
}

/// Saturating multiplication of a sample by a plain non-negative integer.
pub fn sat_mul_int(a: Sample, m: u64) -> (r: Sample)
    ensures
        r == clip(a * m),
{
    proof {
        lemma_abs_product(a as int, m as int);
        assert((if a >= 0 { a as int } else { -(a as int) }) * (m as int)
            <= 0x8000000000000000 * 0xFFFFFFFFFFFFFFFF) by (nonlinear_arith)
            requires
                0 <= (if a >= 0 { a as int } else { -(a as int) })
                    && (if a >= 0 { a as int } else { -(a as int) }) <= 0x8000000000000000,
                0 <= (m as int) && (m as int) <= 0xFFFFFFFFFFFFFFFF,
        ;
    }
    let aa: u64 = abs_u64(a);
    let p: u128 = (aa as u128) * (m as u128);
    if a < 0 {
        if p >= 9223372036854775808u128 {
            i64::MIN
        } else {
            -(p as i64)
        }
    } else {
        if p > i64::MAX as u128 {
            i64::MAX
        } else {
            p as i64
        }
    }
}

/// Fixed-point division by a positive plain integer, truncated toward zero.
pub fn div_int(a: Sample, d: u64) -> (r: Sample)
    requires
        d >= 1,
    ensures
        r == div_int_spec(a as int, d as int),
{
    if a >= 0 {
        ((a as u64) / d) as i64
    } else {
        let q: u128 = ((-(a as i128)) as u128) / (d as u128);
        if q >= 9223372036854775808u128 {
            i64::MIN
        } else {
            -(q as i64)
        }
    }
}

} // verus!
