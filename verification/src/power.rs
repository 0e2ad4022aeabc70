//! Fixed-point powers and roots.
//!
//! Exponential decay needs a per-sample scaler `s` with `s^n <= 0.001` after
//! `n` samples (-60 dB), and the tuning tables need ratios such as the
//! 53rd and 159th roots of two. Both are found by binary search over a
//! fixed-point power function. [`pow_up`] rounds every step up, so
//! `pow_up(s, n) <= MILLI` is a sound certificate that the true power of
//! `s` is at most -60 dB; [`fx_pow`] rounds down like the audio-rate
//! multiplication itself.

use vstd::prelude::*;
use vstd::arithmetic::power::{
    pow, lemma_pow1, lemma_pow_adds, lemma_pow_distributes, lemma_pow_multiplies,
    lemma_pow_positive, lemma_square_is_pow2,
};
use vstd::arithmetic::mul::{lemma_mul_inequality, lemma_mul_nonnegative};
use vstd::arithmetic::div_mod::{
    lemma_div_is_ordered, lemma_div_multiples_vanish, lemma_fundamental_div_mod,
};
use crate::sample::{Sample, ONE, clip, fx_mul_spec, fx_mul};

verus! {

/// The fixed-point value of 0.001 (-60 dB), rounded down.
pub const MILLI: Sample = 4294967;

/// Fixed-point multiplication rounded up: `ceil(a * b / ONE)`, for
/// arguments in `[0, ONE]`.
pub open spec fn fx_mul_up_spec(a: int, b: int) -> int {
    (a * b + (ONE - 1)) / (ONE as int)
}

/// Fixed-point power with every multiplication rounded up, by squaring.
pub open spec fn pow_up_spec(s: int, n: nat) -> int
    decreases n,
{
    if n == 0 {
        ONE as int
    } else if n == 1 {
        s
    } else if n % 2 == 0 {
        pow_up_spec(fx_mul_up_spec(s, s), n / 2)
    } else {
        fx_mul_up_spec(s, pow_up_spec(s, (n - 1) as nat))
    }
}

/// Fixed-point power with the audio-rate rounding (toward zero).
pub open spec fn fx_pow_spec(s: int, n: nat) -> int
    decreases n,
{
    if n == 0 {
        ONE as int
    } else {
        fx_mul_spec(fx_pow_spec(s, (n - 1) as nat), s)
    }
}

/// One unfolding of the integer power: `b^e == b * b^(e-1)`.
pub proof fn lemma_pow_unfold(b: int, e: nat)
    requires
        e >= 1,
    ensures
        pow(b, e) == b * pow(b, (e - 1) as nat),
{
    lemma_pow1(b);
    lemma_pow_adds(b, 1, (e - 1) as nat);
}

/// An integer power of a non-negative base is non-negative.
proof fn lemma_pow_nonneg(b: int, e: nat)
    requires
        b >= 0,
    ensures
        pow(b, e) >= 0,
    decreases e,
{
    if e >= 1 {
        lemma_pow_nonneg(b, (e - 1) as nat);
        lemma_pow_unfold(b, e);
        lemma_mul_nonnegative(b, pow(b, (e - 1) as nat));
    } else {
        vstd::arithmetic::power::lemma_pow0(b);
    }
}

/// Raising both of two ordered non-negative bases to the same power keeps
/// the order.
pub proof fn lemma_pow_base_le(x: int, y: int, e: nat)
    requires
        0 <= x <= y,
    ensures
        pow(x, e) <= pow(y, e),
    decreases e,
{
    if e == 0 {
        vstd::arithmetic::power::lemma_pow0(x);
        vstd::arithmetic::power::lemma_pow0(y);
    }
    if e >= 1 {
        lemma_pow_base_le(x, y, (e - 1) as nat);
        lemma_pow_nonneg(x, (e - 1) as nat);
        lemma_pow_nonneg(y, (e - 1) as nat);
        lemma_pow_unfold(x, e);
        lemma_pow_unfold(y, e);
        assert(x * pow(x, (e - 1) as nat) <= y * pow(y, (e - 1) as nat))
            by (nonlinear_arith)
            requires
                0 <= x <= y,
                0 <= pow(x, (e - 1) as nat) <= pow(y, (e - 1) as nat),
        ;
    }
}

/// Rounding a product up loses nothing: the result times `ONE` covers the
/// product, and stays within `[0, ONE]` for factors in `[0, ONE]`.
pub proof fn lemma_fx_mul_up_bounds(a: int, b: int)
    requires
        0 <= a <= ONE,
        0 <= b <= ONE,
    ensures
        0 <= fx_mul_up_spec(a, b) <= ONE,
        fx_mul_up_spec(a, b) * ONE >= a * b,
{
    let p = a * b;
    lemma_mul_nonnegative(a, b);
    assert(a * b <= ONE * ONE) by (nonlinear_arith)
        requires
            0 <= a <= ONE,
            0 <= b <= ONE,
    ;
    let d = (p + (ONE - 1)) / (ONE as int);
    lemma_div_is_ordered(0, p + (ONE - 1), ONE as int);
    lemma_div_is_ordered(p + (ONE - 1), ONE * ONE + (ONE - 1), ONE as int);
    assert((ONE * ONE + (ONE - 1)) / (ONE as int) == ONE) by {
        assert(ONE * ONE + (ONE - 1) == (ONE as int) * (ONE + 1) - 1);
        lemma_fundamental_div_mod((ONE as int) * (ONE + 1) - 1, ONE as int);
        lemma_div_multiples_vanish(ONE + 1, ONE as int);
        assert(((ONE as int) * (ONE + 1) - 1) / (ONE as int) == ONE) by {
            let q = ((ONE as int) * (ONE + 1) - 1) / (ONE as int);
            let r = ((ONE as int) * (ONE + 1) - 1) % (ONE as int);
            assert((ONE as int) * (ONE + 1) - 1 == (ONE as int) * q + r);
            assert(0 <= r < ONE);
            assert(q == ONE) by (nonlinear_arith)
                requires
                    (ONE as int) * (ONE + 1) - 1 == (ONE as int) * q + r,
                    0 <= r < ONE,
            ;
        }
    }
    lemma_fundamental_div_mod(p + (ONE - 1), ONE as int);
    assert(d * ONE >= p) by (nonlinear_arith)
        requires
            p + (ONE - 1) == (ONE as int) * d + ((p + (ONE - 1)) % (ONE as int)),
            0 <= (p + (ONE - 1)) % (ONE as int) < ONE,
    ;
}

/// `pow_up_spec` stays in `[0, ONE]` and, scaled by `ONE^(n-1)`, covers the
/// exact integer power: it can only overestimate the decay per sample.
pub proof fn lemma_pow_up_ge(s: int, n: nat)
    requires
        0 <= s <= ONE,
    ensures
        0 <= pow_up_spec(s, n) <= ONE,
        n >= 1 ==> pow_up_spec(s, n) * pow(ONE as int, (n - 1) as nat) >= pow(s, n),
    decreases n,
{
    if n == 0 {
    } else if n == 1 {
        lemma_pow1(s);
        assert(pow(ONE as int, 0nat) == 1) by {
            vstd::arithmetic::power::lemma_pow0(ONE as int);
        }
        assert(s * pow(ONE as int, 0nat) == s) by (nonlinear_arith)
            requires
                pow(ONE as int, 0nat) == 1,
        ;
    } else if n % 2 == 0 {
        let k = n / 2;
        let s2 = fx_mul_up_spec(s, s);
        lemma_fx_mul_up_bounds(s, s);
        lemma_pow_up_ge(s2, k);
        let p = pow_up_spec(s2, k);
        assert(pow_up_spec(s, n) == p);
        lemma_pow_positive(ONE as int, (k - 1) as nat);
        lemma_pow_positive(ONE as int, k);
        lemma_pow_adds(ONE as int, (k - 1) as nat, k);
        assert((k - 1) as nat + k == (n - 1) as nat);
        assert(p * pow(ONE as int, (n - 1) as nat)
            == (p * pow(ONE as int, (k - 1) as nat)) * pow(ONE as int, k))
            by (nonlinear_arith)
            requires
                pow(ONE as int, (n - 1) as nat)
                    == pow(ONE as int, (k - 1) as nat) * pow(ONE as int, k),
        ;
        lemma_mul_inequality(pow(s2, k), p * pow(ONE as int, (k - 1) as nat),
            pow(ONE as int, k));
        lemma_pow_distributes(s2, ONE as int, k);
        lemma_mul_nonnegative(s, s);
        assert(0 <= s * s <= s2 * ONE);
        lemma_pow_base_le(s * s, s2 * ONE, k);
        lemma_square_is_pow2(s);
        lemma_pow_multiplies(s, 2, k);
        assert(pow(pow(s, 2), k) == pow(s, n));
        assert(pow(s2, k) * pow(ONE as int, k) == pow(s2 * ONE, k));
        assert(p * pow(ONE as int, (n - 1) as nat) >= pow(s, n));
        assert(pow_up_spec(s, n) * pow(ONE as int, (n - 1) as nat) >= pow(s, n));
    } else {
        let m = (n - 1) as nat;
        let q = pow_up_spec(s, m);
        lemma_pow_up_ge(s, m);
        lemma_fx_mul_up_bounds(s, q);
        let r = fx_mul_up_spec(s, q);
        assert(pow_up_spec(s, n) == r);
        lemma_pow_positive(ONE as int, (m - 1) as nat);
        lemma_pow_unfold(ONE as int, m);
        assert(pow(ONE as int, m) == ONE * pow(ONE as int, (m - 1) as nat));
        assert(r * pow(ONE as int, m) == (r * ONE) * pow(ONE as int, (m - 1) as nat))
            by (nonlinear_arith)
            requires
                pow(ONE as int, m) == ONE * pow(ONE as int, (m - 1) as nat),
        ;
        lemma_mul_inequality(s * q, r * ONE, pow(ONE as int, (m - 1) as nat));
        assert((s * q) * pow(ONE as int, (m - 1) as nat)
            == s * (q * pow(ONE as int, (m - 1) as nat))) by (nonlinear_arith);
        lemma_pow_nonneg(s, m);
        assert(s * (q * pow(ONE as int, (m - 1) as nat)) >= s * pow(s, m))
            by (nonlinear_arith)
            requires
                s >= 0,
                q * pow(ONE as int, (m - 1) as nat) >= pow(s, m),
        ;
        lemma_pow_unfold(s, n);
        assert(pow(s, n) == s * pow(s, m));
        assert(pow_up_spec(s, n) * pow(ONE as int, (n - 1) as nat) >= pow(s, n));
    }
}

/// Fixed-point multiplication rounded up, for factors in `[0, ONE]`.
pub fn fx_mul_up(a: Sample, b: Sample) -> (r: Sample)
    requires
        0 <= a <= ONE,
        0 <= b <= ONE,
    ensures
        r == fx_mul_up_spec(a as int, b as int),
        0 <= r <= ONE,
{
    proof {
        lemma_fx_mul_up_bounds(a as int, b as int);
        assert((a as int) * (b as int) <= ONE * ONE) by (nonlinear_arith)
            requires
                0 <= a as int <= ONE,
                0 <= b as int <= ONE,
        ;
    }
    let p: u128 = (a as u128) * (b as u128) + ((ONE - 1) as u128);
    (p / (ONE as u128)) as i64
}

/// Fixed-point power rounded up, by squaring.
pub fn pow_up(s: Sample, n: u64) -> (r: Sample)
    requires
        0 <= s <= ONE,
    ensures
        r == pow_up_spec(s as int, n as nat),
        0 <= r <= ONE,
    decreases n,
{
    proof {
        lemma_pow_up_ge(s as int, n as nat);
    }
    if n == 0 {
        ONE
    } else if n == 1 {
        s
    } else if n % 2 == 0 {
        let s2 = fx_mul_up(s, s);
        pow_up(s2, n / 2)
    } else {
        let q = pow_up(s, n - 1);
        fx_mul_up(s, q)
    }
}

/// `pow_up_spec` of zero vanishes for every positive exponent.
pub proof fn lemma_pow_up_zero(n: nat)
    ensures
        n >= 1 ==> pow_up_spec(0, n) == 0,
    decreases n,
{
    if n >= 2 {
        assert(fx_mul_up_spec(0, 0) == 0) by {
            lemma_div_is_ordered(0, ONE - 1, ONE as int);
            lemma_div_is_ordered(ONE - 1, ONE - 1, ONE as int);
            assert((ONE - 1) / (ONE as int) == 0) by {
                lemma_fundamental_div_mod(ONE - 1, ONE as int);
                let q = (ONE - 1) / (ONE as int);
                let r = (ONE - 1) % (ONE as int);
                assert(ONE - 1 == (ONE as int) * q + r);
                assert(0 <= r < ONE);
                assert(q == 0) by (nonlinear_arith)
                    requires
                        ONE - 1 == (ONE as int) * q + r,
                        0 <= r < ONE,
                ;
            }
        }
        lemma_pow_up_zero(n / 2);
        lemma_pow_up_zero((n - 1) as nat);
        if n % 2 != 0 {
            assert(fx_mul_up_spec(0, pow_up_spec(0, (n - 1) as nat)) == fx_mul_up_spec(0, 0));
        }
    }
}

/// `pow_up_spec` of one is one at every exponent.
pub proof fn lemma_pow_up_one(n: nat)
    ensures
        pow_up_spec(ONE as int, n) == ONE,
    decreases n,
{
    if n >= 2 {
        assert(fx_mul_up_spec(ONE as int, ONE as int) == ONE) by {
            lemma_fundamental_div_mod((ONE as int) * (ONE as int) + (ONE - 1), ONE as int);
            let q = ((ONE as int) * (ONE as int) + (ONE - 1)) / (ONE as int);
            let r = ((ONE as int) * (ONE as int) + (ONE - 1)) % (ONE as int);
            assert(q == ONE) by (nonlinear_arith)
                requires
                    (ONE as int) * (ONE as int) + (ONE - 1) == (ONE as int) * q + r,
                    0 <= r < ONE,
            ;
        }
        lemma_pow_up_one(n / 2);
        lemma_pow_up_one((n - 1) as nat);
    }
}

/// The per-sample decay scaler for a -60 dB fall over `n` samples: the
/// largest fixed-point value whose rounded-up `n`-th power still certifies
/// `scaler^n <= 0.001` (its successor's power would not). A duration of
/// zero samples yields a scaler of zero (instant silence).
pub fn decay_scaler(n: u64) -> (s: Sample)
    ensures
        0 <= s < ONE,
        n >= 1 ==> pow_up_spec(s as int, n as nat) <= MILLI,
        n >= 1 ==> pow_up_spec(s as int + 1, n as nat) > MILLI,
        n == 0 ==> s == 0,
{
    if n == 0 {
        return 0;
    }
    proof {
        lemma_pow_up_zero(n as nat);
        lemma_pow_up_one(n as nat);
    }
    let mut lo: u64 = 0;
    let mut hi: u64 = ONE as u64;
    while hi - lo > 1
        invariant
            lo < hi <= ONE as u64,
            n >= 1,
            pow_up_spec(lo as int, n as nat) <= MILLI,
            pow_up_spec(hi as int, n as nat) > MILLI,
        decreases hi - lo,
    {
        let mid: u64 = lo + (hi - lo) / 2;
        let p = pow_up(mid as i64, n);
        if p <= MILLI {
            lo = mid;
        } else {
            hi = mid;
        }
    }
    lo as i64
}

/// Fixed-point power with the audio-rate rounding.
pub fn fx_pow(s: Sample, n: u64) -> (r: Sample)
    ensures
        r == fx_pow_spec(s as int, n as nat),
{
    let mut r: Sample = ONE;
    let mut i: u64 = 0;
    while i < n
        invariant
            i <= n,
            r == fx_pow_spec(s as int, i as nat),
        decreases n - i,
    {
        r = fx_mul(r, s);
        i = i + 1;
    }
    r
}

/// The audio-rate product of non-negative factors is at most the exact
/// scaled product, non-negative, and shrinks under a factor of at most one.
pub proof fn lemma_fx_mul_spec_le(a: int, b: int)
    requires
        0 <= a,
        0 <= b,
    ensures
        0 <= fx_mul_spec(a, b),
        fx_mul_spec(a, b) * ONE <= a * b,
        b <= ONE ==> fx_mul_spec(a, b) <= a,
{
    let p = a * b;
    lemma_mul_nonnegative(a, b);
    let d = p / (ONE as int);
    lemma_div_is_ordered(0, p, ONE as int);
    lemma_fundamental_div_mod(p, ONE as int);
    assert(d * ONE <= p) by (nonlinear_arith)
        requires
            p == (ONE as int) * d + (p % (ONE as int)),
            0 <= p % (ONE as int),
    ;
    assert(clip(d) * ONE <= d * ONE) by {
        if d > i64::MAX as int {
            lemma_mul_inequality(clip(d), d, ONE as int);
        }
    }
    if b <= ONE {
        assert(a * b <= a * ONE) by (nonlinear_arith)
            requires
                a >= 0,
                b <= ONE,
        ;
        lemma_div_is_ordered(a * b, a * ONE, ONE as int);
        assert((a * ONE) / (ONE as int) == a) by {
            lemma_div_multiples_vanish(a, ONE as int);
            assert(a * ONE == (ONE as int) * a) by (nonlinear_arith);
        }
    }
}

/// Multiplying a non-negative value by a factor of at least one, with the
/// audio-rate rounding, does not shrink it (up to saturation).
pub proof fn lemma_fx_mul_ge_one(a: int, b: int)
    requires
        0 <= a <= i64::MAX as int,
        ONE <= b,
    ensures
        fx_mul_spec(a, b) >= a,
{
    lemma_mul_nonnegative(a, b);
    assert(a * ONE <= a * b) by (nonlinear_arith)
        requires
            a >= 0,
            ONE <= b,
    ;
    lemma_div_is_ordered(a * ONE, a * b, ONE as int);
    assert((a * ONE) / (ONE as int) == a) by {
        lemma_div_multiples_vanish(a, ONE as int);
        assert(a * ONE == (ONE as int) * a) by (nonlinear_arith);
    }
}

/// A fixed-point power of one is one.
pub proof fn lemma_fx_pow_one(n: nat)
    ensures
        fx_pow_spec(ONE as int, n) == ONE,
    decreases n,
{
    if n >= 1 {
        lemma_fx_pow_one((n - 1) as nat);
        assert(fx_pow_spec(ONE as int, n) == fx_mul_spec(ONE as int, ONE as int));
        assert(fx_mul_spec(ONE as int, ONE as int) == ONE) by {
            lemma_div_multiples_vanish(ONE as int, ONE as int);
        }
    }
}

/// For a base of at least one, the fixed-point power of any positive
/// exponent is at least the base (up to saturation).
pub proof fn lemma_fx_pow_ge_base(s: int, n: nat)
    requires
        ONE <= s <= i64::MAX as int,
    ensures
        n >= 1 ==> fx_pow_spec(s, n) >= s,
        ONE <= fx_pow_spec(s, n) <= i64::MAX as int,
    decreases n,
{
    if n == 0 {
    } else if n == 1 {
        assert(fx_pow_spec(s, 0nat) == ONE);
        assert(fx_pow_spec(s, 1nat) == fx_mul_spec(ONE as int, s));
        lemma_fx_mul_ge_one(ONE as int, s);
        lemma_fx_mul_spec_clip_range(ONE as int, s);
    } else {
        lemma_fx_pow_ge_base(s, (n - 1) as nat);
        let q = fx_pow_spec(s, (n - 1) as nat);
        assert(fx_pow_spec(s, n) == fx_mul_spec(q, s));
        lemma_fx_mul_ge_one(q, s);
        lemma_fx_mul_spec_clip_range(q, s);
    }
}

/// The audio-rate product always lies in the `i64` range.
pub proof fn lemma_fx_mul_spec_clip_range(a: int, b: int)
    ensures
        i64::MIN as int <= fx_mul_spec(a, b) <= i64::MAX as int,
{
}

/// The audio-rate power is monotone in a non-negative base; a value and
/// its successor bracketing a target therefore determine the root
/// uniquely.
pub proof fn lemma_fx_pow_mono(s1: int, s2: int, n: nat)
    requires
        0 <= s1 <= s2,
    ensures
        0 <= fx_pow_spec(s1, n) <= fx_pow_spec(s2, n),
    decreases n,
{
    if n >= 1 {
        lemma_fx_pow_mono(s1, s2, (n - 1) as nat);
        let q1 = fx_pow_spec(s1, (n - 1) as nat);
        let q2 = fx_pow_spec(s2, (n - 1) as nat);
        lemma_fx_mul_spec_le(q1, s1);
        lemma_fx_mul_spec_le(q2, s2);
        assert(q1 * s1 <= q2 * s2) by (nonlinear_arith)
            requires
                0 <= q1 <= q2,
                0 <= s1 <= s2,
        ;
        lemma_div_is_ordered(q1 * s1, q2 * s2, ONE as int);
    }
}

/// The `n`-th root of `target`, down to the granularity of the audio-rate
/// power: the result and its successor bracket `target`.
pub fn fx_root(target: Sample, n: u64) -> (r: Sample)
    requires
        n >= 1,
        ONE <= target < i64::MAX,
    ensures
        fx_pow_spec(r as int, n as nat) <= target < fx_pow_spec(r as int + 1, n as nat),
        ONE <= r <= target,
{
    proof {
        lemma_fx_pow_one(n as nat);
        lemma_fx_pow_ge_base(target as int + 1, n as nat);
    }
    let mut lo: u64 = ONE as u64;
    let mut hi: u64 = (target as u64) + 1;
    while hi - lo > 1
        invariant
            n >= 1,
            ONE as u64 <= lo < hi <= (target as u64) + 1,
            ONE <= target < i64::MAX,
            fx_pow_spec(lo as int, n as nat) <= target,
            fx_pow_spec(hi as int, n as nat) > target,
        decreases hi - lo,
    {
        let mid: u64 = lo + (hi - lo) / 2;
        let p = fx_pow(mid as i64, n);
        if p <= target {
            lo = mid;
        } else {
            hi = mid;
        }
    }
    lo as i64
}

} // verus!
