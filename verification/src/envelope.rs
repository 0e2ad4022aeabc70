//! The linear-attack / exponential-decay amplitude envelope.
//!
//! After a trigger the value climbs linearly toward the target for a fixed
//! two-millisecond attack; once it reaches the target, the target resets
//! to zero and the value is multiplied by a per-sample decay scaler
//! chosen so that it falls below 0.001 of its level (-60 dB) within the
//! configured duration. The scaler carries a proof certificate:
//! its rounded-up power over the whole duration is at most 0.001.

use vstd::prelude::*;
use vstd::arithmetic::power::{pow, lemma_pow0};
use vstd::arithmetic::mul::{
    lemma_mul_inequality, lemma_mul_nonnegative, lemma_mul_strict_inequality,
};
use vstd::arithmetic::div_mod::lemma_div_is_ordered;
use crate::sample::{Sample, ONE, clip, fx_mul_spec, fx_mul, sat_add, sat_sub, div_int,
    div_int_spec};
use crate::power::{
    MILLI, pow_up_spec, lemma_pow_up_ge, lemma_fx_mul_spec_le, decay_scaler, lemma_pow_unfold,
};

verus! {

/// A linear-attack / exponential-decay envelope.
pub struct ExponentialDecay {
    pub value: Sample,
    pub target_value: Sample,
    pub sample_rate: u32,
    pub decay_scaler: Sample,
    pub attack_lin_scaler: Sample,
    pub attack_samples: u64,
    pub duration_samples: u64,
}

/// The decay duration in samples for a duration in seconds at a sample
/// rate; durations at or below zero give zero samples.
pub open spec fn duration_samples_spec(duration: int, sample_rate: int) -> int {
    if duration <= 0 {
        0
    } else {
        (duration * sample_rate) / (ONE as int)
    }
}

/// The attack length in samples: two milliseconds at the sample rate, and
/// at least one sample.
pub open spec fn attack_samples_spec(sample_rate: int) -> int {
    if sample_rate / 500 >= 1 {
        sample_rate / 500
    } else {
        1
    }
}

/// The attack step for a fresh trigger: the distance to the target spread
/// over the attack, rounded up so that every positive distance is covered
/// within the attack span, and taken at its magnitude so the value never
/// runs away downward.
pub open spec fn attack_step_spec(value: int, target: int, attack_samples: int) -> int
    recommends
        attack_samples >= 1,
{
    let d = clip(target - value);
    let m = if d >= 0 {
        d
    } else {
        clip(-d)
    };
    (m + attack_samples - 1) / attack_samples
}

/// One envelope step: linear attack while the target is above the value
/// (clearing the target once reached), exponential decay otherwise.
pub open spec fn env_next_spec(e: ExponentialDecay) -> ExponentialDecay {
    if e.target_value > e.value {
        let v2 = clip(e.value + e.attack_lin_scaler) as i64;
        ExponentialDecay {
            value: v2,
            target_value: if v2 >= e.target_value {
                0
            } else {
                e.target_value
            },
            sample_rate: e.sample_rate,
            decay_scaler: e.decay_scaler,
            attack_lin_scaler: e.attack_lin_scaler,
            attack_samples: e.attack_samples,
            duration_samples: e.duration_samples,
        }
    } else {
        ExponentialDecay {
            value: fx_mul_spec(e.value as int, e.decay_scaler as int) as i64,
            target_value: e.target_value,
            sample_rate: e.sample_rate,
            decay_scaler: e.decay_scaler,
            attack_lin_scaler: e.attack_lin_scaler,
            attack_samples: e.attack_samples,
            duration_samples: e.duration_samples,
        }
    }
}

/// The envelope after `k` steps.
pub open spec fn env_iter(e: ExponentialDecay, k: nat) -> ExponentialDecay
    decreases k,
{
    if k == 0 {
        e
    } else {
        env_next_spec(env_iter(e, (k - 1) as nat))
    }
}

/// Pure decay: the value after `k` multiplications by the scaler.
pub open spec fn decay_iter(v: int, s: int, k: nat) -> int
    decreases k,
{
    if k == 0 {
        v
    } else {
        fx_mul_spec(decay_iter(v, s, (k - 1) as nat), s)
    }
}

impl ExponentialDecay {
    /// The value never goes negative, the attack step is non-negative and
    /// the attack at least a sample long, and the decay scaler is below
    /// one and certified to reach -60 dB within the duration.
    pub open spec fn wf(self) -> bool {
        &&& self.value >= 0
        &&& self.attack_lin_scaler >= 0
        &&& self.attack_samples >= 1
        &&& self.sample_rate >= 1
        &&& 0 <= self.decay_scaler < ONE
        &&& self.duration_samples >= 1 ==> pow_up_spec(self.decay_scaler as int,
            self.duration_samples as nat) <= MILLI
        &&& self.duration_samples == 0 ==> self.decay_scaler == 0
    }

    /// A silent envelope with the given decay duration (in seconds, fixed
    /// point) at the given sample rate.
    pub fn new(duration: Sample, sample_rate: u32) -> (r: ExponentialDecay)
        requires
            sample_rate >= 1,
        ensures
            r.wf(),
            r.value == 0,
            r.target_value == 0,
            r.sample_rate == sample_rate,
            r.attack_samples == attack_samples_spec(sample_rate as int),
            r.duration_samples == duration_samples_spec(duration as int, sample_rate as int),
            r.duration_samples >= 1 ==> pow_up_spec(r.decay_scaler as int + 1,
                r.duration_samples as nat) > MILLI,
    {
        let att = sample_rate / 500;
        let mut s = ExponentialDecay {
            value: 0,
            target_value: 0,
            sample_rate,
            decay_scaler: 0,
            attack_lin_scaler: 0,
            attack_samples: if att >= 1 {
                att as u64
            } else {
                1
            },
            duration_samples: 0,
        };
        s.set_duration(duration);
        s
    }

    /// Re-aims the decay at -60 dB over a new duration; the current value
    /// is untouched.
    pub fn set_duration(&mut self, duration: Sample)
        requires
            old(self).sample_rate >= 1,
            old(self).value >= 0,
            old(self).attack_lin_scaler >= 0,
            old(self).attack_samples >= 1,
        ensures
            final(self).wf(),
            final(self).duration_samples == duration_samples_spec(duration as int,
                old(self).sample_rate as int),
            final(self).duration_samples >= 1 ==> pow_up_spec(
                final(self).decay_scaler as int + 1,
                final(self).duration_samples as nat) > MILLI,
            final(self).value == old(self).value,
            final(self).target_value == old(self).target_value,
            final(self).sample_rate == old(self).sample_rate,
            final(self).attack_lin_scaler == old(self).attack_lin_scaler,
            final(self).attack_samples == old(self).attack_samples,
    {
        let n: u64 = if duration <= 0 {
            0
        } else {
            proof {
                assert((duration as int) * (self.sample_rate as int) < 0x8000000000000000
                    * 0x100000000) by (nonlinear_arith)
                    requires
                        0 <= (duration as int) && (duration as int) < 0x8000000000000000,
                        0 <= (self.sample_rate as int) && (self.sample_rate as int)
                            < 0x100000000,
                ;
            }
            (((duration as u64 as u128) * (self.sample_rate as u128))
                / (ONE as u128)) as u64
        };
        self.duration_samples = n;
        self.decay_scaler = decay_scaler(n);
    }

    /// Aims the envelope at a new level: the target is set and the attack
    /// step recomputed so the level is reached in one attack time.
    pub fn trigger(&mut self, value: Sample)
        requires
            old(self).wf(),
        ensures
            final(self).wf(),
            final(self).target_value == value,
            final(self).attack_lin_scaler == attack_step_spec(old(self).value as int,
                value as int, old(self).attack_samples as int),
            final(self).value == old(self).value,
            final(self).sample_rate == old(self).sample_rate,
            final(self).decay_scaler == old(self).decay_scaler,
            final(self).attack_samples == old(self).attack_samples,
            final(self).duration_samples == old(self).duration_samples,
    {
        self.target_value = value;
        let d = sat_sub(value, self.value);
        let mut m: u64 = crate::sample::abs_u64(d);
        if m > (i64::MAX as u64) {
            m = i64::MAX as u64;
        }
        proof {
            let att = self.attack_samples as int;
            lemma_ceil_div_in_range(m as int, att);
        }
        let step: u64 = (((m as u128) + (self.attack_samples as u128) - 1)
            / (self.attack_samples as u128)) as u64;
        self.attack_lin_scaler = step as i64;
    }

    /// Advances the envelope one sample and returns the new value.
    pub fn next(&mut self) -> (r: Sample)
        requires
            old(self).wf(),
        ensures
            final(self).wf(),
            *final(self) == env_next_spec(*old(self)),
            r == final(self).value,
    {
        if self.target_value > self.value {
            self.value = sat_add(self.value, self.attack_lin_scaler);
            if self.value >= self.target_value {
                self.target_value = 0;
            }
        } else {
            proof {
                lemma_fx_mul_spec_le(self.value as int, self.decay_scaler as int);
            }
            self.value = fx_mul(self.value, self.decay_scaler);
        }
        self.value
    }
}

/// The rounded-up quotient of a non-negative numerator over a positive
/// denominator is between zero and the numerator, and multiplied back it
/// covers the numerator.
proof fn lemma_ceil_div_in_range(m: int, att: int)
    requires
        0 <= m <= i64::MAX as int,
        att >= 1,
    ensures
        0 <= (m + att - 1) / att <= m,
        ((m + att - 1) / att) * att >= m,
        m >= 1 ==> (m + att - 1) / att >= 1,
{
    let q = (m + att - 1) / att;
    let r = (m + att - 1) % att;
    lemma_div_is_ordered(0, m + att - 1, att);
    vstd::arithmetic::div_mod::lemma_fundamental_div_mod(m + att - 1, att);
    assert(q * att >= m) by (nonlinear_arith)
        requires
            m + att - 1 == att * q + r,
            0 <= r < att,
    ;
    if m == 0 {
        assert(q == 0) by (nonlinear_arith)
            requires
                att - 1 == att * q + r,
                0 <= r < att,
                q >= 0,
    ;
    } else {
        assert(m + att - 1 <= m * att + (att - 1)) by (nonlinear_arith)
            requires
                m >= 1,
                att >= 1,
        ;
        lemma_div_is_ordered(m + att - 1, m * att + (att - 1), att);
        assert((m * att + (att - 1)) / att == m) by {
            vstd::arithmetic::div_mod::lemma_fundamental_div_mod_converse(
                m * att + (att - 1), att, m, att - 1);
            assert(m * att + (att - 1) == m * att + (att - 1));
            assert(m * att == att * m) by (nonlinear_arith);
        }
        assert(q >= 1) by (nonlinear_arith)
            requires
                q * att >= m,
                m >= 1,
                att >= 1,
                q >= 0,
        ;
    }
}

/// While the attack has not yet reached its target, the value has climbed
/// by exactly one step per sample; once it reaches the target, the target
/// is cleared and stays cleared.
proof fn lemma_attack_progress(e: ExponentialDecay, k: nat)
    requires
        e.wf(),
        e.value < e.target_value,
        e.attack_lin_scaler >= 1,
    ensures
        env_iter(e, k).wf(),
        env_iter(e, k).target_value == 0 || (env_iter(e, k) == (ExponentialDecay {
            value: (e.value + k * e.attack_lin_scaler) as i64,
            ..e
        }) && e.value + k * e.attack_lin_scaler < e.target_value),
    decreases k,
{
    let als = e.attack_lin_scaler as int;
    if k == 0 {
        assert(0 * als == 0) by (nonlinear_arith);
    } else {
        lemma_attack_progress(e, (k - 1) as nat);
        let p = env_iter(e, (k - 1) as nat);
        if p.target_value == 0 {
            lemma_fx_mul_spec_le(p.value as int, p.decay_scaler as int);
        } else {
            assert((k - 1) * als + als == k * als) by (nonlinear_arith);
            if clip(p.value + als) < e.target_value {
                assert(p.value + als <= i64::MAX as int);
            }
        }
    }
}

/// Law: the attack takes its fixed two-millisecond span whatever the
/// amplitude delta: right after a trigger aims above the current value,
/// the target is reached and cleared within `attack_samples` samples —
/// the attack can neither stretch nor stall.
pub proof fn lemma_attack_completes(e: ExponentialDecay)
    requires
        e.wf(),
        e.value < e.target_value,
        e.attack_lin_scaler == attack_step_spec(e.value as int, e.target_value as int,
            e.attack_samples as int),
    ensures
        env_iter(e, e.attack_samples as nat).target_value == 0,
{
    let att = e.attack_samples as int;
    let m = e.target_value - e.value;
    assert(clip(e.target_value - e.value) == m);
    lemma_ceil_div_in_range(m, att);
    let als = e.attack_lin_scaler as int;
    lemma_attack_progress(e, e.attack_samples as nat);
    let reached = env_iter(e, e.attack_samples as nat);
    if reached.target_value != 0 {
        assert(e.value + (e.attack_samples as nat) * als < e.target_value);
        assert((e.attack_samples as nat) * als == als * att) by (nonlinear_arith)
            requires
                (e.attack_samples as nat) as int == att,
        ;
        assert(als * att >= m);
        assert(false);
    }
}

/// Pure decay keeps a non-negative value non-negative and within the
/// `i64` range, scaled down at least as fast as the exact real decay.
proof fn lemma_decay_iter_bound(v: int, s: int, k: nat)
    requires
        0 <= v <= i64::MAX as int,
        0 <= s < ONE,
    ensures
        0 <= decay_iter(v, s, k) <= v,
        decay_iter(v, s, k) * pow(ONE as int, k) <= v * pow(s, k),
    decreases k,
{
    if k == 0 {
        lemma_pow0(ONE as int);
        lemma_pow0(s);
    } else {
        let km = (k - 1) as nat;
        lemma_decay_iter_bound(v, s, km);
        let d = decay_iter(v, s, km);
        lemma_fx_mul_spec_le(d, s);
        let dn = decay_iter(v, s, k);
        assert(dn == fx_mul_spec(d, s));
        assert(dn <= d);
        // dn * ONE^k == (dn * ONE) * ONE^(k-1) <= (d * s) * ONE^(k-1)
        lemma_pow_unfold(ONE as int, k);
        lemma_pow_unfold(s, k);
        vstd::arithmetic::power::lemma_pow_positive(ONE as int, km);
        lemma_mul_inequality(dn * ONE, d * s, pow(ONE as int, km));
        assert(dn * pow(ONE as int, k) == (dn * ONE) * pow(ONE as int, km))
            by (nonlinear_arith)
            requires
                pow(ONE as int, k) == ONE * pow(ONE as int, km),
        ;
        // (d * s) * ONE^(k-1) == s * (d * ONE^(k-1)) <= s * (v * s^(k-1)) == v * s^k
        assert((d * s) * pow(ONE as int, km) == s * (d * pow(ONE as int, km)))
            by (nonlinear_arith);
        lemma_mul_inequality(d * pow(ONE as int, km), v * pow(s, km), s);
        assert(s * (d * pow(ONE as int, km)) == (d * pow(ONE as int, km)) * s);
        assert(s * (v * pow(s, km)) == (v * pow(s, km)) * s);
        assert((v * pow(s, km)) * s == v * (s * pow(s, km))) by (nonlinear_arith);
        assert(v * (s * pow(s, km)) == v * pow(s, k));
    }
}

/// With the target already cleared, every later step is pure decay.
proof fn lemma_env_iter_is_decay(e: ExponentialDecay, k: nat)
    requires
        e.wf(),
        e.target_value == 0,
    ensures
        env_iter(e, k).wf(),
        env_iter(e, k).target_value == 0,
        env_iter(e, k).value == decay_iter(e.value as int, e.decay_scaler as int, k),
        env_iter(e, k).decay_scaler == e.decay_scaler,
        env_iter(e, k).duration_samples == e.duration_samples,
    decreases k,
{
    if k >= 1 {
        lemma_env_iter_is_decay(e, (k - 1) as nat);
        let p = env_iter(e, (k - 1) as nat);
        lemma_fx_mul_spec_le(p.value as int, p.decay_scaler as int);
        lemma_decay_iter_bound(e.value as int, e.decay_scaler as int, (k - 1) as nat);
    }
}

/// Law: once the attack has completed (the target is cleared), successive
/// envelope outputs never increase, and within the configured decay
/// duration the value has fallen to at most 0.001 of where it started.
pub proof fn lemma_envelope_decay(e: ExponentialDecay, k: nat)
    requires
        e.wf(),
        e.target_value == 0,
    ensures
        env_iter(e, k).value <= e.value,
        k >= 1 ==> env_iter(e, k).value <= env_iter(e, (k - 1) as nat).value,
        e.duration_samples >= 1 && k == e.duration_samples ==> env_iter(e, k).value
            <= fx_mul_spec(e.value as int, MILLI as int),
{
    let v = e.value as int;
    let s = e.decay_scaler as int;
    lemma_env_iter_is_decay(e, k);
    lemma_decay_iter_bound(v, s, k);
    if k >= 1 {
        lemma_env_iter_is_decay(e, (k - 1) as nat);
        lemma_decay_iter_bound(v, s, (k - 1) as nat);
        lemma_fx_mul_spec_le(decay_iter(v, s, (k - 1) as nat), s);
    }
    if e.duration_samples >= 1 && k == e.duration_samples {
        let n = k;
        lemma_pow_up_ge(s, n);
        // pow(s, n) <= pow_up_spec(s, n) * ONE^(n-1) <= MILLI * ONE^(n-1)
        vstd::arithmetic::power::lemma_pow_positive(ONE as int, (n - 1) as nat);
        lemma_mul_inequality(pow_up_spec(s, n), MILLI as int, pow(ONE as int, (n - 1) as nat));
        // decay_iter(v,s,n) * ONE^n <= v * pow(s, n) <= v * (MILLI * ONE^(n-1))
        let d = decay_iter(v, s, n);
        lemma_mul_inequality(pow(s, n), MILLI * pow(ONE as int, (n - 1) as nat), v);
        assert(v * pow(s, n) == pow(s, n) * v);
        assert(v * (MILLI * pow(ONE as int, (n - 1) as nat))
            == (MILLI * pow(ONE as int, (n - 1) as nat)) * v);
        // so d * ONE^n <= v * MILLI * ONE^(n-1); cancel ONE^(n-1)
        lemma_pow_unfold(ONE as int, n);
        let q = pow(ONE as int, (n - 1) as nat);
        assert(d * pow(ONE as int, n) == (d * ONE) * q) by (nonlinear_arith)
            requires
                pow(ONE as int, n) == ONE * q,
        ;
        assert(v * (MILLI * q) == (v * MILLI) * q) by (nonlinear_arith);
        assert((d * ONE) * q <= (v * MILLI) * q);
        assert(d * ONE <= v * MILLI) by {
            if d * ONE > v * MILLI {
                lemma_mul_strict_inequality(v * MILLI, d * ONE, q);
            }
        }
        // d <= floor(v * MILLI / ONE) == fx_mul_spec(v, MILLI)
        lemma_mul_nonnegative(v, MILLI as int);
        lemma_div_is_ordered(d * ONE, v * MILLI, ONE as int);
        assert((d * ONE) / (ONE as int) == d) by {
            vstd::arithmetic::div_mod::lemma_div_multiples_vanish(d, ONE as int);
            assert(d * ONE == (ONE as int) * d);
        }
    }
}

} // verus!
