//! A sustained single-pitch voice driven by accumulated energy.
//!
//! The voice is never retriggered; callers add energy, which raises a
//! target amplitude in proportion to a decaying sensitivity. Each sample
//! the amplitude is smoothed toward the target, the target decays, the
//! sensitivity recovers, a slow noise source wanders the stereo pan, and
//! the oscillator output passes through a low-pass filter whose cutoff
//! follows the amplitude (a cubic falloff).

use vstd::prelude::*;
use crate::sample::{Sample, ONE, clip, fx_mul, fx_mul_spec, sat_add, sat_sub};
use crate::wavetable::WavetableArena;
use crate::oscillator::{Oscillator, osc_out_spec, osc_step_spec};
use crate::dsp::{Pan2, LFNoise1, LowPassFilter, lfnoise_next_spec, lpf_next_spec,
    pan_gains_spec};
use crate::power::{decay_scaler, pow_up_spec, MILLI};
use crate::envelope::duration_samples_spec;

verus! {

/// The fixed-point value of 0.9, the amplitude smoothing coefficient.
pub const NINE_TENTHS: Sample = 3865470566;

/// The fixed-point value of 9.0, the amplitude-to-cutoff gain.
pub const NINE: Sample = 38654705664;

/// The fixed-point value of 0.1, the amplitude ceiling.
pub const TENTH: Sample = 429496729;

/// A sustained pitch voice.
pub struct SinglePitch {
    pub amp: Sample,
    pub target_amp: Sample,
    pub sensitivity: Sample,
    pub sensitivity_recovery: Sample,
    pub lpf_coeff: Sample,
    pub decay_coeff: Sample,
    pub oscillator: Oscillator,
    pub pan: Pan2,
    pub pan_signal: LFNoise1,
    pub lpf: LowPassFilter,
}

/// The state after one `add_energy(energy)` call: the target amplitude
/// rises by `sensitivity * 0.005 * energy`, clamped into `[0, 0.1]`, and
/// the sensitivity falls by `energy * 0.002`, clamped at zero.
pub open spec fn add_energy_spec(p: SinglePitch, energy: int) -> SinglePitch {
    let raised = clip(p.target_amp + fx_mul_spec(fx_mul_spec(p.sensitivity as int, 21474836),
        energy));
    let t1 = if raised < 0 {
        0int
    } else if raised > TENTH {
        TENTH as int
    } else {
        raised
    };
    let s1 = clip(p.sensitivity - fx_mul_spec(energy, 8589934));
    SinglePitch {
        target_amp: t1 as i64,
        sensitivity: if s1 < 0 {
            0
        } else {
            s1 as i64
        },
        ..p
    }
}

/// One sample of the voice: pan follows the noise source, the filter
/// cutoff follows the amplitude cubically, the amplitude is smoothed
/// toward the decaying target, the sensitivity recovers, and the output
/// pair is the filtered, amplitude-scaled oscillator sample panned into
/// place.
pub open spec fn pitch_next_spec(p: SinglePitch, arena: WavetableArena) -> (SinglePitch, int,
    int) {
    let ns = lfnoise_next_spec(p.pan_signal);
    let pan_pos = ns.value;
    let gains = pan_gains_spec(pan_pos as int);
    let x = fx_mul_spec(p.amp as int, NINE as int);
    let cube = fx_mul_spec(fx_mul_spec(x, x), x);
    let alpha0 = clip(NINE_TENTHS - cube);
    let alpha = if alpha0 > ONE {
        ONE as int
    } else {
        alpha0
    };
    let amp2 = clip(fx_mul_spec(p.amp as int, p.lpf_coeff as int) + fx_mul_spec(
        p.target_amp as int, clip(ONE - p.lpf_coeff)));
    let target2 = fx_mul_spec(p.target_amp as int, p.decay_coeff as int);
    let sens1 = clip(p.sensitivity + p.sensitivity_recovery);
    let sens2 = if sens1 > ONE {
        ONE as int
    } else {
        sens1
    };
    let osc_o = osc_out_spec(p.oscillator, arena);
    let filtered = lpf_next_spec(p.lpf.last_output as int, alpha, osc_o);
    let scaled = fx_mul_spec(filtered, amp2);
    let state = SinglePitch {
        amp: amp2 as i64,
        target_amp: target2 as i64,
        sensitivity: sens2 as i64,
        sensitivity_recovery: p.sensitivity_recovery,
        lpf_coeff: p.lpf_coeff,
        decay_coeff: p.decay_coeff,
        oscillator: osc_step_spec(p.oscillator),
        pan: Pan2 { pan: pan_pos, amps: (gains.0 as i64, gains.1 as i64) },
        pan_signal: ns,
        lpf: LowPassFilter { last_output: filtered as i64, alpha: alpha as i64 },
    };
    (state, fx_mul_spec(scaled, gains.0), fx_mul_spec(scaled, gains.1))
}

impl SinglePitch {
    /// The pan gains match the pan position, the noise ramp is positive,
    /// and the decay scaler is certified.
    pub open spec fn wf(self) -> bool {
        &&& self.pan.wf()
        &&& self.pan_signal.wf()
        &&& self.oscillator.wf()
        &&& 0 <= self.decay_coeff < ONE
    }

    /// A silent voice at `freq` whose target amplitude decays to -60 dB
    /// over `decay_time` seconds, placed at `pan`.
    pub fn new(freq: Sample, wavetable: usize, sample_rate: u32, decay_time: Sample,
        pan: Sample, seed: u64) -> (r: SinglePitch)
        requires
            sample_rate >= 1,
            decay_time >= 1,
        ensures
            r.wf(),
            r.amp == 0,
            r.target_amp == 0,
            r.sensitivity == ONE,
            r.lpf_coeff == NINE_TENTHS,
            r.oscillator.wavetable == wavetable,
            r.oscillator.phase == 0,
            r.oscillator.amp == ONE,
            r.oscillator.step == crate::oscillator::step_of_freq(freq as int,
                sample_rate as int),
            r.pan.pan == pan,
            r.lpf.last_output == 0,
            r.lpf.alpha == 0,
            r.sensitivity_recovery == clip((10 * (ONE as int) * (ONE as int)) / (9
                * (decay_time as int) * (sample_rate as int))),
            duration_samples_spec(decay_time as int, sample_rate as int) >= 1
                ==> pow_up_spec(r.decay_coeff as int, duration_samples_spec(
                decay_time as int, sample_rate as int) as nat) <= MILLI,
            duration_samples_spec(decay_time as int, sample_rate as int) >= 1
                ==> pow_up_spec(r.decay_coeff as int + 1, duration_samples_spec(
                decay_time as int, sample_rate as int) as nat) > MILLI,
    {
        let duration_in_samples: u64 = dur_samples(decay_time, sample_rate);
        SinglePitch {
            amp: 0,
            target_amp: 0,
            sensitivity: ONE,
            sensitivity_recovery: recovery_rate(decay_time, sample_rate),
            lpf_coeff: NINE_TENTHS,
            decay_coeff: decay_scaler(duration_in_samples),
            oscillator: Oscillator::from_freq(wavetable, sample_rate, freq, ONE),
            pan: Pan2::new(pan),
            pan_signal: LFNoise1::new(3 * ONE, -ONE, ONE, sample_rate, seed),
            lpf: LowPassFilter::new(0),
        }
    }

    /// Pushes the target amplitude up in proportion to the current
    /// sensitivity, and spends sensitivity doing so.
    pub fn add_energy(&mut self, energy: Sample)
        requires
            old(self).wf(),
        ensures
            final(self).wf(),
            *final(self) == add_energy_spec(*old(self), energy as int),
    {
        self.target_amp = sat_add(self.target_amp, fx_mul(fx_mul(self.sensitivity,
            21474836), energy));
        if self.target_amp < 0 {
            self.target_amp = 0;
        } else if self.target_amp > TENTH {
            self.target_amp = TENTH;
        }
        let s1 = sat_sub(self.sensitivity, fx_mul(energy, 8589934));
        self.sensitivity = if s1 < 0 {
            0
        } else {
            s1
        };
    }

    /// One stereo sample of the voice.
    pub fn next(&mut self, wavetable_arena: &WavetableArena) -> (r: [Sample; 2])
        requires
            old(self).wf(),
            wavetable_arena.wf(),
        ensures
            final(self).wf(),
            *final(self) == pitch_next_spec(*old(self), *wavetable_arena).0,
            r@[0] == pitch_next_spec(*old(self), *wavetable_arena).1,
            r@[1] == pitch_next_spec(*old(self), *wavetable_arena).2,
    {
        let pan_pos = self.pan_signal.next();
        self.pan.set_pan(pan_pos);
        let x = fx_mul(self.amp, NINE);
        let cube = fx_mul(fx_mul(x, x), x);
        let alpha0 = sat_sub(NINE_TENTHS, cube);
        self.lpf.alpha = if alpha0 > ONE {
            ONE
        } else {
            alpha0
        };
        self.amp = sat_add(fx_mul(self.amp, self.lpf_coeff), fx_mul(self.target_amp,
            sat_sub(ONE, self.lpf_coeff)));
        self.target_amp = fx_mul(self.target_amp, self.decay_coeff);
        let s1 = sat_add(self.sensitivity, self.sensitivity_recovery);
        self.sensitivity = if s1 > ONE {
            ONE
        } else {
            s1
        };
        let o = self.oscillator.next(wavetable_arena);
        let filtered = self.lpf.next(o);
        let scaled = fx_mul(filtered, self.amp);
        self.pan.next(scaled)
    }
}

/// A duration in seconds (fixed point) at a sample rate, in whole
/// samples.
fn dur_samples(duration: Sample, sample_rate: u32) -> (r: u64)
    requires
        sample_rate >= 1,
    ensures
        r == duration_samples_spec(duration as int, sample_rate as int),
{
    if duration <= 0 {
        0
    } else {
        proof {
            assert((duration as int) * (sample_rate as int) < 0x8000000000000000
                * 0x100000000) by (nonlinear_arith)
                requires
                    0 <= (duration as int) && (duration as int) < 0x8000000000000000,
                    0 <= (sample_rate as int) && (sample_rate as int) < 0x100000000,
            ;
        }
        (((duration as u64 as u128) * (sample_rate as u128)) / (ONE as u128)) as u64
    }
}

/// The per-sample sensitivity recovery `(1 / (decay_time * 0.9)) /
/// sample_rate`, exactly: `10 * ONE^2 / (9 * decay_time * sample_rate)`,
/// saturated into the sample range.
fn recovery_rate(decay_time: Sample, sample_rate: u32) -> (r: Sample)
    requires
        decay_time >= 1,
        sample_rate >= 1,
    ensures
        r == clip((10 * (ONE as int) * (ONE as int)) / (9 * (decay_time as int)
            * (sample_rate as int))),
{
    proof {
        assert(9 * (decay_time as int) * (sample_rate as int) >= 9) by (nonlinear_arith)
            requires
                (decay_time as int) >= 1,
                (sample_rate as int) >= 1,
        ;
        assert(9 * (decay_time as int) * (sample_rate as int) < 0x100000000000000000000000000)
            by (nonlinear_arith)
            requires
                1 <= (decay_time as int) && (decay_time as int) < 0x8000000000000000,
                1 <= (sample_rate as int) && (sample_rate as int) < 0x100000000,
        ;
    }
    let num: u128 = 10u128 * (ONE as u128) * (ONE as u128);
    let den: u128 = 9u128 * (decay_time as u64 as u128) * (sample_rate as u128);
    let q: u128 = num / den;
    if q > (i64::MAX as u128) {
        i64::MAX
    } else {
        q as i64
    }
}

} // verus!
