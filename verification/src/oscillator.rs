//! Phase-accumulator oscillators over shared wavetables.
//!
//! An [`Oscillator`] holds a phase in `[0, 1)` of a cycle, a per-sample
//! step derived from a frequency, a wavetable handle resolved against the
//! arena at render time, and an amplitude. A [`TriggeredOscillator`] pairs
//! one oscillator with one envelope, making a restartable one-shot voice.

use vstd::prelude::*;
use crate::sample::{Sample, ONE, PHASE_ONE, fx_mul, fx_mul_spec};
use crate::wavetable::{WavetableArena, slot_of_phase};
use crate::envelope::{
    ExponentialDecay, env_next_spec, duration_samples_spec, attack_step_spec,
};

verus! {

/// A phase accumulator reading one wavetable at one frequency.
pub struct Oscillator {
    pub step: u64,
    pub phase: u64,
    pub wavetable: usize,
    pub amp: Sample,
}

/// The phase step for a frequency (fixed point, Hz) at a sample rate:
/// the fraction of a cycle covered in one sample. Frequencies at or
/// below zero stand still.
pub open spec fn step_of_freq(freq: int, sample_rate: int) -> int {
    if freq <= 0 {
        0
    } else {
        freq / sample_rate
    }
}

/// What the oscillator contributes for its current phase: the addressed
/// wavetable read at the phase, scaled by the amplitude; silence if the
/// handle resolves to nothing.
pub open spec fn osc_out_spec(o: Oscillator, arena: WavetableArena) -> int {
    if o.wavetable < arena.wavetables@.len() {
        match arena.wavetables@[o.wavetable as int] {
            Some(wt) => fx_mul_spec(
                wt.buffer@[slot_of_phase(o.phase, wt.size as nat)] as int, o.amp as int),
            None => 0,
        }
    } else {
        0
    }
}

/// The oscillator after one sample: the phase advanced by the step and
/// wrapped back into `[0, 1)`.
pub open spec fn osc_step_spec(o: Oscillator) -> Oscillator {
    Oscillator {
        step: o.step,
        phase: ((o.phase + o.step) % (PHASE_ONE as int)) as u64,
        wavetable: o.wavetable,
        amp: o.amp,
    }
}

impl Oscillator {
    /// The phase stays inside one cycle and the step within the range a
    /// frequency can produce.
    pub open spec fn wf(self) -> bool {
        &&& self.phase < PHASE_ONE
        &&& self.step <= i64::MAX as u64
    }

    /// A unit-amplitude oscillator at rest on the given wavetable.
    pub fn new(wavetable: usize, _sample_rate: u32) -> (r: Oscillator)
        ensures
            r.wf(),
            r.step == 0,
            r.phase == 0,
            r.wavetable == wavetable,
            r.amp == ONE,
    {
        Oscillator { step: 0, phase: 0, wavetable, amp: ONE }
    }

    /// An oscillator tuned to `freq` with amplitude `amp`.
    pub fn from_freq(wavetable: usize, sample_rate: u32, freq: Sample, amp: Sample) -> (
        r: Oscillator)
        requires
            sample_rate >= 1,
        ensures
            r.wf(),
            r.step == step_of_freq(freq as int, sample_rate as int),
            r.phase == 0,
            r.wavetable == wavetable,
            r.amp == amp,
    {
        let mut osc = Oscillator::new(wavetable, sample_rate);
        osc.amp = amp;
        osc.set_freq(freq, sample_rate);
        osc
    }

    /// Retunes the oscillator without touching its phase.
    pub fn set_freq(&mut self, freq: Sample, sample_rate: u32)
        requires
            sample_rate >= 1,
        ensures
            *final(self) == (Oscillator {
                step: step_of_freq(freq as int, sample_rate as int) as u64,
                ..*old(self)
            }),
            old(self).wf() ==> final(self).wf(),
    {
        self.step = if freq <= 0 {
            0
        } else {
            (freq as u64) / (sample_rate as u64)
        };
    }

    /// Rewinds the phase to the start of the cycle.
    pub fn reset_phase(&mut self)
        ensures
            *final(self) == (Oscillator { phase: 0, ..*old(self) }),
            old(self).wf() ==> final(self).wf(),
    {
        self.phase = 0;
    }

    /// One sample: reads the wavetable at the current phase, then advances
    /// the phase and wraps it back into `[0, 1)`.
    pub fn next(&mut self, wavetable_arena: &WavetableArena) -> (r: Sample)
        requires
            old(self).wf(),
            wavetable_arena.wf(),
        ensures
            final(self).wf(),
            *final(self) == osc_step_spec(*old(self)),
            r == osc_out_spec(*old(self), *wavetable_arena),
    {
        let temp_phase = self.phase;
        self.phase = (self.phase + self.step) % PHASE_ONE;
        match wavetable_arena.get(self.wavetable) {
            Some(wt) => fx_mul(wt.get(temp_phase), self.amp),
            None => 0,
        }
    }
}

/// Law: advancing an oscillator keeps its phase inside `[0, 1)` of a
/// cycle, whatever the step — so after any sequence of samples the phase
/// is still a valid wavetable lookup.
pub proof fn lemma_phase_stays_in_cycle(o: Oscillator)
    requires
        o.wf(),
    ensures
        osc_step_spec(o).wf(),
        osc_step_spec(o).phase < PHASE_ONE,
{
    vstd::arithmetic::div_mod::lemma_mod_bound((o.phase + o.step) as int,
        PHASE_ONE as int);
}

/// One oscillator plus one envelope: a restartable one-shot voice.
pub struct TriggeredOscillator {
    pub oscillator: Oscillator,
    pub env: ExponentialDecay,
}

/// What the voice contributes for one sample: the oscillator output
/// scaled by the advanced envelope.
pub open spec fn trig_out_spec(t: TriggeredOscillator, arena: WavetableArena) -> int {
    fx_mul_spec(osc_out_spec(t.oscillator, arena), env_next_spec(t.env).value as int)
}

/// The voice after one sample: phase advanced, envelope advanced.
pub open spec fn trig_step_spec(t: TriggeredOscillator) -> TriggeredOscillator {
    TriggeredOscillator { oscillator: osc_step_spec(t.oscillator), env: env_next_spec(t.env) }
}

impl TriggeredOscillator {
    /// Both halves are well formed.
    pub open spec fn wf(self) -> bool {
        self.oscillator.wf() && self.env.wf()
    }

    /// A silent voice on the given wavetable, with a half-second default
    /// decay.
    pub fn new(wavetable: usize, sample_rate: u32) -> (r: TriggeredOscillator)
        requires
            sample_rate >= 1,
        ensures
            r.wf(),
            r.oscillator.step == 0,
            r.oscillator.phase == 0,
            r.oscillator.wavetable == wavetable,
            r.oscillator.amp == ONE,
            r.env.value == 0,
            r.env.target_value == 0,
            r.env.sample_rate == sample_rate,
    {
        TriggeredOscillator {
            oscillator: Oscillator::new(wavetable, sample_rate),
            env: ExponentialDecay::new(crate::sample::HALF, sample_rate),
        }
    }

    /// A silent voice tuned to `freq` with amplitude `amp`.
    pub fn from_freq(wavetable: usize, sample_rate: u32, freq: Sample, amp: Sample) -> (
        r: TriggeredOscillator)
        requires
            sample_rate >= 1,
        ensures
            r.wf(),
            r.oscillator.step == step_of_freq(freq as int, sample_rate as int),
            r.oscillator.phase == 0,
            r.oscillator.wavetable == wavetable,
            r.oscillator.amp == amp,
            r.env.value == 0,
            r.env.target_value == 0,
            r.env.sample_rate == sample_rate,
    {
        let mut osc = Oscillator::new(wavetable, sample_rate);
        osc.amp = amp;
        osc.set_freq(freq, sample_rate);
        TriggeredOscillator {
            oscillator: osc,
            env: ExponentialDecay::new(crate::sample::HALF, sample_rate),
        }
    }

    /// Restarts the voice: the phase rewinds and the envelope is aimed at
    /// `amp` with a fresh decay duration of `decay` seconds.
    pub fn trigger(&mut self, amp: Sample, decay: Sample)
        requires
            old(self).wf(),
        ensures
            final(self).wf(),
            final(self).oscillator == (Oscillator { phase: 0, ..old(self).oscillator }),
            final(self).env.value == old(self).env.value,
            final(self).env.target_value == amp,
            final(self).env.sample_rate == old(self).env.sample_rate,
            final(self).env.duration_samples == duration_samples_spec(decay as int,
                old(self).env.sample_rate as int),
            final(self).env.attack_samples == old(self).env.attack_samples,
            final(self).env.attack_lin_scaler == attack_step_spec(old(self).env.value as int,
                amp as int, old(self).env.attack_samples as int),
    {
        self.oscillator.reset_phase();
        self.env.set_duration(decay);
        self.env.trigger(amp);
    }

    /// Retunes the voice without restarting its envelope.
    pub fn set_freq(&mut self, freq: Sample, sample_rate: u32)
        requires
            sample_rate >= 1,
        ensures
            final(self).oscillator == (Oscillator {
                step: step_of_freq(freq as int, sample_rate as int) as u64,
                ..old(self).oscillator
            }),
            final(self).env == old(self).env,
            old(self).wf() ==> final(self).wf(),
    {
        self.oscillator.set_freq(freq, sample_rate);
    }

    /// One sample: the oscillator output scaled by the advanced envelope.
    pub fn next(&mut self, wavetable_arena: &WavetableArena) -> (r: Sample)
        requires
            old(self).wf(),
            wavetable_arena.wf(),
        ensures
            final(self).wf(),
            *final(self) == trig_step_spec(*old(self)),
            r == trig_out_spec(*old(self), *wavetable_arena),
    {
        let a = self.oscillator.next(&wavetable_arena);
        let e = self.env.next();
        fx_mul(a, e)
    }
}

} // verus!
