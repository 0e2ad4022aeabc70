//! Free-standing tone generators: a plain sine voice, a metronome built
//! on it, and a two-operator FM synth with an LFO on its modulation
//! index. Unlike the wavetable voices these compute their waveform
//! directly from the phase.

use vstd::prelude::*;
use crate::sample::{Sample, ONE, PHASE_ONE, clip, fx_mul, fx_mul_spec, sat_add, sat_sub,
    div_int, div_int_spec, abs_u64};
use crate::wavetable::{sine_q, sine_q_spec};
use crate::envelope::{ExponentialDecay, env_next_spec, attack_step_spec};

verus! {

/// A sine voice: amplitude and offset map the unit sine into a range.
pub struct Sine {
    pub sample_rate: u32,
    pub phase: u64,
    pub freq: Sample,
    pub amp: Sample,
    pub add: Sample,
}

/// One sine-voice step: the sample at the current phase scaled and
/// offset, with the phase advanced by the frequency and wrapped.
pub open spec fn sine_next_spec(s: Sine) -> (Sine, int) {
    let out = clip(fx_mul_spec(sine_q_spec(s.phase), s.amp as int) + s.add);
    let step = crate::oscillator::step_of_freq(s.freq as int, s.sample_rate as int);
    let s2 = Sine {
        phase: ((s.phase + step) % (PHASE_ONE as int)) as u64,
        ..s
    };
    (s2, out)
}

impl Sine {
    /// The phase stays inside one cycle at a positive sample rate.
    pub open spec fn wf(self) -> bool {
        &&& self.phase < PHASE_ONE
        &&& self.sample_rate >= 1
    }

    /// A silent voice at 220 Hz and the default sample rate.
    pub fn new() -> (r: Sine)
        ensures
            r.wf(),
            r.phase == 0,
            r.freq == 220 * ONE,
            r.amp == 0,
            r.add == 0,
            r.sample_rate == 44100,
    {
        Sine { phase: 0, freq: 220 * ONE, amp: 0, add: 0, sample_rate: 44100 }
    }

    /// A voice with every parameter given.
    pub fn from(freq: Sample, amp: Sample, add: Sample, phase: u64, sample_rate: u32) -> (
        r: Sine)
        requires
            phase < PHASE_ONE,
            sample_rate >= 1,
        ensures
            r.wf(),
            r == (Sine { sample_rate, phase, freq, amp, add }),
    {
        Sine { phase, freq, amp, add, sample_rate }
    }

    /// Maps the unit sine onto `[min, max]`: half the span as amplitude,
    /// the midpoint as offset.
    pub fn set_range(&mut self, min: Sample, max: Sample)
        ensures
            final(self).amp == abs_halved(clip(max - min)),
            final(self).add == div_int_spec(clip(max + min), 2),
            final(self).phase == old(self).phase,
            final(self).freq == old(self).freq,
            final(self).sample_rate == old(self).sample_rate,
    {
        let span = sat_sub(max, min);
        let half_span = div_int(span, 2);
        self.amp = if half_span < 0 {
            sat_sub(0, half_span)
        } else {
            half_span
        };
        self.add = div_int(sat_add(max, min), 2);
    }

    /// One sample of the voice.
    pub fn next(&mut self) -> (r: Sample)
        requires
            old(self).wf(),
        ensures
            final(self).wf(),
            *final(self) == sine_next_spec(*old(self)).0,
            r == sine_next_spec(*old(self)).1,
    {
        let s = sine_q(self.phase);
        let out = sat_add(fx_mul(s, self.amp), self.add);
        let step: u64 = if self.freq <= 0 {
            0
        } else {
            (self.freq as u64) / (self.sample_rate as u64)
        };
        self.phase = (self.phase + step) % PHASE_ONE;
        out
    }
}

/// Half the magnitude of a span, as the spec of `set_range`'s amplitude.
pub open spec fn abs_halved(span: int) -> int {
    let h = div_int_spec(span, 2);
    if h < 0 {
        clip(-h)
    } else {
        h
    }
}

/// A metronome: a short sine blip once per tick, the first tick of each
/// bar a fifth of the way brighter.
pub struct Metronome {
    pub tick_duration: u64,
    pub sample_counter: u64,
    pub ticks_per_bar: u64,
    pub current_tick: u64,
    pub exponential_decay: ExponentialDecay,
    pub synth: Sine,
}

impl Metronome {
    /// Counters stay within their periods and both parts are well
    /// formed.
    pub open spec fn wf(self) -> bool {
        &&& self.sample_counter <= self.tick_duration
        &&& self.tick_duration < u64::MAX
        &&& self.current_tick <= self.ticks_per_bar
        &&& self.ticks_per_bar < u64::MAX
        &&& self.exponential_decay.wf()
        &&& self.synth.wf()
    }

    /// A metronome at `bpm` beats per minute with `ticks_per_bar` ticks
    /// to the bar, already ringing its first tick.
    pub fn new(bpm: u64, ticks_per_bar: u64, sample_rate: u32) -> (r: Metronome)
        requires
            bpm >= 1,
            sample_rate >= 1,
            ticks_per_bar < u64::MAX,
        ensures
            r.wf(),
            r.tick_duration == 60 * (sample_rate as int) / (bpm as int),
            r.sample_counter == 0,
            r.ticks_per_bar == ticks_per_bar,
            r.current_tick == 0,
            r.synth.freq == 2000 * ONE,
            r.exponential_decay.target_value == ONE,
    {
        let mut m = Metronome {
            tick_duration: 60 * (sample_rate as u64) / bpm,
            sample_counter: 0,
            ticks_per_bar,
            current_tick: 0,
            exponential_decay: ExponentialDecay::new(crate::sample::HALF, sample_rate),
            synth: Sine::from(2000 * ONE, ONE / 10, 0, 0, sample_rate),
        };
        m.exponential_decay.trigger(ONE);
        m
    }

    /// One sample: when a tick elapses the blip is retriggered (bright at
    /// the top of the bar, duller inside it), and the blip rings through
    /// its envelope.
    pub fn next(&mut self) -> (r: Sample)
        requires
            old(self).wf(),
        ensures
            final(self).wf(),
            ({
                let ticked = metronome_tick_spec(*old(self));
                &&& final(self).tick_duration == ticked.tick_duration
                &&& final(self).ticks_per_bar == ticked.ticks_per_bar
                &&& final(self).sample_counter == ticked.sample_counter
                &&& final(self).current_tick == ticked.current_tick
                &&& final(self).synth == sine_next_spec(ticked.synth).0
                &&& final(self).exponential_decay == env_next_spec(
                    ticked.exponential_decay)
                &&& r == fx_mul_spec(sine_next_spec(ticked.synth).1, env_next_spec(
                    ticked.exponential_decay).value as int)
            }),
    {
        self.sample_counter = self.sample_counter + 1;
        if self.sample_counter >= self.tick_duration {
            self.exponential_decay.trigger(ONE);
            self.sample_counter = 0;
            self.current_tick = self.current_tick + 1;
            if self.current_tick >= self.ticks_per_bar {
                self.synth.freq = 2000 * ONE;
                self.current_tick = 0;
            } else {
                self.synth.freq = 1000 * ONE;
            }
        }
        let s = self.synth.next();
        let e = self.exponential_decay.next();
        fx_mul(s, e)
    }
}

/// An envelope re-aimed at a new level, as `trigger` leaves it.
pub open spec fn env_trigger_spec(e: ExponentialDecay, v: int) -> ExponentialDecay {
    ExponentialDecay {
        target_value: v as i64,
        attack_lin_scaler: attack_step_spec(e.value as int, v,
            e.attack_samples as int) as i64,
        ..e
    }
}

/// A two-operator FM synth: a modulator at `freq * m_ratio` swings the
/// carrier's frequency around `freq * c_ratio`, and an LFO wanders the
/// modulation index.
pub struct FMSynth {
    pub sample_rate: u32,
    pub freq: Sample,
    pub m_ratio: Sample,
    pub c_ratio: Sample,
    pub m_index: Sample,
    pub c_phase: u64,
    pub c_phase_step: Sample,
    pub m_phase: u64,
    pub m_phase_step: u64,
    pub lfo_freq: Sample,
    pub lfo_amp: Sample,
    pub lfo_add: Sample,
    pub lfo_phase: u64,
    pub lfo_val: Sample,
    pub c_sample: Sample,
    pub m_sample: Sample,
    pub amp: Sample,
    pub number_of_triggers: u64,
}

/// One FM step: the LFO advances and sets the modulation index, the
/// modulator advances and swings the carrier step, the carrier advances
/// (possibly backwards), and its sample is the output.
pub open spec fn fm_next_spec(f: FMSynth) -> FMSynth {
    let lfo_step = crate::oscillator::step_of_freq(f.lfo_freq as int, f.sample_rate as int);
    let lfo_phase = ((f.lfo_phase + lfo_step) % (PHASE_ONE as int)) as u64;
    let lfo_val = clip(fx_mul_spec(sine_q_spec(lfo_phase), f.lfo_amp as int) + f.lfo_add);
    let m_step = crate::oscillator::step_of_freq(fx_mul_spec(f.freq as int,
        f.m_ratio as int), f.sample_rate as int);
    let m_phase = ((f.m_phase + m_step) % (PHASE_ONE as int)) as u64;
    let m_sample = fx_mul_spec(fx_mul_spec(sine_q_spec(m_phase), f.freq as int), lfo_val);
    let c_step = div_int_spec(clip(fx_mul_spec(f.freq as int, f.c_ratio as int)
        + fx_mul_spec(m_sample, f.c_ratio as int)), f.sample_rate as int);
    let c_phase = ((f.c_phase + c_step) % (PHASE_ONE as int)) as u64;
    let c_sample = fx_mul_spec(sine_q_spec(c_phase), f.amp as int);
    FMSynth {
        m_index: lfo_val as i64,
        c_phase,
        c_phase_step: c_step as i64,
        m_phase,
        m_phase_step: m_step as u64,
        lfo_phase,
        lfo_val: lfo_val as i64,
        c_sample: c_sample as i64,
        m_sample: m_sample as i64,
        number_of_triggers: 0,
        ..f
    }
}

/// The running average that a trigger folds its frequency into:
/// `old * (n-1) / n + new / n`, truncated toward zero.
pub open spec fn fm_avg_spec(old_freq: int, new_freq: int, n: int) -> int
    recommends
        n >= 1,
{
    let num = old_freq * (n - 1) + new_freq;
    clip(div_int_spec(num, n))
}

impl FMSynth {
    /// Phases stay inside one cycle at a positive sample rate.
    pub open spec fn wf(self) -> bool {
        &&& self.c_phase < PHASE_ONE
        &&& self.m_phase < PHASE_ONE
        &&& self.lfo_phase < PHASE_ONE
        &&& self.sample_rate >= 1
    }

    /// A synth at rest with the given tuning, its LFO preset to wander
    /// the modulation index between one and nine.
    pub fn new(sample_rate: u32, freq: Sample, amp: Sample, m_ratio: Sample,
        c_ratio: Sample, m_index: Sample) -> (r: FMSynth)
        requires
            sample_rate >= 1,
        ensures
            r.wf(),
            r.sample_rate == sample_rate,
            r.freq == freq,
            r.amp == amp,
            r.m_ratio == m_ratio,
            r.c_ratio == c_ratio,
            r.m_index == m_index,
            r.c_phase == 0 && r.m_phase == 0 && r.lfo_phase == 0,
            r.lfo_freq == 3 * ONE && r.lfo_amp == 4 * ONE && r.lfo_add == 5 * ONE,
            r.number_of_triggers == 0,
    {
        FMSynth {
            sample_rate,
            freq,
            m_ratio,
            c_ratio,
            m_index,
            c_phase: 0,
            c_phase_step: 0,
            m_phase: 0,
            m_phase_step: 0,
            c_sample: 0,
            m_sample: 0,
            lfo_freq: 3 * ONE,
            lfo_amp: 4 * ONE,
            lfo_add: 5 * ONE,
            lfo_phase: 0,
            lfo_val: 0,
            amp,
            number_of_triggers: 0,
        }
    }

    /// One stereo sample: the carrier's output on both channels.
    pub fn next_stereo(&mut self) -> (r: [Sample; 2])
        requires
            old(self).wf(),
        ensures
            final(self).wf(),
            *final(self) == fm_next_spec(*old(self)),
            r@[0] == final(self).c_sample,
            r@[1] == final(self).c_sample,
    {
        // LFO onto the modulation index
        let lfo_step: u64 = if self.lfo_freq <= 0 {
            0
        } else {
            (self.lfo_freq as u64) / (self.sample_rate as u64)
        };
        self.lfo_phase = (self.lfo_phase + lfo_step) % PHASE_ONE;
        self.lfo_val = sat_add(fx_mul(sine_q(self.lfo_phase), self.lfo_amp),
            self.lfo_add);
        self.m_index = self.lfo_val;

        // modulator
        let mf = fx_mul(self.freq, self.m_ratio);
        self.m_phase_step = if mf <= 0 {
            0
        } else {
            (mf as u64) / (self.sample_rate as u64)
        };
        self.m_phase = (self.m_phase + self.m_phase_step) % PHASE_ONE;
        self.m_sample = fx_mul(fx_mul(sine_q(self.m_phase), self.freq), self.m_index);

        // carrier; its step follows the modulator, so it is recomputed
        // every sample and may even run backwards
        let swung = sat_add(fx_mul(self.freq, self.c_ratio), fx_mul(self.m_sample,
            self.c_ratio));
        self.c_phase_step = div_int(swung, self.sample_rate as u64);
        self.c_phase = phase_add_signed(self.c_phase, self.c_phase_step);
        self.c_sample = fx_mul(sine_q(self.c_phase), self.amp);

        self.number_of_triggers = 0;
        [self.c_sample, self.c_sample]
    }

    /// Retunes the carrier's base frequency.
    pub fn set_freq(&mut self, freq: Sample)
        ensures
            *final(self) == (FMSynth { freq, ..*old(self) }),
    {
        self.freq = freq;
    }

    /// A control-rate tick: the amplitude fades by eight percent.
    pub fn control_rate_update(&mut self)
        ensures
            *final(self) == (FMSynth {
                amp: fx_mul_spec(old(self).amp as int, 3951369912) as i64,
                ..*old(self)
            }),
    {
        self.amp = fx_mul(self.amp, 3951369912);
    }

    /// A trigger: the base frequency becomes the running average of every
    /// trigger since the last render, and the amplitude restarts.
    pub fn trigger(&mut self, freq: Sample, amp: Sample)
        ensures
            final(self).number_of_triggers == if old(self).number_of_triggers
                == u64::MAX {
                u64::MAX as int
            } else {
                old(self).number_of_triggers + 1
            },
            final(self).freq == fm_avg_spec(old(self).freq as int, freq as int,
                final(self).number_of_triggers as int),
            final(self).amp == amp,
            ({
                let keep = *old(self);
                *final(self) == (FMSynth {
                    freq: final(self).freq,
                    amp,
                    number_of_triggers: final(self).number_of_triggers,
                    ..keep
                })
            }),
    {
        let n = self.number_of_triggers.saturating_add(1);
        self.number_of_triggers = n;
        proof {
            let top: int = 0x8000000000000000;
            let wide: int = 0xFFFFFFFFFFFFFFFE;
            assert(-(top * wide) <= (self.freq as int) * ((n - 1) as int) <= top * wide)
                by (nonlinear_arith)
                requires
                    -top <= (self.freq as int) < top,
                    0 <= ((n - 1) as int) <= wide,
            ;
        }
        let num: i128 = (self.freq as i128) * ((n - 1) as i128) + (freq as i128);
        self.freq = div_i128_by_u64(num, n);
        self.amp = amp;
    }
}

/// Advances a phase by a signed step and wraps it back into one cycle.
fn phase_add_signed(phase: u64, step: Sample) -> (r: u64)
    requires
        phase < PHASE_ONE,
    ensures
        r == (phase + step) % (PHASE_ONE as int),
        r < PHASE_ONE,
{
    let t: i128 = (phase as i128) + (step as i128);
    let m: i128 = t % (PHASE_ONE as i128);
    let w: i128 = if m < 0 {
        m + (PHASE_ONE as i128)
    } else {
        m
    };
    proof {
        let p = PHASE_ONE as int;
        vstd::arithmetic::div_mod::lemma_fundamental_div_mod(t as int, p);
        vstd::arithmetic::div_mod::lemma_mod_bound(t as int, p);
        lemma_trunc_mod_matches(t as int, p);
    }
    w as u64
}

/// Rust's truncating `%` and the Euclidean remainder agree up to one
/// added divisor on the negative side.
proof fn lemma_trunc_mod_matches(t: int, p: int)
    requires
        p > 0,
    ensures
        ({
            let m = if t >= 0 {
                t % p
            } else {
                -((-t) % p)
            };
            (if m < 0 {
                m + p
            } else {
                m
            }) == t % p
        }),
{
    if t < 0 {
        let q = (-t) / p;
        let r = (-t) % p;
        vstd::arithmetic::div_mod::lemma_fundamental_div_mod(-t, p);
        vstd::arithmetic::div_mod::lemma_mod_bound(-t, p);
        if r == 0 {
            assert(p * (-q) == -(p * q)) by (nonlinear_arith);
            assert(t == p * (-q));
            vstd::arithmetic::div_mod::lemma_mod_multiples_basic(-q, p);
        } else {
            assert(p * (-q - 1) + (p - r) == -(p * q) - r) by (nonlinear_arith);
            assert(t == p * (-q - 1) + (p - r));
            vstd::arithmetic::div_mod::lemma_fundamental_div_mod_converse(t, p, -q - 1,
                p - r);
        }
    }
}

/// Divides a bounded signed quantity by a positive word, truncating
/// toward zero and clamping into the sample range.
fn div_i128_by_u64(num: i128, n: u64) -> (r: Sample)
    requires
        n >= 1,
        -0x80000000000000000000000000000000 < num,
    ensures
        r == clip(div_int_spec(num as int, n as int)),
{
    let (neg, mag): (bool, u128) = if num < 0 {
        (true, (-num) as u128)
    } else {
        (false, num as u128)
    };
    let q: u128 = mag / (n as u128);
    if neg {
        if q >= 9223372036854775808u128 {
            i64::MIN
        } else {
            -(q as i64)
        }
    } else {
        if q > i64::MAX as u128 {
            i64::MAX
        } else {
            q as i64
        }
    }
}

/// The metronome's tick bookkeeping for one sample, before its voice and
/// envelope run: the counter advances, and at a tick boundary the blip
/// restarts, brighter at the top of a bar.
pub open spec fn metronome_tick_spec(m: Metronome) -> Metronome {
    let c = m.sample_counter + 1;
    if c >= m.tick_duration {
        let tick = m.current_tick + 1;
        Metronome {
            sample_counter: 0,
            current_tick: if tick >= m.ticks_per_bar {
                0
            } else {
                tick as u64
            },
            synth: Sine {
                freq: (if tick >= m.ticks_per_bar {
                    2000 * (ONE as int)
                } else {
                    1000 * (ONE as int)
                }) as i64,
                ..m.synth
            },
            exponential_decay: env_trigger_spec(m.exponential_decay, ONE as int),
            ..m
        }
    } else {
        Metronome { sample_counter: c as u64, ..m }
    }
}

} // verus!
