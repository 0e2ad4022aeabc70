//! The top-level synthesis engine.
//!
//! Construction builds the fixed topology once: two wavetables (a pure
//! sine and a fifteen-harmonic additive table), five frequency-banded
//! synthesis groups, three texture groups tuned by the 159th root of two,
//! one sixteen-voice bass stack, and thirty-two sustained single pitches
//! on a 53-tone-equal-temperament chord. After that the engine lives
//! forever: triggers write into pre-allocated voices, and every call to
//! [`SynthesisEngine::next`] advances all voices once and mixes one
//! stereo frame.
//!
//! The engine is a plain value with no locks of its own: a host that
//! triggers from a control thread while another thread renders must
//! bring its own synchronization (per-field atomics, or a bounded
//! command queue drained between frames) — concurrent unsynchronized
//! calls are outside what the contracts here say.

use vstd::prelude::*;
use crate::sample::{Sample, ONE, clip, sat_add, sat_mul_int, sat_sub, fx_mul, fx_mul_spec};
use crate::rng::{NoiseSource, entropy_seed, xorshift_step, xorshift_output};
use crate::wavetable::{Wavetable, WavetableArena, max_abs, sine_q_spec, phase_of_index};
use crate::oscillator::TriggeredOscillator;
use crate::groups::{
    SynthesisGroup, TextureGroup, BassSynthesis, voices_sum, tanh_spec,
};
use crate::pitch::{SinglePitch, pitch_next_spec};
use crate::oscillator::trig_step_spec;
use crate::envelope::{env_next_spec, duration_samples_spec, attack_step_spec};
use crate::power::fx_root;

verus! {

/// Every voice in a pool is at rest: envelope value and target both zero.
pub open spec fn voices_silent(oscs: Seq<TriggeredOscillator>) -> bool {
    forall|j: int| 0 <= j < oscs.len() ==> (#[trigger] oscs[j]).env.value == 0
        && oscs[j].env.target_value == 0
}

/// The saturating mix of the first `k` synthesis groups.
pub open spec fn sg_mix(gs: Seq<SynthesisGroup>, arena: WavetableArena, k: int) -> int
    decreases k,
{
    if k <= 0 {
        0
    } else {
        clip(sg_mix(gs, arena, k - 1) + voices_sum(gs[k - 1].oscillators@, arena,
            gs[k - 1].oscillators@.len() as int))
    }
}

/// What one texture group contributes: its mix, doubled, soft-clipped,
/// and scaled by an eighth.
pub open spec fn tex_out(t: TextureGroup, arena: WavetableArena) -> int {
    let s = voices_sum(t.oscillators@, arena, t.oscillators@.len() as int);
    fx_mul_spec(tanh_spec(clip(s + s)), 536870912)
}

/// `base` plus the saturating mix of the first `k` texture groups.
pub open spec fn tg_mix(ts: Seq<TextureGroup>, arena: WavetableArena, base: int, k: int)
    -> int
    decreases k,
{
    if k <= 0 {
        base
    } else {
        clip(tg_mix(ts, arena, base, k - 1) + tex_out(ts[k - 1], arena))
    }
}

/// `base` plus the left-channel contributions of the first `k` single
/// pitches.
pub open spec fn pitch_mix_left(ps: Seq<SinglePitch>, arena: WavetableArena, base: int,
    k: int) -> int
    decreases k,
{
    if k <= 0 {
        base
    } else {
        clip(pitch_mix_left(ps, arena, base, k - 1) + pitch_next_spec(ps[k - 1], arena).1)
    }
}

/// `base` plus the right-channel contributions of the first `k` single
/// pitches.
pub open spec fn pitch_mix_right(ps: Seq<SinglePitch>, arena: WavetableArena, base: int,
    k: int) -> int
    decreases k,
{
    if k <= 0 {
        base
    } else {
        clip(pitch_mix_right(ps, arena, base, k - 1) + pitch_next_spec(ps[k - 1], arena).2)
    }
}

/// The index of the first synthesis group at or after `k` whose band
/// contains `freq`, or the pool length if none does.
pub open spec fn first_band_from(gs: Seq<SynthesisGroup>, freq: int, k: int) -> int
    decreases gs.len() - k,
{
    if k < 0 || k >= gs.len() {
        gs.len() as int
    } else if gs[k].min_freq <= freq <= gs[k].max_freq {
        k
    } else {
        first_band_from(gs, freq, k + 1)
    }
}

/// The engine that owns the arena and every voice group.
pub struct SynthesisEngine {
    pub wavetable_arena: WavetableArena,
    pub sample_rate: u32,
    pub synthesis_groups: Vec<SynthesisGroup>,
    pub texture_groups: Vec<TextureGroup>,
    pub single_pitches: Vec<SinglePitch>,
    pub bass_synthesis: BassSynthesis,
    pub output_frame: [Sample; 2],
}

impl SynthesisEngine {
    /// The arena and every group are well formed at the engine's sample
    /// rate.
    pub open spec fn wf(self) -> bool {
        &&& self.wavetable_arena.wf()
        &&& self.sample_rate >= 1
        &&& forall|g: int| 0 <= g < self.synthesis_groups@.len() ==> (
            #[trigger] self.synthesis_groups@[g]).wf()
        &&& forall|t: int| 0 <= t < self.texture_groups@.len() ==> (
            #[trigger] self.texture_groups@[t]).wf()
        &&& forall|p: int| 0 <= p < self.single_pitches@.len() ==> (
            #[trigger] self.single_pitches@[p]).wf()
        &&& self.bass_synthesis.wf()
        &&& self.texture_groups@.len() >= 1
    }

    /// No voice anywhere carries any energy: every envelope value and
    /// target, and every single-pitch amplitude and target, is zero.
    pub open spec fn silent(self) -> bool {
        &&& forall|g: int| 0 <= g < self.synthesis_groups@.len() ==> voices_silent((
            #[trigger] self.synthesis_groups@[g]).oscillators@)
        &&& forall|t: int| 0 <= t < self.texture_groups@.len() ==> voices_silent((
            #[trigger] self.texture_groups@[t]).oscillators@)
        &&& voices_silent(self.bass_synthesis.oscillators@)
        &&& forall|p: int| 0 <= p < self.single_pitches@.len() ==> (
            #[trigger] self.single_pitches@[p]).amp == 0 && self.single_pitches@[
            p].target_amp == 0
    }

    /// The fixed topology described by [`SynthesisEngine::new_with_seed`],
    /// seeded from machine entropy.
    pub fn new(sample_rate: u32) -> (r: SynthesisEngine)
        requires
            sample_rate >= 1,
        ensures
            r.wf(),
            r.silent(),
            r.sample_rate == sample_rate,
            r.output_frame@[0] == 0 && r.output_frame@[1] == 0,
            r.synthesis_groups@.len() == 5,
            r.synthesis_groups@[0].min_freq == 429496729600
                && r.synthesis_groups@[0].max_freq == 1288490188800,
            r.synthesis_groups@[1].min_freq == 1288490188800
                && r.synthesis_groups@[1].max_freq == 3435973836800,
            r.synthesis_groups@[2].min_freq == 3435973836800
                && r.synthesis_groups@[2].max_freq == 8589934592000,
            r.synthesis_groups@[3].min_freq == 858993459200
                && r.synthesis_groups@[3].max_freq == 42949672960000,
            r.synthesis_groups@[4].min_freq == 4294967296000
                && r.synthesis_groups@[4].max_freq == 85899345920000,
            forall|g: int| 0 <= g < 5 ==> (#[trigger] r.synthesis_groups@[
                g]).oscillators@.len() == 200,
            r.texture_groups@.len() == 3,
            forall|t: int| 0 <= t < 3 ==> (#[trigger] r.texture_groups@[
                t]).oscillators@.len() == 159,
            r.texture_groups@[0].min_freq == 858993459200,
            r.texture_groups@[1].min_freq == 3435973836800,
            r.texture_groups@[2].min_freq == 13743895347200,
            r.single_pitches@.len() == 32,
            r.bass_synthesis.oscillators@.len() == 16,
            r.bass_synthesis.freq == 214748364800,
            r.wavetable_arena.wavetables@.len() == 100,
            r.wavetable_arena.next_free_index == 2,
            r.wavetable_arena.wavetables@[0] is Some,
            (r.wavetable_arena.wavetables@[0] matches Some(w) ==> w.size == 131072
                && forall|i: int| 0 <= i < w.buffer@.len() ==> w.buffer@[i]
                == sine_q_spec(phase_of_index(i as nat, 131072) as u64)),
            r.wavetable_arena.wavetables@[1] is Some,
            (r.wavetable_arena.wavetables@[1] matches Some(w) ==> w.size == 131072
                && (max_abs(w.buffer@) == ONE || max_abs(w.buffer@) == 0)),
    {
        let seed = entropy_seed();
        SynthesisEngine::new_with_seed(sample_rate, seed)
    }

    /// The fixed topology, reproducible from a seed: the random phases of
    /// the additive wavetable, the stereo placements of the single
    /// pitches, and the bass stealing order all follow from it.
    pub fn new_with_seed(sample_rate: u32, seed: u64) -> (r: SynthesisEngine)
        requires
            sample_rate >= 1,
        ensures
            r.wf(),
            r.silent(),
            r.sample_rate == sample_rate,
            r.output_frame@[0] == 0 && r.output_frame@[1] == 0,
            r.synthesis_groups@.len() == 5,
            r.synthesis_groups@[0].min_freq == 429496729600
                && r.synthesis_groups@[0].max_freq == 1288490188800,
            r.synthesis_groups@[1].min_freq == 1288490188800
                && r.synthesis_groups@[1].max_freq == 3435973836800,
            r.synthesis_groups@[2].min_freq == 3435973836800
                && r.synthesis_groups@[2].max_freq == 8589934592000,
            r.synthesis_groups@[3].min_freq == 858993459200
                && r.synthesis_groups@[3].max_freq == 42949672960000,
            r.synthesis_groups@[4].min_freq == 4294967296000
                && r.synthesis_groups@[4].max_freq == 85899345920000,
            forall|g: int| 0 <= g < 5 ==> (#[trigger] r.synthesis_groups@[
                g]).oscillators@.len() == 200,
            r.texture_groups@.len() == 3,
            forall|t: int| 0 <= t < 3 ==> (#[trigger] r.texture_groups@[
                t]).oscillators@.len() == 159,
            r.texture_groups@[0].min_freq == 858993459200,
            r.texture_groups@[1].min_freq == 3435973836800,
            r.texture_groups@[2].min_freq == 13743895347200,
            r.single_pitches@.len() == 32,
            r.bass_synthesis.oscillators@.len() == 16,
            r.bass_synthesis.freq == 214748364800,
            r.wavetable_arena.wavetables@.len() == 100,
            r.wavetable_arena.next_free_index == 2,
            r.wavetable_arena.wavetables@[0] is Some,
            (r.wavetable_arena.wavetables@[0] matches Some(w) ==> w.size == 131072
                && forall|i: int| 0 <= i < w.buffer@.len() ==> w.buffer@[i]
                == sine_q_spec(phase_of_index(i as nat, 131072) as u64)),
            r.wavetable_arena.wavetables@[1] is Some,
            (r.wavetable_arena.wavetables@[1] matches Some(w) ==> w.size == 131072
                && (max_abs(w.buffer@) == ONE || max_abs(w.buffer@) == 0)),
    {
        let mut rng = NoiseSource::from_seed(seed);
        let mut wavetable_arena = WavetableArena::new();
        proof {
            crate::wavetable::lemma_pow2_131072();
        }
        let sine_wt = match wavetable_arena.add(Wavetable::sine(131072)) {
            Some(i) => i,
            None => {
                proof {
                    // a fresh arena of a hundred slots cannot be full
                    assert(false);
                }
                0
            },
        };
        let multi_sine_wt = match wavetable_arena.add(Wavetable::multi_sine(131072, 15,
            &mut rng)) {
            Some(i) => i,
            None => {
                proof {
                    assert(false);
                }
                0
            },
        };

        let mut synthesis_groups: Vec<SynthesisGroup> = Vec::new();
        // five bands: 100-300, 300-800, 800-2000, 200-10000, 1000-20000 Hz
        synthesis_groups.push(SynthesisGroup::new(sine_wt, 429496729600, 1288490188800,
            sample_rate, 200));
        synthesis_groups.push(SynthesisGroup::new(sine_wt, 1288490188800, 3435973836800,
            sample_rate, 200));
        synthesis_groups.push(SynthesisGroup::new(sine_wt, 3435973836800, 8589934592000,
            sample_rate, 200));
        synthesis_groups.push(SynthesisGroup::new(sine_wt, 858993459200, 42949672960000,
            sample_rate, 200));
        synthesis_groups.push(SynthesisGroup::new(sine_wt, 4294967296000, 85899345920000,
            sample_rate, 200));

        // textures an octave apart, tuned inside by the 159th root of two
        let texture_ratio = fx_root(2 * ONE, 159);
        let mut texture_groups: Vec<TextureGroup> = Vec::new();
        texture_groups.push(TextureGroup::new(sine_wt, 858993459200, texture_ratio,
            sample_rate, 159));
        texture_groups.push(TextureGroup::new(sine_wt, 3435973836800, texture_ratio,
            sample_rate, 159));
        texture_groups.push(TextureGroup::new(sine_wt, 13743895347200, texture_ratio,
            sample_rate, 159));

        // a fixed chord over 53 equal divisions of the octave, from 40 Hz
        let ratio53 = fx_root(2 * ONE, 53);
        let chord: Vec<u64> = vec![0, 9, 14, 31, 40, 53, 62, 67, 84, 93, 106, 115, 120,
            137, 146, 159, 168, 173, 190, 199, 212, 221, 226, 243, 252, 265, 274, 279,
            296, 305, 318, 327];
        let mut single_pitches: Vec<SinglePitch> = Vec::new();
        let mut i: usize = 0;
        while i < chord.len()
            invariant
                sample_rate >= 1,
                single_pitches@.len() == i,
                i <= chord@.len(),
                forall|p: int| 0 <= p < i ==> {
                    let sp = #[trigger] single_pitches@[p];
                    &&& sp.wf()
                    &&& sp.amp == 0
                    &&& sp.target_amp == 0
                },
            decreases chord@.len() - i,
        {
            let degree = chord[i];
            let freq = fx_mul(171798691840, crate::power::fx_pow(ratio53, degree));
            let pan = sat_sub(sat_mul_int(rng.next_unit(), 2), ONE);
            let noise_seed = rng.next_u64();
            single_pitches.push(SinglePitch::new(freq, multi_sine_wt, sample_rate,
                21474836480, pan, noise_seed));
            i = i + 1;
        }

        let bass_seed = rng.next_u64();
        // a sixteen-voice odd-harmonic stack on 50 Hz
        let bass_synthesis = BassSynthesis::new(multi_sine_wt, 214748364800, sample_rate,
            16, bass_seed);

        SynthesisEngine {
            wavetable_arena,
            sample_rate,
            synthesis_groups,
            texture_groups,
            single_pitches,
            bass_synthesis,
            output_frame: [0, 0],
        }
    }

    /// Routes a trigger to the first synthesis group whose band contains
    /// `freq`; a frequency outside every band changes nothing. No group
    /// but the routed one is touched.
    pub fn trigger_oscillator(&mut self, freq: Sample, amp: Sample, decay: Sample)
        requires
            old(self).wf(),
        ensures
            final(self).wf(),
            final(self).wavetable_arena == old(self).wavetable_arena,
            final(self).sample_rate == old(self).sample_rate,
            final(self).texture_groups@ == old(self).texture_groups@,
            final(self).single_pitches@ == old(self).single_pitches@,
            final(self).bass_synthesis == old(self).bass_synthesis,
            final(self).output_frame == old(self).output_frame,
            final(self).synthesis_groups@.len() == old(self).synthesis_groups@.len(),
            ({
                let gs = old(self).synthesis_groups@;
                let f = first_band_from(gs, freq as int, 0);
                &&& forall|g: int| 0 <= g < gs.len() && g != f ==> final(
                    self).synthesis_groups@[g] == gs[g]
                &&& f == gs.len() ==> final(self).synthesis_groups@ == gs
                &&& f < gs.len() ==> {
                    let v = gs[f];
                    let w = final(self).synthesis_groups@[f];
                    &&& v.min_freq <= freq <= v.max_freq
                    &&& w.min_freq == v.min_freq
                    &&& w.max_freq == v.max_freq
                    &&& w.sample_rate == v.sample_rate
                    &&& w.next_oscillator == (v.next_oscillator + 1) % (
                        v.oscillators@.len() as int)
                    &&& w.oscillators@.len() == v.oscillators@.len()
                    &&& forall|j: int| 0 <= j < v.oscillators@.len() && j
                        != v.next_oscillator ==> w.oscillators@[j] == v.oscillators@[j]
                    &&& w.oscillators@[v.next_oscillator as int].env.target_value == amp
                    &&& w.oscillators@[v.next_oscillator as int].env.duration_samples
                        == duration_samples_spec(decay as int, v.oscillators@[
                        v.next_oscillator as int].env.sample_rate as int)
                    &&& w.oscillators@[v.next_oscillator as int].oscillator.phase == 0
                    &&& w.oscillators@[v.next_oscillator as int].oscillator.step
                        == crate::oscillator::step_of_freq(freq as int,
                        v.sample_rate as int)
                }
            }),
    {
        let len = self.synthesis_groups.len();
        let mut i: usize = 0;
        while i < len
            invariant
                old(self).wf(),
                *self == *old(self),
                len == self.synthesis_groups@.len(),
                i <= len,
                first_band_from(old(self).synthesis_groups@, freq as int, 0)
                    == first_band_from(old(self).synthesis_groups@, freq as int, i as int),
            decreases len - i,
        {
            let hit = self.synthesis_groups[i].contains_freq(freq);
            if hit {
                let g = &mut self.synthesis_groups[i];
                g.trigger_oscillator(freq, amp, decay);
                return ;
            }
            i = i + 1;
        }
    }

    /// Retriggers one voice of one texture group; both indices are taken
    /// modulo the respective pool sizes, so no request is out of range.
    pub fn trigger_texture(&mut self, texture_index: usize, index: usize, amp: Sample,
        decay: Sample)
        requires
            old(self).wf(),
        ensures
            final(self).wf(),
            final(self).wavetable_arena == old(self).wavetable_arena,
            final(self).sample_rate == old(self).sample_rate,
            final(self).synthesis_groups@ == old(self).synthesis_groups@,
            final(self).single_pitches@ == old(self).single_pitches@,
            final(self).bass_synthesis == old(self).bass_synthesis,
            final(self).output_frame == old(self).output_frame,
            final(self).texture_groups@.len() == old(self).texture_groups@.len(),
            ({
                let at = (texture_index as int) % (old(self).texture_groups@.len() as int);
                &&& forall|t: int| 0 <= t < old(self).texture_groups@.len() && t != at
                    ==> final(self).texture_groups@[t] == old(self).texture_groups@[t]
                &&& {
                    let v = old(self).texture_groups@[at];
                    let w = final(self).texture_groups@[at];
                    let vi = (index as int) % (v.num_oscillators as int);
                    &&& w.min_freq == v.min_freq
                    &&& w.num_oscillators == v.num_oscillators
                    &&& w.oscillators@.len() == v.oscillators@.len()
                    &&& forall|j: int| 0 <= j < v.oscillators@.len() && j != vi
                        ==> w.oscillators@[j] == v.oscillators@[j]
                    &&& w.oscillators@[vi].env.target_value == amp
                    &&& w.oscillators@[vi].env.duration_samples == duration_samples_spec(
                        decay as int, v.oscillators@[vi].env.sample_rate as int)
                    &&& ({
                        let vo = v.oscillators@[vi].oscillator;
                        w.oscillators@[vi].oscillator == (crate::oscillator::Oscillator {
                            phase: 0,
                            ..vo
                        })
                    })
                }
            }),
    {
        let nt = self.texture_groups.len();
        let at = texture_index % nt;
        let t = &mut self.texture_groups[at];
        t.trigger_oscillator(index, amp, decay);
    }

    /// Retriggers the bass voice at the stack's cursor and draws the next
    /// cursor pseudo-randomly.
    pub fn trigger_bass(&mut self, amp: Sample, decay: Sample, index: usize)
        requires
            old(self).wf(),
        ensures
            final(self).wf(),
            final(self).wavetable_arena == old(self).wavetable_arena,
            final(self).sample_rate == old(self).sample_rate,
            final(self).synthesis_groups@ == old(self).synthesis_groups@,
            final(self).texture_groups@ == old(self).texture_groups@,
            final(self).single_pitches@ == old(self).single_pitches@,
            final(self).output_frame == old(self).output_frame,
            final(self).bass_synthesis.oscillators@.len() == old(
                self).bass_synthesis.oscillators@.len(),
            forall|j: int| 0 <= j < old(self).bass_synthesis.oscillators@.len() && j
                != old(self).bass_synthesis.next_oscillator ==> final(
                self).bass_synthesis.oscillators@[j] == old(
                self).bass_synthesis.oscillators@[j],
            final(self).bass_synthesis.oscillators@[old(
                self).bass_synthesis.next_oscillator as int].env.target_value == amp,
            final(self).bass_synthesis.freq == old(self).bass_synthesis.freq,
            final(self).bass_synthesis.sample_rate == old(
                self).bass_synthesis.sample_rate,
            final(self).bass_synthesis.rng.state == xorshift_step(old(
                self).bass_synthesis.rng.state),
            final(self).bass_synthesis.next_oscillator == (xorshift_output(xorshift_step(
                old(self).bass_synthesis.rng.state)) as int) % (old(
                self).bass_synthesis.oscillators@.len() as int),
            ({
                let v = old(self).bass_synthesis.oscillators@[old(
                    self).bass_synthesis.next_oscillator as int];
                let w = final(self).bass_synthesis.oscillators@[old(
                    self).bass_synthesis.next_oscillator as int];
                &&& w.oscillator == (crate::oscillator::Oscillator {
                    phase: 0,
                    ..v.oscillator
                })
                &&& w.env.value == v.env.value
                &&& w.env.duration_samples == duration_samples_spec(decay as int,
                    v.env.sample_rate as int)
                &&& w.env.attack_lin_scaler == attack_step_spec(v.env.value as int,
                    amp as int, v.env.attack_samples as int)
                &&& w.env.attack_samples == v.env.attack_samples
            }),
    {
        self.bass_synthesis.trigger(amp, decay, index);
    }

    /// Feeds energy to one single pitch; the caller addresses a voice
    /// below `num_single_pitches()`.
    pub fn add_energy_to_pitch(&mut self, index: usize, energy: Sample)
        requires
            old(self).wf(),
            index < old(self).single_pitches@.len(),
        ensures
            final(self).wf(),
            final(self).wavetable_arena == old(self).wavetable_arena,
            final(self).sample_rate == old(self).sample_rate,
            final(self).synthesis_groups@ == old(self).synthesis_groups@,
            final(self).texture_groups@ == old(self).texture_groups@,
            final(self).bass_synthesis == old(self).bass_synthesis,
            final(self).output_frame == old(self).output_frame,
            final(self).single_pitches@ == old(self).single_pitches@.update(index as int,
                crate::pitch::add_energy_spec(old(self).single_pitches@[index as int],
                energy as int)),
    {
        let p = &mut self.single_pitches[index];
        p.add_energy(energy);
    }

    /// One stereo frame: every synthesis group, the bass stack and every
    /// texture group are mixed into a mono sum, which feeds both
    /// channels; every single pitch then adds its own stereo pair.
    pub fn next(&mut self) -> (r: [Sample; 2])
        requires
            old(self).wf(),
        ensures
            final(self).wf(),
            final(self).wavetable_arena == old(self).wavetable_arena,
            final(self).sample_rate == old(self).sample_rate,
            final(self).synthesis_groups@.len() == old(self).synthesis_groups@.len(),
            final(self).texture_groups@.len() == old(self).texture_groups@.len(),
            final(self).single_pitches@.len() == old(self).single_pitches@.len(),
            forall|g: int| 0 <= g < old(self).synthesis_groups@.len() ==> {
                let v = #[trigger] old(self).synthesis_groups@[g];
                let w = final(self).synthesis_groups@[g];
                &&& w.min_freq == v.min_freq
                &&& w.max_freq == v.max_freq
                &&& w.sample_rate == v.sample_rate
                &&& w.next_oscillator == v.next_oscillator
                &&& w.oscillators@.len() == v.oscillators@.len()
                &&& forall|j: int| 0 <= j < v.oscillators@.len() ==> w.oscillators@[j]
                    == trig_step_spec(#[trigger] v.oscillators@[j])
            },
            forall|t: int| 0 <= t < old(self).texture_groups@.len() ==> {
                let v = #[trigger] old(self).texture_groups@[t];
                let w = final(self).texture_groups@[t];
                &&& w.min_freq == v.min_freq
                &&& w.num_oscillators == v.num_oscillators
                &&& w.oscillators@.len() == v.oscillators@.len()
                &&& forall|j: int| 0 <= j < v.oscillators@.len() ==> w.oscillators@[j]
                    == trig_step_spec(#[trigger] v.oscillators@[j])
            },
            final(self).bass_synthesis.oscillators@.len() == old(
                self).bass_synthesis.oscillators@.len(),
            forall|j: int| 0 <= j < old(self).bass_synthesis.oscillators@.len() ==> final(
                self).bass_synthesis.oscillators@[j] == trig_step_spec(#[trigger] old(
                self).bass_synthesis.oscillators@[j]),
            forall|p: int| 0 <= p < old(self).single_pitches@.len() ==> final(
                self).single_pitches@[p] == pitch_next_spec(#[trigger] old(
                self).single_pitches@[p], old(self).wavetable_arena).0,
            ({
                let e = *old(self);
                let mono = tg_mix(e.texture_groups@, e.wavetable_arena, clip(sg_mix(
                    e.synthesis_groups@, e.wavetable_arena,
                    e.synthesis_groups@.len() as int) + voices_sum(
                    e.bass_synthesis.oscillators@, e.wavetable_arena,
                    e.bass_synthesis.oscillators@.len() as int)),
                    e.texture_groups@.len() as int);
                &&& r@[0] == pitch_mix_left(e.single_pitches@, e.wavetable_arena, mono,
                    e.single_pitches@.len() as int)
                &&& r@[1] == pitch_mix_right(e.single_pitches@, e.wavetable_arena, mono,
                    e.single_pitches@.len() as int)
                &&& final(self).output_frame@[0] == r@[0]
                &&& final(self).output_frame@[1] == r@[1]
            }),
    {
        let mut amp: Sample = 0;
        let glen = self.synthesis_groups.len();
        let mut i: usize = 0;
        while i < glen
            invariant
                glen == self.synthesis_groups@.len(),
                glen == old(self).synthesis_groups@.len(),
                i <= glen,
                self.wavetable_arena == old(self).wavetable_arena,
                self.wavetable_arena.wf(),
                self.sample_rate == old(self).sample_rate,
                self.texture_groups@ == old(self).texture_groups@,
                self.single_pitches@ == old(self).single_pitches@,
                self.bass_synthesis == old(self).bass_synthesis,
                old(self).wf(),
                forall|g: int| 0 <= g < glen ==> (#[trigger] self.synthesis_groups@[
                    g]).wf(),
                forall|g: int| i <= g < glen ==> self.synthesis_groups@[g] == old(
                    self).synthesis_groups@[g],
                forall|g: int| 0 <= g < i ==> {
                    let v = #[trigger] old(self).synthesis_groups@[g];
                    let w = self.synthesis_groups@[g];
                    &&& w.min_freq == v.min_freq
                    &&& w.max_freq == v.max_freq
                    &&& w.sample_rate == v.sample_rate
                    &&& w.next_oscillator == v.next_oscillator
                    &&& w.oscillators@.len() == v.oscillators@.len()
                    &&& forall|j: int| 0 <= j < v.oscillators@.len() ==> w.oscillators@[
                        j] == trig_step_spec(#[trigger] v.oscillators@[j])
                },
                amp == sg_mix(old(self).synthesis_groups@, old(self).wavetable_arena,
                    i as int),
            decreases glen - i,
        {
            let g = &mut self.synthesis_groups[i];
            let s = g.next(&self.wavetable_arena);
            amp = sat_add(amp, s);
            i = i + 1;
        }
        let bs = self.bass_synthesis.next(&self.wavetable_arena);
        amp = sat_add(amp, bs);
        let tlen = self.texture_groups.len();
        let ghost base = amp as int;
        let mut t: usize = 0;
        while t < tlen
            invariant
                tlen == self.texture_groups@.len(),
                tlen == old(self).texture_groups@.len(),
                t <= tlen,
                self.wavetable_arena == old(self).wavetable_arena,
                self.wavetable_arena.wf(),
                self.sample_rate == old(self).sample_rate,
                self.single_pitches@ == old(self).single_pitches@,
                old(self).wf(),
                glen == self.synthesis_groups@.len(),
                glen == old(self).synthesis_groups@.len(),
                forall|g: int| 0 <= g < glen ==> (#[trigger] self.synthesis_groups@[
                    g]).wf(),
                forall|g: int| 0 <= g < glen ==> {
                    let v = #[trigger] old(self).synthesis_groups@[g];
                    let w = self.synthesis_groups@[g];
                    &&& w.min_freq == v.min_freq
                    &&& w.max_freq == v.max_freq
                    &&& w.sample_rate == v.sample_rate
                    &&& w.next_oscillator == v.next_oscillator
                    &&& w.oscillators@.len() == v.oscillators@.len()
                    &&& forall|j: int| 0 <= j < v.oscillators@.len() ==> w.oscillators@[
                        j] == trig_step_spec(#[trigger] v.oscillators@[j])
                },
                self.bass_synthesis.wf(),
                self.bass_synthesis.oscillators@.len() == old(
                    self).bass_synthesis.oscillators@.len(),
                forall|j: int| 0 <= j < old(self).bass_synthesis.oscillators@.len()
                    ==> self.bass_synthesis.oscillators@[j] == trig_step_spec(
                    #[trigger] old(self).bass_synthesis.oscillators@[j]),
                forall|k: int| 0 <= k < tlen ==> (#[trigger] self.texture_groups@[
                    k]).wf(),
                forall|k: int| t <= k < tlen ==> self.texture_groups@[k] == old(
                    self).texture_groups@[k],
                forall|k: int| 0 <= k < t ==> {
                    let v = #[trigger] old(self).texture_groups@[k];
                    let w = self.texture_groups@[k];
                    &&& w.min_freq == v.min_freq
                    &&& w.num_oscillators == v.num_oscillators
                    &&& w.oscillators@.len() == v.oscillators@.len()
                    &&& forall|j: int| 0 <= j < v.oscillators@.len() ==> w.oscillators@[
                        j] == trig_step_spec(#[trigger] v.oscillators@[j])
                },
                amp == tg_mix(old(self).texture_groups@, old(self).wavetable_arena, base,
                    t as int),
            decreases tlen - t,
        {
            let tg = &mut self.texture_groups[t];
            let s = tg.next(&self.wavetable_arena);
            amp = sat_add(amp, s);
            t = t + 1;
        }
        let mut out0: Sample = amp;
        let mut out1: Sample = amp;
        let plen = self.single_pitches.len();
        let ghost mono = amp as int;
        let mut p: usize = 0;
        while p < plen
            invariant
                plen == self.single_pitches@.len(),
                plen == old(self).single_pitches@.len(),
                p <= plen,
                self.wavetable_arena == old(self).wavetable_arena,
                self.wavetable_arena.wf(),
                self.sample_rate == old(self).sample_rate,
                old(self).wf(),
                glen == self.synthesis_groups@.len(),
                glen == old(self).synthesis_groups@.len(),
                forall|g: int| 0 <= g < glen ==> (#[trigger] self.synthesis_groups@[
                    g]).wf(),
                forall|g: int| 0 <= g < glen ==> {
                    let v = #[trigger] old(self).synthesis_groups@[g];
                    let w = self.synthesis_groups@[g];
                    &&& w.min_freq == v.min_freq
                    &&& w.max_freq == v.max_freq
                    &&& w.sample_rate == v.sample_rate
                    &&& w.next_oscillator == v.next_oscillator
                    &&& w.oscillators@.len() == v.oscillators@.len()
                    &&& forall|j: int| 0 <= j < v.oscillators@.len() ==> w.oscillators@[
                        j] == trig_step_spec(#[trigger] v.oscillators@[j])
                },
                self.bass_synthesis.wf(),
                self.bass_synthesis.oscillators@.len() == old(
                    self).bass_synthesis.oscillators@.len(),
                forall|j: int| 0 <= j < old(self).bass_synthesis.oscillators@.len()
                    ==> self.bass_synthesis.oscillators@[j] == trig_step_spec(
                    #[trigger] old(self).bass_synthesis.oscillators@[j]),
                tlen == self.texture_groups@.len(),
                tlen == old(self).texture_groups@.len(),
                forall|k: int| 0 <= k < tlen ==> (#[trigger] self.texture_groups@[
                    k]).wf(),
                forall|k: int| 0 <= k < tlen ==> {
                    let v = #[trigger] old(self).texture_groups@[k];
                    let w = self.texture_groups@[k];
                    &&& w.min_freq == v.min_freq
                    &&& w.num_oscillators == v.num_oscillators
                    &&& w.oscillators@.len() == v.oscillators@.len()
                    &&& forall|j: int| 0 <= j < v.oscillators@.len() ==> w.oscillators@[
                        j] == trig_step_spec(#[trigger] v.oscillators@[j])
                },
                forall|k: int| 0 <= k < plen ==> (#[trigger] self.single_pitches@[
                    k]).wf(),
                forall|k: int| p <= k < plen ==> self.single_pitches@[k] == old(
                    self).single_pitches@[k],
                forall|k: int| 0 <= k < p ==> #[trigger] self.single_pitches@[k]
                    == pitch_next_spec(old(self).single_pitches@[k],
                    old(self).wavetable_arena).0,
                out0 == pitch_mix_left(old(self).single_pitches@,
                    old(self).wavetable_arena, mono, p as int),
                out1 == pitch_mix_right(old(self).single_pitches@,
                    old(self).wavetable_arena, mono, p as int),
            decreases plen - p,
        {
            let sp = &mut self.single_pitches[p];
            let frame = sp.next(&self.wavetable_arena);
            out0 = sat_add(out0, frame[0]);
            out1 = sat_add(out1, frame[1]);
            p = p + 1;
        }
        self.output_frame = [out0, out1];
        self.output_frame
    }

    /// How many texture groups the engine owns.
    pub fn num_textures(&self) -> (r: usize)
        ensures
            r == self.texture_groups@.len(),
    {
        self.texture_groups.len()
    }

    /// How many single pitches the engine owns.
    pub fn num_single_pitches(&self) -> (r: usize)
        ensures
            r == self.single_pitches@.len(),
    {
        self.single_pitches.len()
    }
}

/// A voice at rest contributes nothing this sample and is still at rest
/// afterwards.
proof fn lemma_voice_silent(t: TriggeredOscillator, arena: WavetableArena)
    requires
        t.env.value == 0,
        t.env.target_value == 0,
    ensures
        crate::oscillator::trig_out_spec(t, arena) == 0,
        trig_step_spec(t).env.value == 0,
        trig_step_spec(t).env.target_value == 0,
{
    assert(env_next_spec(t.env).value == 0);
}

/// A pool of resting voices mixes to zero.
proof fn lemma_voices_sum_silent(oscs: Seq<TriggeredOscillator>, arena: WavetableArena,
    k: int)
    requires
        voices_silent(oscs),
        k <= oscs.len(),
    ensures
        voices_sum(oscs, arena, k) == 0,
    decreases k,
{
    if k > 0 {
        lemma_voices_sum_silent(oscs, arena, k - 1);
        lemma_voice_silent(oscs[k - 1], arena);
    }
}

/// A resting single pitch contributes silence on both channels and stays
/// at rest.
proof fn lemma_pitch_silent(p: SinglePitch, arena: WavetableArena)
    requires
        p.amp == 0,
        p.target_amp == 0,
    ensures
        pitch_next_spec(p, arena).1 == 0,
        pitch_next_spec(p, arena).2 == 0,
        pitch_next_spec(p, arena).0.amp == 0,
        pitch_next_spec(p, arena).0.target_amp == 0,
{
    lemma_fx_mul_zero();
}

/// Multiplying by zero on either side yields zero under the audio-rate
/// rounding.
proof fn lemma_fx_mul_zero()
    ensures
        forall|a: int| #[trigger] fx_mul_spec(a, 0) == 0,
        forall|a: int| #[trigger] fx_mul_spec(0, a) == 0,
{
    assert forall|a: int| #[trigger] fx_mul_spec(a, 0) == 0 by {
        assert(a * 0 == 0) by (nonlinear_arith);
    }
    assert forall|a: int| #[trigger] fx_mul_spec(0, a) == 0 by {
        assert(0 * a == 0) by (nonlinear_arith);
    }
}

/// Law: a silent, well-formed engine renders the zero frame, and every
/// voice is still silent afterwards — so a freshly constructed engine
/// returns `[0, 0]` from `next()` until the first trigger arrives.
pub proof fn lemma_silent_engine_renders_silence(e: SynthesisEngine)
    requires
        e.wf(),
        e.silent(),
    ensures
        ({
            let mono = tg_mix(e.texture_groups@, e.wavetable_arena, clip(sg_mix(
                e.synthesis_groups@, e.wavetable_arena,
                e.synthesis_groups@.len() as int) + voices_sum(
                e.bass_synthesis.oscillators@, e.wavetable_arena,
                e.bass_synthesis.oscillators@.len() as int)),
                e.texture_groups@.len() as int);
            &&& pitch_mix_left(e.single_pitches@, e.wavetable_arena, mono,
                e.single_pitches@.len() as int) == 0
            &&& pitch_mix_right(e.single_pitches@, e.wavetable_arena, mono,
                e.single_pitches@.len() as int) == 0
        }),
        forall|g: int, j: int| 0 <= g < e.synthesis_groups@.len() && 0 <= j < e.synthesis_groups@[
            g].oscillators@.len() ==> trig_step_spec(#[trigger] e.synthesis_groups@[
            g].oscillators@[j]).env.value == 0 && trig_step_spec(e.synthesis_groups@[
            g].oscillators@[j]).env.target_value == 0,
        forall|t: int, j: int| 0 <= t < e.texture_groups@.len() && 0 <= j < e.texture_groups@[
            t].oscillators@.len() ==> trig_step_spec(#[trigger] e.texture_groups@[
            t].oscillators@[j]).env.value == 0 && trig_step_spec(e.texture_groups@[
            t].oscillators@[j]).env.target_value == 0,
        forall|j: int| 0 <= j < e.bass_synthesis.oscillators@.len() ==> trig_step_spec(
            #[trigger] e.bass_synthesis.oscillators@[j]).env.value == 0 && trig_step_spec(
            e.bass_synthesis.oscillators@[j]).env.target_value == 0,
        forall|p: int| 0 <= p < e.single_pitches@.len() ==> pitch_next_spec(
            #[trigger] e.single_pitches@[p], e.wavetable_arena).0.amp == 0
            && pitch_next_spec(e.single_pitches@[p], e.wavetable_arena).0.target_amp == 0,
{
    let arena = e.wavetable_arena;
    lemma_sg_mix_silent(e.synthesis_groups@, arena, e.synthesis_groups@.len() as int);
    lemma_voices_sum_silent(e.bass_synthesis.oscillators@, arena,
        e.bass_synthesis.oscillators@.len() as int);
    lemma_tg_mix_silent(e.texture_groups@, arena, e.texture_groups@.len() as int);
    lemma_pitch_mix_silent(e.single_pitches@, arena, e.single_pitches@.len() as int);
    assert forall|g: int, j: int| 0 <= g < e.synthesis_groups@.len() && 0 <= j
        < e.synthesis_groups@[g].oscillators@.len() implies trig_step_spec(
        #[trigger] e.synthesis_groups@[g].oscillators@[j]).env.value == 0
        && trig_step_spec(e.synthesis_groups@[g].oscillators@[j]).env.target_value
        == 0 by {
        lemma_voice_silent(e.synthesis_groups@[g].oscillators@[j], arena);
    }
    assert forall|t: int, j: int| 0 <= t < e.texture_groups@.len() && 0 <= j
        < e.texture_groups@[t].oscillators@.len() implies trig_step_spec(
        #[trigger] e.texture_groups@[t].oscillators@[j]).env.value == 0
        && trig_step_spec(e.texture_groups@[t].oscillators@[j]).env.target_value
        == 0 by {
        lemma_voice_silent(e.texture_groups@[t].oscillators@[j], arena);
    }
    assert forall|j: int| 0 <= j < e.bass_synthesis.oscillators@.len() implies
        trig_step_spec(#[trigger] e.bass_synthesis.oscillators@[j]).env.value == 0
        && trig_step_spec(e.bass_synthesis.oscillators@[j]).env.target_value == 0 by {
        lemma_voice_silent(e.bass_synthesis.oscillators@[j], arena);
    }
    assert forall|p: int| 0 <= p < e.single_pitches@.len() implies pitch_next_spec(
        #[trigger] e.single_pitches@[p], e.wavetable_arena).0.amp == 0
        && pitch_next_spec(e.single_pitches@[p], e.wavetable_arena).0.target_amp
        == 0 by {
        lemma_pitch_silent(e.single_pitches@[p], arena);
    }
}

/// Silent synthesis groups mix to zero.
proof fn lemma_sg_mix_silent(gs: Seq<SynthesisGroup>, arena: WavetableArena, k: int)
    requires
        forall|g: int| 0 <= g < gs.len() ==> voices_silent((#[trigger] gs[
            g]).oscillators@),
        k <= gs.len(),
    ensures
        sg_mix(gs, arena, k) == 0,
    decreases k,
{
    if k > 0 {
        lemma_sg_mix_silent(gs, arena, k - 1);
        lemma_voices_sum_silent(gs[k - 1].oscillators@, arena,
            gs[k - 1].oscillators@.len() as int);
    }
}

/// Silent texture groups add nothing to the base: the soft clip of zero
/// is zero.
proof fn lemma_tg_mix_silent(ts: Seq<TextureGroup>, arena: WavetableArena, k: int)
    requires
        forall|t: int| 0 <= t < ts.len() ==> voices_silent((#[trigger] ts[
            t]).oscillators@),
        k <= ts.len(),
    ensures
        tg_mix(ts, arena, 0, k) == 0,
    decreases k,
{
    if k > 0 {
        lemma_tg_mix_silent(ts, arena, k - 1);
        lemma_voices_sum_silent(ts[k - 1].oscillators@, arena,
            ts[k - 1].oscillators@.len() as int);
        assert(tanh_spec(0) == 0) by {
            vstd::arithmetic::div_mod::lemma_div_multiples_vanish(0,
                27 * (ONE as int) * (ONE as int));
        }
        assert(tex_out(ts[k - 1], arena) == 0);
    }
}

/// Silent single pitches add nothing to either channel.
proof fn lemma_pitch_mix_silent(ps: Seq<SinglePitch>, arena: WavetableArena, k: int)
    requires
        forall|p: int| 0 <= p < ps.len() ==> (#[trigger] ps[p]).amp == 0 && ps[
            p].target_amp == 0,
        k <= ps.len(),
    ensures
        pitch_mix_left(ps, arena, 0, k) == 0,
        pitch_mix_right(ps, arena, 0, k) == 0,
    decreases k,
{
    if k > 0 {
        lemma_pitch_mix_silent(ps, arena, k - 1);
        lemma_pitch_silent(ps[k - 1], arena);
    }
}

} // verus!
