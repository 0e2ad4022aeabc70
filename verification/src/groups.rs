//! Voice groups: fixed pools of triggered oscillators with a voice
//! stealing policy.
//!
//! A [`SynthesisGroup`] serves a frequency band and steals voices round
//! robin; a [`TextureGroup`] holds a pre-tuned harmonic texture addressed
//! by explicit index and soft-clips its mix; a [`BassSynthesis`] stacks
//! odd harmonics of a fundamental and steals voices pseudo-randomly.

use vstd::prelude::*;
use vstd::arithmetic::div_mod::{
    lemma_add_mod_noop, lemma_div_is_ordered, lemma_div_multiples_vanish, lemma_mod_bound,
};
use vstd::arithmetic::mul::lemma_mul_nonnegative;
use crate::sample::{Sample, ONE, clip, fx_mul, fx_mul_spec, sat_add, sat_mul_int};
use crate::power::{fx_pow, fx_pow_spec};
use crate::rng::{NoiseSource, xorshift_step, xorshift_output};
use crate::wavetable::WavetableArena;
use crate::oscillator::{
    Oscillator, TriggeredOscillator, trig_out_spec, trig_step_spec, step_of_freq,
};
use crate::envelope::{duration_samples_spec, attack_step_spec};

verus! {

/// Every voice in a pool is well formed.
pub open spec fn voices_wf(oscs: Seq<TriggeredOscillator>) -> bool {
    forall|i: int| 0 <= i < oscs.len() ==> (#[trigger] oscs[i]).wf()
}

/// The saturating sum of the first `k` voices' contributions for one
/// sample.
pub open spec fn voices_sum(oscs: Seq<TriggeredOscillator>, arena: WavetableArena, k: int)
    -> int
    decreases k,
{
    if k <= 0 {
        0
    } else {
        clip(voices_sum(oscs, arena, k - 1) + trig_out_spec(oscs[k - 1], arena))
    }
}

/// The round-robin cursor after `k` single advances modulo `p`.
pub open spec fn cursor_after(c0: int, p: int, k: nat) -> int
    decreases k,
{
    if k == 0 {
        c0
    } else {
        (cursor_after(c0, p, (k - 1) as nat) + 1) % p
    }
}

/// Law (voice-stealing wrap-around): advancing a fresh round-robin cursor
/// once per trigger, `k` triggers land on `k % p`; so in a pool of `p`
/// voices the `p+1`-th trigger steals voice zero again.
pub proof fn lemma_round_robin_wrap(p: int, k: nat)
    requires
        p >= 1,
    ensures
        cursor_after(0, p, k) == (k as int) % p,
    decreases k,
{
    if k == 0 {
        lemma_mod_bound(0, p);
        assert(0int % p == 0) by (nonlinear_arith)
            requires
                p >= 1,
        ;
    } else {
        lemma_round_robin_wrap(p, (k - 1) as nat);
        lemma_add_mod_noop((k - 1) as int, 1, p);
        assert(1int % p == 1 || p == 1) by (nonlinear_arith)
            requires
                p >= 1,
        ;
        if p == 1 {
            lemma_mod_bound((k - 1) as int, p);
            lemma_mod_bound(k as int, p);
            lemma_mod_bound((k - 1) as int % p + 1int % p, p);
        }
    }
}

/// A full round of `p` triggers brings the cursor back to voice zero.
pub proof fn lemma_round_robin_full_cycle(p: int)
    requires
        p >= 1,
    ensures
        cursor_after(0, p, p as nat) == 0,
{
    lemma_round_robin_wrap(p, p as nat);
    vstd::arithmetic::div_mod::lemma_mod_self_0(p);
}

/// A pool of voices serving one frequency band, stolen round robin.
pub struct SynthesisGroup {
    pub min_freq: Sample,
    pub max_freq: Sample,
    pub oscillators: Vec<TriggeredOscillator>,
    pub next_oscillator: usize,
    pub sample_rate: u32,
}

impl SynthesisGroup {
    /// The pool is non-empty, the cursor inside it, and every voice well
    /// formed.
    pub open spec fn wf(self) -> bool {
        &&& voices_wf(self.oscillators@)
        &&& self.oscillators@.len() >= 1
        &&& self.next_oscillator < self.oscillators@.len()
        &&& self.sample_rate >= 1
    }

    /// A band `[min_freq, max_freq]` of `num_oscillators` silent voices
    /// on the given wavetable.
    pub fn new(sine_wt: usize, min_freq: Sample, max_freq: Sample, sample_rate: u32,
        num_oscillators: usize) -> (r: SynthesisGroup)
        requires
            sample_rate >= 1,
            1 <= num_oscillators < 0x80000000,
        ensures
            r.wf(),
            r.min_freq == min_freq,
            r.max_freq == max_freq,
            r.sample_rate == sample_rate,
            r.next_oscillator == 0,
            r.oscillators@.len() == num_oscillators,
            forall|i: int| 0 <= i < r.oscillators@.len() ==> {
                let t = #[trigger] r.oscillators@[i];
                &&& t.oscillator.wavetable == sine_wt
                &&& t.oscillator.phase == 0
                &&& t.oscillator.step == step_of_freq(858993459200, sample_rate as int)
                &&& t.oscillator.amp == 21474836
                &&& t.env.value == 0
                &&& t.env.target_value == 0
                &&& t.env.sample_rate == sample_rate
            },
    {
        let mut oscillators: Vec<TriggeredOscillator> = Vec::new();
        let mut n: usize = 0;
        while n < num_oscillators
            invariant
                n <= num_oscillators,
                sample_rate >= 1,
                oscillators@.len() == n,
                forall|i: int| 0 <= i < n ==> {
                    let t = #[trigger] oscillators@[i];
                    &&& t.wf()
                    &&& t.oscillator.wavetable == sine_wt
                    &&& t.oscillator.phase == 0
                    &&& t.oscillator.step == step_of_freq(858993459200,
                        sample_rate as int)
                    &&& t.oscillator.amp == 21474836
                    &&& t.env.value == 0
                    &&& t.env.target_value == 0
                    &&& t.env.sample_rate == sample_rate
                },
            decreases num_oscillators - n,
        {
            // 200 Hz at amplitude 0.005, awaiting a trigger
            let sig = TriggeredOscillator::from_freq(sine_wt, sample_rate, 858993459200,
                21474836);
            oscillators.push(sig);
            n = n + 1;
        }
        SynthesisGroup { min_freq, max_freq, oscillators, next_oscillator: 0, sample_rate }
    }

    /// Steals the voice at the cursor: retunes it to `freq`, restarts it
    /// toward `amp` with decay `decay`, and advances the cursor.
    pub fn trigger_oscillator(&mut self, freq: Sample, amp: Sample, decay: Sample)
        requires
            old(self).wf(),
        ensures
            final(self).wf(),
            final(self).min_freq == old(self).min_freq,
            final(self).max_freq == old(self).max_freq,
            final(self).sample_rate == old(self).sample_rate,
            final(self).next_oscillator == (old(self).next_oscillator + 1) % (old(
                self).oscillators@.len() as int),
            final(self).oscillators@.len() == old(self).oscillators@.len(),
            forall|j: int| 0 <= j < old(self).oscillators@.len() && j != old(
                self).next_oscillator ==> final(self).oscillators@[j] == old(
                self).oscillators@[j],
            ({
                let v = old(self).oscillators@[old(self).next_oscillator as int];
                let w = final(self).oscillators@[old(self).next_oscillator as int];
                &&& w.oscillator == (Oscillator {
                    step: step_of_freq(freq as int, old(self).sample_rate as int) as u64,
                    phase: 0,
                    wavetable: v.oscillator.wavetable,
                    amp: v.oscillator.amp,
                })
                &&& w.env.value == v.env.value
                &&& w.env.target_value == amp
                &&& w.env.sample_rate == v.env.sample_rate
                &&& w.env.duration_samples == duration_samples_spec(decay as int,
                    v.env.sample_rate as int)
                &&& w.env.attack_lin_scaler == attack_step_spec(v.env.value as int,
                    amp as int, v.env.attack_samples as int)
                &&& w.env.attack_samples == v.env.attack_samples
            }),
    {
        let cursor = self.next_oscillator;
        let len = self.oscillators.len();
        let t = &mut self.oscillators[cursor];
        t.set_freq(freq, self.sample_rate);
        t.trigger(amp, decay);
        self.next_oscillator = (cursor + 1) % len;
    }

    /// Whether this band serves the frequency.
    pub fn contains_freq(&self, freq: Sample) -> (r: bool)
        ensures
            r == (self.min_freq <= freq <= self.max_freq),
    {
        freq >= self.min_freq && freq <= self.max_freq
    }

    /// One sample: every voice advances once, and the group contributes
    /// their saturating sum.
    pub fn next(&mut self, wavetable_arena: &WavetableArena) -> (r: Sample)
        requires
            old(self).wf(),
            wavetable_arena.wf(),
        ensures
            final(self).wf(),
            final(self).min_freq == old(self).min_freq,
            final(self).max_freq == old(self).max_freq,
            final(self).sample_rate == old(self).sample_rate,
            final(self).next_oscillator == old(self).next_oscillator,
            final(self).oscillators@.len() == old(self).oscillators@.len(),
            forall|j: int| 0 <= j < old(self).oscillators@.len() ==> final(
                self).oscillators@[j] == trig_step_spec(#[trigger] old(
                self).oscillators@[j]),
            r == voices_sum(old(self).oscillators@, *wavetable_arena,
                old(self).oscillators@.len() as int),
    {
        let mut amp: Sample = 0;
        let len = self.oscillators.len();
        let mut i: usize = 0;
        while i < len
            invariant
                wavetable_arena.wf(),
                len == self.oscillators@.len(),
                len == old(self).oscillators@.len(),
                i <= len,
                self.min_freq == old(self).min_freq,
                self.max_freq == old(self).max_freq,
                self.sample_rate == old(self).sample_rate,
                self.next_oscillator == old(self).next_oscillator,
                forall|j: int| 0 <= j < i ==> self.oscillators@[j] == trig_step_spec(
                    #[trigger] old(self).oscillators@[j]),
                forall|j: int| i <= j < len ==> self.oscillators@[j] == old(
                    self).oscillators@[j],
                voices_wf(old(self).oscillators@),
                voices_wf(self.oscillators@),
                amp == voices_sum(old(self).oscillators@, *wavetable_arena, i as int),
            decreases len - i,
        {
            let t = &mut self.oscillators[i];
            let s = t.next(wavetable_arena);
            amp = sat_add(amp, s);
            i = i + 1;
        }
        amp
    }
}

/// The hyperbolic-tangent-shaped soft clip: the argument is clamped to
/// three, then put through the rational approximation
/// `z (27 + z^2) / (27 + 9 z^2)`, which stays within `[-1, 1]` and is
/// exact at zero.
pub open spec fn tanh_spec(z: int) -> int {
    let zc = if z > 3 * ONE {
        3 * (ONE as int)
    } else if z < -3 * ONE {
        -3 * (ONE as int)
    } else {
        z
    };
    let w = if zc >= 0 {
        zc
    } else {
        -zc
    };
    let q = (w * (27 * ONE * ONE + w * w)) / (27 * ONE * ONE + 9 * (w * w));
    if zc >= 0 {
        q
    } else {
        -q
    }
}

/// The rational soft clip stays within one: `ONE * den - num` is the cube
/// of `3 * ONE - w`.
proof fn lemma_tanh_le_one(w: int)
    requires
        0 <= w <= 3 * ONE,
    ensures
        0 <= (w * (27 * ONE * ONE + w * w)) / (27 * ONE * ONE + 9 * (w * w)) <= ONE,
{
    let num = w * (27 * ONE * ONE + w * w);
    let den = 27 * ONE * ONE + 9 * (w * w);
    assert(w * w >= 0) by (nonlinear_arith)
        requires
            w >= 0,
    ;
    assert(w * (27 * ONE * ONE + w * w) >= 0) by (nonlinear_arith)
        requires
            w >= 0,
            w * w >= 0,
    ;
    assert(ONE * (27 * ONE * ONE + 9 * (w * w)) - w * (27 * ONE * ONE + w * w)
        == (3 * ONE - w) * (3 * ONE - w) * (3 * ONE - w)) by (nonlinear_arith);
    assert((3 * ONE - w) * (3 * ONE - w) * (3 * ONE - w) >= 0) by (nonlinear_arith)
        requires
            3 * ONE - w >= 0,
    ;
    lemma_div_is_ordered(0, num, den);
    lemma_div_is_ordered(num, ONE * den, den);
    assert((ONE * den) / den == ONE) by {
        lemma_div_multiples_vanish(ONE as int, den);
        assert(ONE * den == den * (ONE as int)) by (nonlinear_arith);
    }
}

/// The soft clip as an exec step.
pub fn tanh_fx(z: Sample) -> (r: Sample)
    ensures
        r == tanh_spec(z as int),
        -ONE <= r <= ONE,
        z == 0 ==> r == 0,
{
    let zc: i64 = if z > 3 * ONE {
        3 * ONE
    } else if z < -3 * ONE {
        -3 * ONE
    } else {
        z
    };
    let w: u64 = crate::sample::abs_u64(zc);
    proof {
        lemma_tanh_le_one(w as int);
        assert((w as int) * (w as int) <= (3 * ONE) * (3 * ONE)) by (nonlinear_arith)
            requires
                0 <= (w as int) && (w as int) <= 3 * ONE,
        ;
        assert((w as int) * (27 * (ONE as int) * (ONE as int) + (w as int) * (w as int))
            <= (3 * ONE) * (27 * (ONE as int) * (ONE as int) + (3 * ONE) * (3 * ONE)))
            by (nonlinear_arith)
            requires
                0 <= (w as int) && (w as int) <= 3 * ONE,
        ;
    }
    let w2: u128 = (w as u128) * (w as u128);
    let num: u128 = (w as u128) * ((27u128 * (ONE as u128) * (ONE as u128)) + w2);
    let den: u128 = (27u128 * (ONE as u128) * (ONE as u128)) + 9 * w2;
    let q: u64 = (num / den) as u64;
    if zc < 0 {
        -(q as i64)
    } else {
        q as i64
    }
}

/// A pool of voices pre-tuned at construction to a geometric series over
/// `min_freq`, addressed by explicit index, mixed through a soft clip.
pub struct TextureGroup {
    pub min_freq: Sample,
    pub oscillators: Vec<TriggeredOscillator>,
    pub num_oscillators: usize,
    pub sample_rate: u32,
}

impl TextureGroup {
    /// The stated voice count matches the pool, which is non-empty and
    /// well formed.
    pub open spec fn wf(self) -> bool {
        &&& voices_wf(self.oscillators@)
        &&& self.oscillators@.len() == self.num_oscillators
        &&& self.num_oscillators >= 1
        &&& self.sample_rate >= 1
    }

    /// `num_oscillators` silent voices, voice `n` tuned to
    /// `min_freq * ratio^n`, each at amplitude `0.125 / num_oscillators`.
    pub fn new(sine_wt: usize, min_freq: Sample, ratio: Sample, sample_rate: u32,
        num_oscillators: usize) -> (r: TextureGroup)
        requires
            sample_rate >= 1,
            1 <= num_oscillators < 0x80000000,
        ensures
            r.wf(),
            r.min_freq == min_freq,
            r.sample_rate == sample_rate,
            r.num_oscillators == num_oscillators,
            r.oscillators@.len() == num_oscillators,
            forall|i: int| 0 <= i < r.oscillators@.len() ==> {
                let t = #[trigger] r.oscillators@[i];
                &&& t.oscillator.wavetable == sine_wt
                &&& t.oscillator.phase == 0
                &&& t.oscillator.step == step_of_freq(fx_mul_spec(min_freq as int,
                    fx_pow_spec(ratio as int, i as nat)), sample_rate as int)
                &&& t.oscillator.amp == 536870912int / (num_oscillators as int)
                &&& t.env.value == 0
                &&& t.env.target_value == 0
                &&& t.env.sample_rate == sample_rate
            },
    {
        let mut oscillators: Vec<TriggeredOscillator> = Vec::new();
        // 0.125 spread across the pool
        let amp: Sample = (536870912u64 / (num_oscillators as u64)) as i64;
        let mut n: usize = 0;
        while n < num_oscillators
            invariant
                n <= num_oscillators,
                sample_rate >= 1,
                amp == 536870912int / (num_oscillators as int),
                num_oscillators >= 1,
                oscillators@.len() == n,
                forall|i: int| 0 <= i < n ==> {
                    let t = #[trigger] oscillators@[i];
                    &&& t.wf()
                    &&& t.oscillator.wavetable == sine_wt
                    &&& t.oscillator.phase == 0
                    &&& t.oscillator.step == step_of_freq(fx_mul_spec(min_freq as int,
                        fx_pow_spec(ratio as int, i as nat)), sample_rate as int)
                    &&& t.oscillator.amp == 536870912int / (num_oscillators as int)
                    &&& t.env.value == 0
                    &&& t.env.target_value == 0
                    &&& t.env.sample_rate == sample_rate
                },
            decreases num_oscillators - n,
        {
            let f = fx_mul(min_freq, fx_pow(ratio, n as u64));
            let sig = TriggeredOscillator::from_freq(sine_wt, sample_rate, f, amp);
            oscillators.push(sig);
            n = n + 1;
        }
        TextureGroup { min_freq, oscillators, num_oscillators, sample_rate }
    }

    /// Restarts the voice at `index` (taken modulo the pool size) toward
    /// `amp` with decay `decay`; tuning is untouched.
    pub fn trigger_oscillator(&mut self, index: usize, amp: Sample, decay: Sample)
        requires
            old(self).wf(),
        ensures
            final(self).wf(),
            final(self).min_freq == old(self).min_freq,
            final(self).sample_rate == old(self).sample_rate,
            final(self).num_oscillators == old(self).num_oscillators,
            final(self).oscillators@.len() == old(self).oscillators@.len(),
            forall|j: int| 0 <= j < old(self).oscillators@.len() && j != (
                index as int) % (old(self).num_oscillators as int) ==> final(
                self).oscillators@[j] == old(self).oscillators@[j],
            ({
                let at = (index as int) % (old(self).num_oscillators as int);
                let v = old(self).oscillators@[at];
                let w = final(self).oscillators@[at];
                &&& w.oscillator == (Oscillator { phase: 0, ..v.oscillator })
                &&& w.env.value == v.env.value
                &&& w.env.target_value == amp
                &&& w.env.sample_rate == v.env.sample_rate
                &&& w.env.duration_samples == duration_samples_spec(decay as int,
                    v.env.sample_rate as int)
                &&& w.env.attack_lin_scaler == attack_step_spec(v.env.value as int,
                    amp as int, v.env.attack_samples as int)
                &&& w.env.attack_samples == v.env.attack_samples
            }),
    {
        let at = index % self.num_oscillators;
        let t = &mut self.oscillators[at];
        t.trigger(amp, decay);
    }

    /// One sample: every voice advances once, and the saturating sum is
    /// soft-clipped as `tanh(sum * 2) * 0.125`.
    pub fn next(&mut self, wavetable_arena: &WavetableArena) -> (r: Sample)
        requires
            old(self).wf(),
            wavetable_arena.wf(),
        ensures
            final(self).wf(),
            final(self).min_freq == old(self).min_freq,
            final(self).sample_rate == old(self).sample_rate,
            final(self).num_oscillators == old(self).num_oscillators,
            final(self).oscillators@.len() == old(self).oscillators@.len(),
            forall|j: int| 0 <= j < old(self).oscillators@.len() ==> final(
                self).oscillators@[j] == trig_step_spec(#[trigger] old(
                self).oscillators@[j]),
            ({
                let s = voices_sum(old(self).oscillators@, *wavetable_arena,
                    old(self).oscillators@.len() as int);
                r == fx_mul_spec(tanh_spec(clip(s + s)), 536870912)
            }),
            -ONE <= r <= ONE,
    {
        let mut amp: Sample = 0;
        let len = self.oscillators.len();
        let mut i: usize = 0;
        while i < len
            invariant
                wavetable_arena.wf(),
                len == self.oscillators@.len(),
                len == old(self).oscillators@.len(),
                i <= len,
                self.min_freq == old(self).min_freq,
                self.sample_rate == old(self).sample_rate,
                self.num_oscillators == old(self).num_oscillators,
                forall|j: int| 0 <= j < i ==> self.oscillators@[j] == trig_step_spec(
                    #[trigger] old(self).oscillators@[j]),
                forall|j: int| i <= j < len ==> self.oscillators@[j] == old(
                    self).oscillators@[j],
                voices_wf(old(self).oscillators@),
                voices_wf(self.oscillators@),
                amp == voices_sum(old(self).oscillators@, *wavetable_arena, i as int),
            decreases len - i,
        {
            let t = &mut self.oscillators[i];
            let s = t.next(wavetable_arena);
            amp = sat_add(amp, s);
            i = i + 1;
        }
        let doubled = sat_add(amp, amp);
        let shaped = tanh_fx(doubled);
        proof {
            crate::power::lemma_fx_mul_spec_le(if shaped >= 0 { shaped as int } else {
                -(shaped as int) }, 536870912);
            lemma_soft_clip_range(shaped as int);
        }
        fx_mul(shaped, 536870912)
    }
}

/// Scaling a sample within `[-ONE, ONE]` by an eighth keeps it there.
proof fn lemma_soft_clip_range(s: int)
    requires
        -ONE <= s <= ONE,
    ensures
        -ONE <= fx_mul_spec(s, 536870912) <= ONE,
{
    if s >= 0 {
        crate::power::lemma_fx_mul_spec_le(s, 536870912);
    } else {
        crate::power::lemma_fx_mul_spec_le(-s, 536870912);
        lemma_mul_nonnegative(-s, 536870912);
    }
}

/// A harmonic stack over one fundamental, stolen pseudo-randomly.
pub struct BassSynthesis {
    pub freq: Sample,
    pub oscillators: Vec<TriggeredOscillator>,
    pub sample_rate: u32,
    pub next_oscillator: usize,
    pub rng: NoiseSource,
}

impl BassSynthesis {
    /// The pool is non-empty, the cursor inside it, and every voice well
    /// formed.
    pub open spec fn wf(self) -> bool {
        &&& voices_wf(self.oscillators@)
        &&& self.oscillators@.len() >= 1
        &&& self.next_oscillator < self.oscillators@.len()
        &&& self.sample_rate >= 1
    }

    /// `num_oscillators` silent voices, voice `n` tuned to the odd
    /// harmonic `freq * (2n + 1)` at amplitude `0.05 / (n + 1)`.
    pub fn new(sine_wt: usize, freq: Sample, sample_rate: u32, num_oscillators: usize,
        seed: u64) -> (r: BassSynthesis)
        requires
            sample_rate >= 1,
            1 <= num_oscillators < 0x80000000,
        ensures
            r.wf(),
            r.freq == freq,
            r.sample_rate == sample_rate,
            r.next_oscillator == 0,
            r.oscillators@.len() == num_oscillators,
            forall|i: int| 0 <= i < r.oscillators@.len() ==> {
                let t = #[trigger] r.oscillators@[i];
                &&& t.oscillator.wavetable == sine_wt
                &&& t.oscillator.phase == 0
                &&& t.oscillator.step == step_of_freq(clip(freq * (2 * i + 1)),
                    sample_rate as int)
                &&& t.oscillator.amp == 214748364int / (i + 1)
                &&& t.env.value == 0
                &&& t.env.target_value == 0
                &&& t.env.sample_rate == sample_rate
            },
    {
        let mut oscillators: Vec<TriggeredOscillator> = Vec::new();
        let mut n: usize = 0;
        while n < num_oscillators
            invariant
                n <= num_oscillators,
                num_oscillators < 0x80000000,
                sample_rate >= 1,
                oscillators@.len() == n,
                forall|i: int| 0 <= i < n ==> {
                    let t = #[trigger] oscillators@[i];
                    &&& t.wf()
                    &&& t.oscillator.wavetable == sine_wt
                    &&& t.oscillator.phase == 0
                    &&& t.oscillator.step == step_of_freq(clip(freq * (2 * i + 1)),
                        sample_rate as int)
                    &&& t.oscillator.amp == 214748364int / (i + 1)
                    &&& t.env.value == 0
                    &&& t.env.target_value == 0
                    &&& t.env.sample_rate == sample_rate
                },
            decreases num_oscillators - n,
        {
            let f = sat_mul_int(freq, 2 * (n as u64) + 1);
            // 0.05 split across the stack
            let amp: Sample = (214748364u64 / ((n as u64) + 1)) as i64;
            let sig = TriggeredOscillator::from_freq(sine_wt, sample_rate, f, amp);
            oscillators.push(sig);
            n = n + 1;
        }
        BassSynthesis {
            freq,
            oscillators,
            sample_rate,
            next_oscillator: 0,
            rng: NoiseSource::from_seed(seed),
        }
    }

    /// Restarts the voice at the cursor toward `amp` with decay `decay`,
    /// then draws the next cursor pseudo-randomly. The index parameter is
    /// carried for callers but plays no part in the choice.
    #[allow(unused_variables)]
    pub fn trigger(&mut self, amp: Sample, decay: Sample, index: usize)
        requires
            old(self).wf(),
        ensures
            final(self).wf(),
            final(self).freq == old(self).freq,
            final(self).sample_rate == old(self).sample_rate,
            final(self).oscillators@.len() == old(self).oscillators@.len(),
            final(self).rng.state == xorshift_step(old(self).rng.state),
            final(self).next_oscillator == (xorshift_output(xorshift_step(old(
                self).rng.state)) as int) % (old(self).oscillators@.len() as int),
            forall|j: int| 0 <= j < old(self).oscillators@.len() && j != old(
                self).next_oscillator ==> final(self).oscillators@[j] == old(
                self).oscillators@[j],
            ({
                let v = old(self).oscillators@[old(self).next_oscillator as int];
                let w = final(self).oscillators@[old(self).next_oscillator as int];
                &&& w.oscillator == (Oscillator { phase: 0, ..v.oscillator })
                &&& w.env.value == v.env.value
                &&& w.env.target_value == amp
                &&& w.env.sample_rate == v.env.sample_rate
                &&& w.env.duration_samples == duration_samples_spec(decay as int,
                    v.env.sample_rate as int)
                &&& w.env.attack_lin_scaler == attack_step_spec(v.env.value as int,
                    amp as int, v.env.attack_samples as int)
                &&& w.env.attack_samples == v.env.attack_samples
            }),
    {
        let cursor = self.next_oscillator;
        let len = self.oscillators.len();
        let t = &mut self.oscillators[cursor];
        t.trigger(amp, decay);
        let draw = self.rng.next_u64();
        self.next_oscillator = (draw % (len as u64)) as usize;
    }

    /// Retunes every voice to the full harmonic series `freq * (i + 1)`
    /// without restarting any envelope. Construction tunes the stack to
    /// the odd harmonics `freq * (2i + 1)`; retuning deliberately moves
    /// it onto the full series, thickening the spectrum the first time a
    /// new fundamental is set.
    pub fn set_freq(&mut self, freq: Sample)
        requires
            old(self).wf(),
        ensures
            final(self).wf(),
            final(self).freq == old(self).freq,
            final(self).sample_rate == old(self).sample_rate,
            final(self).next_oscillator == old(self).next_oscillator,
            final(self).rng == old(self).rng,
            final(self).oscillators@.len() == old(self).oscillators@.len(),
            forall|i: int| 0 <= i < old(self).oscillators@.len() ==> {
                let v = #[trigger] old(self).oscillators@[i];
                let w = final(self).oscillators@[i];
                &&& w.oscillator == (Oscillator {
                    step: step_of_freq(clip(freq * (i + 1)),
                        old(self).sample_rate as int) as u64,
                    ..v.oscillator
                })
                &&& w.env == v.env
            },
    {
        let len = self.oscillators.len();
        let sr = self.sample_rate;
        let mut i: usize = 0;
        while i < len
            invariant
                len == self.oscillators@.len(),
                len == old(self).oscillators@.len(),
                len < 0x10000000000000000,
                i <= len,
                sr == old(self).sample_rate,
                sr >= 1,
                self.freq == old(self).freq,
                self.sample_rate == old(self).sample_rate,
                self.next_oscillator == old(self).next_oscillator,
                self.rng == old(self).rng,
                voices_wf(old(self).oscillators@),
                voices_wf(self.oscillators@),
                forall|j: int| 0 <= j < i ==> {
                    let v = #[trigger] old(self).oscillators@[j];
                    let w = self.oscillators@[j];
                    &&& w.oscillator == (Oscillator {
                        step: step_of_freq(clip(freq * (j + 1)),
                            old(self).sample_rate as int) as u64,
                        ..v.oscillator
                    })
                    &&& w.env == v.env
                },
                forall|j: int| i <= j < len ==> self.oscillators@[j] == old(
                    self).oscillators@[j],
            decreases len - i,
        {
            let f = sat_mul_int(freq, (i as u64) + 1);
            let t = &mut self.oscillators[i];
            t.set_freq(f, sr);
            i = i + 1;
        }
    }

    /// One sample: every voice advances once, and the stack contributes
    /// their saturating sum.
    pub fn next(&mut self, wavetable_arena: &WavetableArena) -> (r: Sample)
        requires
            old(self).wf(),
            wavetable_arena.wf(),
        ensures
            final(self).wf(),
            final(self).freq == old(self).freq,
            final(self).sample_rate == old(self).sample_rate,
            final(self).next_oscillator == old(self).next_oscillator,
            final(self).rng == old(self).rng,
            final(self).oscillators@.len() == old(self).oscillators@.len(),
            forall|j: int| 0 <= j < old(self).oscillators@.len() ==> final(
                self).oscillators@[j] == trig_step_spec(#[trigger] old(
                self).oscillators@[j]),
            r == voices_sum(old(self).oscillators@, *wavetable_arena,
                old(self).oscillators@.len() as int),
    {
        let mut amp: Sample = 0;
        let len = self.oscillators.len();
        let mut i: usize = 0;
        while i < len
            invariant
                wavetable_arena.wf(),
                len == self.oscillators@.len(),
                len == old(self).oscillators@.len(),
                i <= len,
                self.freq == old(self).freq,
                self.sample_rate == old(self).sample_rate,
                self.next_oscillator == old(self).next_oscillator,
                self.rng == old(self).rng,
                forall|j: int| 0 <= j < i ==> self.oscillators@[j] == trig_step_spec(
                    #[trigger] old(self).oscillators@[j]),
                forall|j: int| i <= j < len ==> self.oscillators@[j] == old(
                    self).oscillators@[j],
                voices_wf(old(self).oscillators@),
                voices_wf(self.oscillators@),
                amp == voices_sum(old(self).oscillators@, *wavetable_arena, i as int),
            decreases len - i,
        {
            let t = &mut self.oscillators[i];
            let s = t.next(wavetable_arena);
            amp = sat_add(amp, s);
            i = i + 1;
        }
        amp
    }
}

} // verus!
