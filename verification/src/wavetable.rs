//! Precomputed periodic waveforms and the arena that owns them.
//!
//! A [`Wavetable`] is one period of a waveform sampled into a buffer, read
//! by phase lookup; a [`WavetableArena`] is a fixed-capacity slot store
//! that owns every table and grants read access by integer handle, never
//! by reference. Handles are not generational: slots are only ever
//! appended, and removing or replacing a table while voices hold its
//! handle is unsupported.

use vstd::prelude::*;
use vstd::arithmetic::div_mod::{
    lemma_div_is_ordered, lemma_div_multiples_vanish, lemma_fundamental_div_mod,
};
use vstd::arithmetic::mul::lemma_mul_nonnegative;
use crate::sample::{Sample, ONE, HALF, PHASE_ONE, clip, fx_mul, fx_mul_spec, sat_add, abs_u64};
use crate::rng::{NoiseSource, xorshift_step, xorshift_output};

verus! {

/// Half a cycle, in phase units.
pub const HALF_PHASE: u64 = 2147483648;

/// How many wavetable slots an arena holds.
pub const ARENA_CAPACITY: usize = 100;

/// Whether `n` is a power of two.
pub open spec fn is_pow2_spec(n: nat) -> bool
    decreases n,
{
    if n == 0 {
        false
    } else if n == 1 {
        true
    } else {
        n % 2 == 0 && is_pow2_spec(n / 2)
    }
}

/// The floor of the base-two logarithm.
pub open spec fn log2_spec(n: nat) -> nat
    decreases n,
{
    if n < 2 {
        0
    } else {
        1 + log2_spec(n / 2)
    }
}

/// The bit trick `n & (n - 1) == 0` recognises exactly the powers of two
/// among the positive integers.
proof fn lemma_pow2_iff(n: u64)
    ensures
        (n > 0 && n & (n - 1) as u64 == 0) == is_pow2_spec(n as nat),
    decreases n,
{
    if n == 0 {
    } else if n == 1 {
        assert(1u64 & 0u64 == 0) by (bit_vector);
    } else {
        lemma_pow2_iff(n / 2);
        assert((n & (n - 1) as u64 == 0) == (n % 2 == 0 && (n / 2) & (n / 2 - 1) as u64
            == 0)) by (bit_vector)
            requires
                n >= 2,
        ;
    }
}

/// The engine's table size, 131072, is a power of two.
pub proof fn lemma_pow2_131072()
    ensures
        is_pow2_spec(131072),
{
    assert(131072u64 > 0 && 131072u64 & (131072u64 - 1) as u64 == 0) by (bit_vector);
    lemma_pow2_iff(131072u64);
}

/// Tests whether `num` is a power of two.
pub fn is_power_of_2(num: usize) -> (r: bool)
    ensures
        r == is_pow2_spec(num as nat),
{
    proof {
        lemma_pow2_iff(num as u64);
    }
    num > 0 && num & (num - 1) == 0
}

/// The magnitude of a sample value.
pub open spec fn abs_val(s: int) -> int {
    if s >= 0 {
        s
    } else {
        -s
    }
}

/// The largest magnitude found in a buffer.
pub open spec fn max_abs(s: Seq<Sample>) -> int
    decreases s.len(),
{
    if s.len() == 0 {
        0
    } else {
        let m = max_abs(s.drop_last());
        if abs_val(s.last() as int) > m {
            abs_val(s.last() as int)
        } else {
            m
        }
    }
}

/// Every element's magnitude is covered by `max_abs`.
pub proof fn lemma_max_abs_ge(s: Seq<Sample>, i: int)
    requires
        0 <= i < s.len(),
    ensures
        max_abs(s) >= abs_val(s[i] as int),
    decreases s.len(),
{
    if i < s.len() - 1 {
        lemma_max_abs_ge(s.drop_last(), i);
    }
}

/// A bound on every element's magnitude bounds `max_abs`.
pub proof fn lemma_max_abs_le(s: Seq<Sample>, b: int)
    requires
        b >= 0,
        forall|i: int| 0 <= i < s.len() ==> abs_val(s[i] as int) <= b,
    ensures
        max_abs(s) <= b,
    decreases s.len(),
{
    if s.len() > 0 {
        lemma_max_abs_le(s.drop_last(), b);
    }
}

/// `max_abs` is never negative.
pub proof fn lemma_max_abs_nonneg(s: Seq<Sample>)
    ensures
        max_abs(s) >= 0,
    decreases s.len(),
{
    if s.len() > 0 {
        lemma_max_abs_nonneg(s.drop_last());
    }
}

/// The parabolic one-period sine: the first half cycle is the downward
/// parabola `4 z (1 - z)` over the half-cycle fraction `z`, the second
/// half its negation. Exact at the quarter points, where it reaches
/// `ONE` and `-ONE`.
pub open spec fn sine_q_spec(phase: u64) -> int {
    if phase < HALF_PHASE {
        let z = 2 * (phase as int);
        (4 * z * (PHASE_ONE - z)) / (PHASE_ONE as int)
    } else {
        let z = 2 * ((phase - HALF_PHASE) as int);
        -((4 * z * (PHASE_ONE - z)) / (PHASE_ONE as int))
    }
}

/// The parabola `4 z (P - z) / P` stays within `[0, P]` for `z` in `[0, P]`.
proof fn lemma_parabola_bounds(z: int)
    requires
        0 <= z <= PHASE_ONE,
    ensures
        0 <= (4 * z * (PHASE_ONE - z)) / (PHASE_ONE as int) <= PHASE_ONE,
{
    let p = PHASE_ONE as int;
    assert(0 <= 4 * z * (p - z) <= p * p) by (nonlinear_arith)
        requires
            0 <= z <= p,
            p == PHASE_ONE as int,
    ;
    lemma_div_is_ordered(0, 4 * z * (p - z), p);
    lemma_div_is_ordered(4 * z * (p - z), p * p, p);
    assert((p * p) / p == p) by {
        lemma_div_multiples_vanish(p, p);
    }
}

/// One period of the parabolic sine, looked up at a phase in `[0, ONE)`.
pub fn sine_q(phase: u64) -> (r: Sample)
    requires
        phase < PHASE_ONE,
    ensures
        r == sine_q_spec(phase),
        -ONE <= r <= ONE,
{
    let (z, neg): (u64, bool) = if phase < HALF_PHASE {
        (2 * phase, false)
    } else {
        (2 * (phase - HALF_PHASE), true)
    };
    proof {
        lemma_parabola_bounds(z as int);
    }
    let n: u128 = 4 * (z as u128) * ((PHASE_ONE - z) as u128);
    let q: u64 = (n / (PHASE_ONE as u128)) as u64;
    if neg {
        -(q as i64)
    } else {
        q as i64
    }
}

/// The buffer slot that a phase in `[0, ONE)` selects in a table of
/// `size` samples.
pub open spec fn slot_of_phase(phase: u64, size: nat) -> int {
    ((phase as int) * size) / (PHASE_ONE as int)
}

/// The phase at which sample `i` of a table of `size` samples sits.
pub open spec fn phase_of_index(i: nat, size: nat) -> int {
    ((i as int) * (PHASE_ONE as int)) / (size as int)
}

/// A phase below one cycle selects a slot inside the table.
proof fn lemma_slot_in_bounds(phase: u64, size: nat)
    requires
        phase < PHASE_ONE,
        size >= 1,
    ensures
        0 <= slot_of_phase(phase, size) < size,
{
    let p = PHASE_ONE as int;
    lemma_mul_nonnegative(phase as int, size as int);
    lemma_div_is_ordered(0, (phase as int) * size, p);
    let q = ((phase as int) * size) / p;
    lemma_fundamental_div_mod((phase as int) * size, p);
    assert(q < size) by (nonlinear_arith)
        requires
            (phase as int) * size == p * q + ((phase as int) * size) % p,
            0 <= ((phase as int) * size) % p,
            phase < p,
            size >= 1,
            q >= 0,
    ;
}

/// The next word a noise source will produce from a given state.
pub open spec fn draw_spec(state: u64) -> u64 {
    xorshift_output(xorshift_step(state))
}

/// The next unit-interval sample (in `[0, ONE)`) from a given state.
pub open spec fn draw_unit_spec(state: u64) -> int {
    (draw_spec(state) >> 32) as int
}

/// The start phase of partial `n` of the additive pass: zero for the
/// fundamental, one drawn word reduced to a cycle for every later
/// partial.
pub open spec fn partial_phase_spec(state: u64, n: nat) -> int {
    if n == 0 {
        0
    } else {
        (draw_spec(state) % PHASE_ONE) as int
    }
}

/// The amplitude of partial `n`: one for the fundamental, a drawn value
/// in `[0.001, 0.051)` for every later partial (drawn after the phase).
pub open spec fn partial_amp_spec(state: u64, n: nat) -> int {
    if n == 0 {
        ONE as int
    } else {
        clip(fx_mul_spec(draw_unit_spec(xorshift_step(state)), 214748364) + 4294967)
    }
}

/// The noise state after partial `n`'s draws: untouched for the
/// fundamental, advanced twice for every later partial.
pub open spec fn partial_state_spec(state: u64, n: nat) -> u64 {
    if n == 0 {
        state
    } else {
        xorshift_step(xorshift_step(state))
    }
}

/// One buffer slot with partial `n` added at a start phase and amplitude.
pub open spec fn partial_sample_spec(prev: int, i: nat, size: nat, n: nat, sp: int,
    amp: int) -> int {
    let hp = ((phase_of_index(i, size) * (n + 1) + sp) % (PHASE_ONE as int)) as u64;
    clip(prev + fx_mul_spec(sine_q_spec(hp), amp))
}

/// A whole buffer with partial `n` added.
pub open spec fn partial_pass_spec(b: Seq<Sample>, size: nat, n: nat, sp: int, amp: int)
    -> Seq<Sample> {
    Seq::new(b.len(), |i: int| partial_sample_spec(b[i] as int, i as nat, size, n, sp,
        amp) as i64)
}

/// The noise state after the first `h` partials of the additive pass.
pub open spec fn gen_state_spec(state: u64, h: nat) -> u64
    decreases h,
{
    if h == 0 {
        state
    } else {
        partial_state_spec(gen_state_spec(state, (h - 1) as nat), (h - 1) as nat)
    }
}

/// The additive buffer over a silent table of `size` slots after the
/// first `h` partials.
pub open spec fn gen_buffer_spec(state: u64, size: nat, h: nat) -> Seq<Sample>
    decreases h,
{
    if h == 0 {
        Seq::new(size, |i: int| 0i64)
    } else {
        let st = gen_state_spec(state, (h - 1) as nat);
        partial_pass_spec(gen_buffer_spec(state, size, (h - 1) as nat), size,
            (h - 1) as nat, partial_phase_spec(st, (h - 1) as nat), partial_amp_spec(st,
            (h - 1) as nat))
    }
}

/// The additive pass keeps the buffer length.
proof fn lemma_gen_buffer_len(state: u64, size: nat, h: nat)
    ensures
        gen_buffer_spec(state, size, h).len() == size,
    decreases h,
{
    if h >= 1 {
        lemma_gen_buffer_len(state, size, (h - 1) as nat);
    }
}

/// The buffer and noise state after the noise pass has visited the first
/// `k` samples: each visited sample is noise-stepped exactly when its
/// test draw exceeds the probability, spending one draw for the test and
/// one more for the step.
pub open spec fn noise_fold_spec(b: Seq<Sample>, probability: int, state: u64, k: nat)
    -> (Seq<Sample>, u64)
    decreases k,
{
    if k == 0 {
        (b, state)
    } else {
        let prev = noise_fold_spec(b, probability, state, (k - 1) as nat);
        let test = draw_unit_spec(prev.1);
        let s1 = xorshift_step(prev.1);
        if test > probability {
            let u = draw_unit_spec(s1);
            (prev.0.update(k - 1, noise_step_spec(prev.0[k - 1] as int, u) as i64),
                xorshift_step(s1))
        } else {
            (prev.0, s1)
        }
    }
}

/// The noise pass keeps the buffer length.
proof fn lemma_noise_fold_len(b: Seq<Sample>, probability: int, state: u64, k: nat)
    requires
        k <= b.len(),
    ensures
        noise_fold_spec(b, probability, state, k).0.len() == b.len(),
    decreases k,
{
    if k >= 1 {
        lemma_noise_fold_len(b, probability, state, (k - 1) as nat);
        let prev = noise_fold_spec(b, probability, state, (k - 1) as nat);
        let test = draw_unit_spec(prev.1);
        let s1 = xorshift_step(prev.1);
        if test > probability {
            assert(noise_fold_spec(b, probability, state, k).0 == prev.0.update(
                k - 1, noise_step_spec(prev.0[k - 1] as int, draw_unit_spec(
                s1)) as i64));
        } else {
            assert(noise_fold_spec(b, probability, state, k).0 == prev.0);
        }
    }
}

/// A probability of one or more leaves every sample untouched: no unit
/// draw can reach it.
pub proof fn lemma_noise_fold_certain(b: Seq<Sample>, probability: int, state: u64, k: nat)
    requires
        probability >= ONE,
    ensures
        noise_fold_spec(b, probability, state, k).0 == b,
    decreases k,
{
    if k >= 1 {
        lemma_noise_fold_certain(b, probability, state, (k - 1) as nat);
        let prev = noise_fold_spec(b, probability, state, (k - 1) as nat);
        let w = draw_spec(prev.1);
        assert(w >> 32 < 0x100000000u64) by (bit_vector);
    }
}

/// A buffer scaled so its loudest sample has magnitude `ONE`; an all-zero
/// buffer stays as it is.
pub open spec fn norm_seq_spec(b: Seq<Sample>) -> Seq<Sample> {
    if max_abs(b) == 0 {
        b
    } else {
        Seq::new(b.len(), |i: int| norm_spec(b[i] as int, max_abs(b)) as i64)
    }
}

/// One precomputed periodic waveform: a buffer of `size` samples covering
/// exactly one cycle.
pub struct Wavetable {
    pub buffer: Vec<Sample>,
    pub size: usize,
}

impl Wavetable {
    /// The buffer matches the stated size, and is never empty.
    pub open spec fn wf(self) -> bool {
        self.buffer@.len() == self.size && self.size >= 1
    }

    /// An all-silent table. A size that is not a power of two is replaced
    /// by the square of its floored base-two logarithm, as a crude
    /// power-of-two-ish adjustment.
    pub fn new(wavetable_size: usize) -> (r: Wavetable)
        requires
            wavetable_size >= 1,
        ensures
            r.wf(),
            r.size as nat == if is_pow2_spec(wavetable_size as nat) {
                wavetable_size as nat
            } else {
                log2_spec(wavetable_size as nat) * log2_spec(wavetable_size as nat)
            },
            forall|i: int| 0 <= i < r.buffer@.len() ==> r.buffer@[i] == 0,
    {
        let w_size: usize = if !is_power_of_2(wavetable_size) {
            let k = floor_log2(wavetable_size);
            proof {
                assert(k >= 1);
                assert(k * k >= 1 && k * k < 4096) by (nonlinear_arith)
                    requires
                        1 <= k < 64,
                ;
            }
            k * k
        } else {
            wavetable_size
        };
        let mut buffer: Vec<Sample> = Vec::new();
        let mut i: usize = 0;
        while i < w_size
            invariant
                i <= w_size,
                buffer@.len() == i,
                forall|j: int| 0 <= j < i ==> buffer@[j] == 0,
            decreases w_size - i,
        {
            buffer.push(0);
            i = i + 1;
        }
        Wavetable { buffer, size: w_size }
    }

    /// Fills the buffer with one period of the sine — the parabolic
    /// approximation of [`sine_q`], exact at the zero crossings and the
    /// peaks but within a few percent elsewhere, so the timbre is a
    /// touch brighter than a transcendental sine would give.
    pub fn sine(wavetable_size: usize) -> (r: Wavetable)
        requires
            is_pow2_spec(wavetable_size as nat),
        ensures
            r.wf(),
            r.size == wavetable_size,
            forall|i: int| 0 <= i < r.buffer@.len() ==> r.buffer@[i] == sine_q_spec(
                phase_of_index(i as nat, wavetable_size as nat) as u64),
    {
        let mut wt = Wavetable::new(wavetable_size);
        let size = wt.size;
        let mut i: usize = 0;
        while i < size
            invariant
                wt.wf(),
                wt.size == size,
                size == wavetable_size,
                i <= size,
                forall|j: int| 0 <= j < i ==> wt.buffer@[j] == sine_q_spec(phase_of_index(
                    j as nat, size as nat) as u64),
            decreases size - i,
        {
            let ph = index_phase(i, size);
            let s = sine_q(ph);
            wt.buffer[i] = s;
            i = i + 1;
        }
        wt
    }

    /// Additive synthesis: `num_harmonics` partials, the fundamental at
    /// full amplitude and phase zero, every later partial at a small
    /// random amplitude and random phase; then sparse random noise, then
    /// peak normalization. The result is exactly the normalization of the
    /// noise fold over the generated partial sum, all deterministic in
    /// the carried noise state; unless every sample of that sum is exact
    /// zero, the loudest sample of the result is exactly `ONE`.
    pub fn multi_sine(wavetable_size: usize, num_harmonics: usize, rng: &mut NoiseSource) -> (
        r: Wavetable)
        requires
            is_pow2_spec(wavetable_size as nat),
        ensures
            r.wf(),
            r.size == wavetable_size,
            ({
                let generated = gen_buffer_spec(old(rng).state, wavetable_size as nat,
                    num_harmonics as nat);
                let gstate = gen_state_spec(old(rng).state, num_harmonics as nat);
                let noised = noise_fold_spec(generated, 4080218931, gstate,
                    wavetable_size as nat);
                &&& r.buffer@ == norm_seq_spec(noised.0)
                &&& final(rng).state == noised.1
            }),
            max_abs(r.buffer@) == ONE || max_abs(r.buffer@) == 0,
    {
        let mut wt = Wavetable::new(wavetable_size);
        let size = wt.size;
        let ghost st0 = rng.state;
        proof {
            assert(wt.buffer@ =~= Seq::new(size as nat, |i: int| 0i64));
        }
        let mut n: usize = 0;
        while n < num_harmonics
            invariant
                wt.wf(),
                wt.size == size,
                size == wavetable_size,
                n <= num_harmonics,
                wt.buffer@ == gen_buffer_spec(st0, size as nat, n as nat),
                rng.state == gen_state_spec(st0, n as nat),
            decreases num_harmonics - n,
        {
            let ghost stn = rng.state;
            let ghost prev = wt.buffer@;
            let start_phase: u64 = if n == 0 {
                0
            } else {
                rng.next_u64() % PHASE_ONE
            };
            let harmonic_amp: Sample = if n == 0 {
                ONE
            } else {
                // a random amplitude in [0.001, 0.051)
                sat_add(fx_mul(rng.next_unit(), 214748364), 4294967)
            };
            proof {
                assert(start_phase as int == partial_phase_spec(stn, n as nat));
                assert(harmonic_amp as int == partial_amp_spec(stn, n as nat));
                assert(rng.state == partial_state_spec(stn, n as nat));
            }
            let mut i: usize = 0;
            while i < size
                invariant
                    wt.wf(),
                    wt.size == size,
                    i <= size,
                    prev.len() == size,
                    start_phase as int == partial_phase_spec(stn, n as nat),
                    harmonic_amp as int == partial_amp_spec(stn, n as nat),
                    rng.state == partial_state_spec(stn, n as nat),
                    forall|j: int| 0 <= j < i ==> wt.buffer@[j] == partial_sample_spec(
                        prev[j] as int, j as nat, size as nat, n as nat,
                        start_phase as int, harmonic_amp as int),
                    forall|j: int| i <= j < size ==> wt.buffer@[j] == prev[j],
                decreases size - i,
            {
                let base = index_phase(i, size);
                proof {
                    assert((base as int) * ((n as int) + 1) <= 0x100000000
                        * 0x10000000000000000) by (nonlinear_arith)
                        requires
                            0 <= base as int <= 0x100000000,
                            0 <= (n as int) + 1 <= 0x10000000000000000,
                    ;
                }
                let hp: u64 = (((base as u128) * ((n as u128) + 1) + (start_phase as u128))
                    % (PHASE_ONE as u128)) as u64;
                let s = sine_q(hp);
                let cur = wt.buffer[i];
                wt.buffer[i] = sat_add(cur, fx_mul(s, harmonic_amp));
                i = i + 1;
            }
            proof {
                assert(wt.buffer@ =~= partial_pass_spec(prev, size as nat, n as nat,
                    start_phase as int, harmonic_amp as int));
                assert(wt.buffer@ == gen_buffer_spec(st0, size as nat, (n + 1) as nat));
            }
            n = n + 1;
        }
        // noise injection threshold of 0.95
        wt.add_noise(4080218931, rng);
        proof {
            lemma_max_abs_nonneg(wt.buffer@);
        }
        wt.normalize();
        wt
    }

    /// With probability one minus `probability` per sample, adds a random
    /// offset in `[-0.5, 0.5)` and folds the result back across the
    /// `[-1, 1]` edges: the result and the noise state are exactly the
    /// noise fold of the carried state over the buffer. Sample `i` is
    /// perturbed precisely when its test draw exceeds the probability; a
    /// probability of one or more therefore touches nothing.
    pub fn add_noise(&mut self, probability: Sample, rng: &mut NoiseSource)
        requires
            old(self).wf(),
        ensures
            final(self).wf(),
            final(self).size == old(self).size,
            final(self).buffer@.len() == old(self).buffer@.len(),
            final(self).buffer@ == noise_fold_spec(old(self).buffer@, probability as int,
                old(rng).state, old(self).buffer@.len() as nat).0,
            final(rng).state == noise_fold_spec(old(self).buffer@, probability as int,
                old(rng).state, old(self).buffer@.len() as nat).1,
            probability >= ONE ==> final(self).buffer@ == old(self).buffer@,
    {
        proof {
            if probability >= ONE {
                lemma_noise_fold_certain(old(self).buffer@, probability as int,
                    old(rng).state, old(self).buffer@.len() as nat);
            }
        }
        let len = self.buffer.len();
        let mut i: usize = 0;
        while i < len
            invariant
                self.wf(),
                self.size == old(self).size,
                self.buffer@.len() == old(self).buffer@.len(),
                len == self.buffer@.len(),
                i <= len,
                self.buffer@ == noise_fold_spec(old(self).buffer@, probability as int,
                    old(rng).state, i as nat).0,
                rng.state == noise_fold_spec(old(self).buffer@, probability as int,
                    old(rng).state, i as nat).1,
            decreases len - i,
        {
            let ghost pre = noise_fold_spec(old(self).buffer@, probability as int,
                old(rng).state, i as nat);
            proof {
                lemma_noise_fold_len(old(self).buffer@, probability as int,
                    old(rng).state, i as nat);
            }
            let draw = rng.next_unit();
            if draw > probability {
                let u = rng.next_unit();
                let ghost prev = self.buffer@[i as int];
                let mut s = sat_add(self.buffer[i], sat_sub_half(u));
                if s > ONE {
                    s = s - ONE;
                } else if s < -ONE {
                    s = s + ONE;
                }
                self.buffer[i] = s;
                proof {
                    assert(self.buffer@[i as int] == noise_step_spec(prev as int,
                        u as int));
                    assert(self.buffer@ == pre.0.update(i as int, noise_step_spec(
                        pre.0[i as int] as int, draw_unit_spec(xorshift_step(
                        pre.1))) as i64));
                }
            }
            i = i + 1;
        }
    }

    /// Scales the buffer so that its loudest sample has magnitude exactly
    /// `ONE`. An all-zero buffer (which nothing can scale) is left as it
    /// is.
    pub fn normalize(&mut self)
        requires
            old(self).wf(),
        ensures
            final(self).wf(),
            final(self).size == old(self).size,
            final(self).buffer@.len() == old(self).buffer@.len(),
            max_abs(old(self).buffer@) == 0 ==> final(self).buffer@ == old(self).buffer@,
            max_abs(old(self).buffer@) != 0 ==> forall|i: int|
                0 <= i < final(self).buffer@.len() ==> final(self).buffer@[i]
                == norm_spec(old(self).buffer@[i] as int, max_abs(old(self).buffer@)),
            max_abs(old(self).buffer@) != 0 ==> max_abs(final(self).buffer@) == ONE,
            final(self).buffer@ == norm_seq_spec(old(self).buffer@),
    {
        let len = self.buffer.len();
        // Find the loudest magnitude and where it sits.
        let mut peak: u64 = 0;
        let mut peak_at: usize = 0;
        let mut i: usize = 0;
        while i < len
            invariant
                self.wf(),
                len == self.buffer@.len(),
                i <= len,
                peak == max_abs(self.buffer@.subrange(0, i as int)),
                peak != 0 ==> peak_at < i && abs_val(self.buffer@[peak_at as int] as int)
                    == peak,
            decreases len - i,
        {
            let a = abs_u64(self.buffer[i]);
            proof {
                assert(self.buffer@.subrange(0, i + 1).drop_last() =~= self.buffer@.subrange(
                    0, i as int));
                assert(self.buffer@.subrange(0, i + 1).last() == self.buffer@[i as int]);
            }
            if a > peak {
                peak = a;
                peak_at = i;
            }
            i = i + 1;
        }
        proof {
            assert(self.buffer@.subrange(0, len as int) =~= self.buffer@);
        }
        if peak == 0 {
            return ;
        }
        // Scale every sample by ONE / peak.
        let ghost orig = self.buffer@;
        let ghost gpeak = max_abs(orig);
        let mut j: usize = 0;
        while j < len
            invariant
                self.wf(),
                self.size == old(self).size,
                len == self.buffer@.len(),
                orig.len() == len,
                j <= len,
                peak == gpeak,
                gpeak == max_abs(orig),
                peak != 0,
                peak_at < len,
                abs_val(orig[peak_at as int] as int) == peak,
                forall|k: int| 0 <= k < j ==> self.buffer@[k] == norm_spec(orig[k] as int,
                    gpeak),
                forall|k: int| j <= k < len ==> self.buffer@[k] == orig[k],
            decreases len - j,
        {
            proof {
                lemma_max_abs_ge(orig, j as int);
            }
            let scaled = scale_to_peak(self.buffer[j], peak);
            self.buffer[j] = scaled;
            j = j + 1;
        }
        proof {
            lemma_norm_peak(orig[peak_at as int] as int, gpeak);
            assert(abs_val(self.buffer@[peak_at as int] as int) == ONE);
            lemma_max_abs_ge(self.buffer@, peak_at as int);
            assert forall|k: int| 0 <= k < len implies abs_val(self.buffer@[k] as int)
                <= ONE by {
                lemma_max_abs_ge(orig, k);
                lemma_norm_le_one(orig[k] as int, gpeak);
            }
            lemma_max_abs_le(self.buffer@, ONE as int);
            assert(self.buffer@ =~= norm_seq_spec(orig));
        }
    }

    /// The sample nearest to `phase`, with no interpolation.
    pub fn get(&self, phase: u64) -> (r: Sample)
        requires
            self.wf(),
            phase < PHASE_ONE,
        ensures
            r == self.buffer@[slot_of_phase(phase, self.size as nat)],
    {
        proof {
            lemma_slot_in_bounds(phase, self.size as nat);
        }
        let idx: usize = (((phase as u128) * (self.size as u128))
            / (PHASE_ONE as u128)) as usize;
        self.buffer[idx]
    }

    /// Linear interpolation between the two samples around `phase`; the
    /// sample after the last wraps to the first.
    pub fn get_linear_interp(&self, phase: u64) -> (r: Sample)
        requires
            self.wf(),
            phase < PHASE_ONE,
        ensures
            ({
                let idx = slot_of_phase(phase, self.size as nat);
                let mix = ((phase as int) * (self.size as int)) % (PHASE_ONE as int);
                let nxt = if idx + 1 == self.size { 0int } else { idx + 1 };
                r == clip(fx_mul_spec(self.buffer@[idx] as int, ONE - mix) + fx_mul_spec(
                    self.buffer@[nxt] as int, mix))
            }),
    {
        proof {
            lemma_slot_in_bounds(phase, self.size as nat);
        }
        let prod: u128 = (phase as u128) * (self.size as u128);
        let idx: usize = (prod / (PHASE_ONE as u128)) as usize;
        let mix: i64 = (prod % (PHASE_ONE as u128)) as i64;
        let nxt: usize = if idx + 1 == self.size {
            0
        } else {
            idx + 1
        };
        sat_add(fx_mul(self.buffer[idx], ONE - mix), fx_mul(self.buffer[nxt], mix))
    }
}

/// One sample-level noise step: add `u - 0.5` and fold back across the
/// `[-1, 1]` edges.
pub open spec fn noise_step_spec(s: int, u: int) -> int {
    let moved = clip(s + (u - HALF));
    if moved > ONE {
        moved - ONE
    } else if moved < -ONE {
        moved + ONE
    } else {
        moved
    }
}

/// `u - 0.5` as an exec step.
fn sat_sub_half(u: Sample) -> (r: Sample)
    requires
        0 <= u < ONE,
    ensures
        r == u - HALF,
{
    u - HALF
}

/// A sample scaled so that magnitude `peak` becomes `ONE`: the magnitude
/// is multiplied by `ONE`, divided by `peak` rounding down, and the sign
/// kept.
pub open spec fn norm_spec(s: int, peak: int) -> int
    recommends
        peak > 0,
{
    if s >= 0 {
        (s * ONE) / peak
    } else {
        -(((-s) * ONE) / peak)
    }
}

/// Scaling the peak sample itself lands exactly on magnitude `ONE`.
proof fn lemma_norm_peak(s: int, peak: int)
    requires
        peak > 0,
        abs_val(s) == peak,
    ensures
        abs_val(norm_spec(s, peak)) == ONE,
{
    lemma_div_multiples_vanish(ONE as int, peak);
    assert(peak * ONE == peak * (ONE as int));
}

/// Scaling any sample within the peak stays within magnitude `ONE`.
proof fn lemma_norm_le_one(s: int, peak: int)
    requires
        peak > 0,
        abs_val(s) <= peak,
    ensures
        abs_val(norm_spec(s, peak)) <= ONE,
{
    let a = abs_val(s);
    lemma_mul_nonnegative(a, ONE as int);
    assert(a * ONE <= peak * ONE) by (nonlinear_arith)
        requires
            0 <= a <= peak,
    ;
    lemma_div_is_ordered(0, a * ONE, peak);
    lemma_div_is_ordered(a * ONE, peak * ONE, peak);
    assert((peak * ONE) / peak == ONE) by {
        lemma_div_multiples_vanish(ONE as int, peak);
        assert(peak * ONE == peak * (ONE as int));
    }
}

/// Scales one sample so that magnitude `peak` becomes `ONE`.
fn scale_to_peak(s: Sample, peak: u64) -> (r: Sample)
    requires
        peak > 0,
        abs_val(s as int) <= peak,
    ensures
        r == norm_spec(s as int, peak as int),
{
    proof {
        lemma_norm_le_one(s as int, peak as int);
    }
    if s >= 0 {
        (((s as u128) * (ONE as u128)) / (peak as u128)) as i64
    } else {
        let m: u128 = ((-(s as i128)) as u128) * (ONE as u128) / (peak as u128);
        -(m as i64)
    }
}

/// The phase at which sample `i` of a table of `size` samples sits.
fn index_phase(i: usize, size: usize) -> (r: u64)
    requires
        i < size,
    ensures
        r == phase_of_index(i as nat, size as nat),
        r < PHASE_ONE,
{
    proof {
        let p = PHASE_ONE as int;
        lemma_mul_nonnegative(i as int, p);
        lemma_fundamental_div_mod((i as int) * p, size as int);
        let q = ((i as int) * p) / (size as int);
        lemma_div_is_ordered(0, (i as int) * p, size as int);
        assert(q < p) by (nonlinear_arith)
            requires
                (i as int) * p == (size as int) * q + ((i as int) * p) % (size as int),
                0 <= ((i as int) * p) % (size as int),
                i < size,
                q >= 0,
                p > 0,
        ;
    }
    (((i as u128) * (PHASE_ONE as u128)) / (size as u128)) as u64
}

/// The floor of the base-two logarithm, by repeated halving.
fn floor_log2(n: usize) -> (k: usize)
    requires
        n >= 1,
    ensures
        k == log2_spec(n as nat),
        k < 64,
{
    let mut m: usize = n;
    let mut k: usize = 0;
    proof {
        vstd::arithmetic::power2::lemma2_to64();
        vstd::arithmetic::power2::lemma2_to64_rest();
    }
    while m >= 2
        invariant
            m >= 1,
            log2_spec(n as nat) == k + log2_spec(m as nat),
            (m as nat) * vstd::arithmetic::power2::pow2(k as nat) <= n as nat,
            k < 64,
        decreases m,
    {
        proof {
            let p = vstd::arithmetic::power2::pow2(k as nat);
            vstd::arithmetic::power2::lemma_pow2_pos(k as nat);
            vstd::arithmetic::power2::lemma_pow2_unfold((k + 1) as nat);
            assert(((m / 2) as nat) * vstd::arithmetic::power2::pow2((k + 1) as nat)
                <= (m as nat) * p) by (nonlinear_arith)
                requires
                    vstd::arithmetic::power2::pow2((k + 1) as nat) == 2 * p,
                    m >= 2,
                    p >= 1,
            ;
            vstd::arithmetic::power2::lemma_pow2_pos(k as nat);
            if k + 1 >= 64 {
                vstd::arithmetic::power2::lemma2_to64();
                if k + 1 > 64 {
                    vstd::arithmetic::power2::lemma_pow2_strictly_increases(64, (k + 1) as nat);
                }
                assert(((m / 2) as nat) * vstd::arithmetic::power2::pow2((k + 1) as nat)
                    >= vstd::arithmetic::power2::pow2((k + 1) as nat)) by (nonlinear_arith)
                    requires
                        m / 2 >= 1,
                        vstd::arithmetic::power2::pow2((k + 1) as nat) >= 0,
                ;
                assert(false);
            }
        }
        m = m / 2;
        k = k + 1;
    }
    k
}

/// A fixed-capacity slot store owning every wavetable; access is granted
/// by integer handle. Slots are only appended, never removed, so a handle
/// stays valid for the life of the arena.
pub struct WavetableArena {
    pub wavetables: Vec<Option<Wavetable>>,
    pub next_free_index: usize,
}

impl WavetableArena {
    /// The cursor never passes the capacity, and every stored table is
    /// well formed.
    pub open spec fn wf(self) -> bool {
        &&& self.next_free_index <= self.wavetables@.len()
        &&& forall|i: int| 0 <= i < self.wavetables@.len() ==> (#[trigger] self.wavetables@[i]
            matches Some(w) ==> w.wf())
    }

    /// An empty arena of `ARENA_CAPACITY` slots.
    pub fn new() -> (r: WavetableArena)
        ensures
            r.wf(),
            r.wavetables@.len() == ARENA_CAPACITY,
            r.next_free_index == 0,
            forall|i: int| 0 <= i < r.wavetables@.len() ==> r.wavetables@[i] is None,
    {
        let mut wavetables: Vec<Option<Wavetable>> = Vec::new();
        let mut i: usize = 0;
        while i < ARENA_CAPACITY
            invariant
                i <= ARENA_CAPACITY,
                wavetables@.len() == i,
                forall|j: int| 0 <= j < i ==> wavetables@[j] is None,
            decreases ARENA_CAPACITY - i,
        {
            wavetables.push(None);
            i = i + 1;
        }
        WavetableArena { wavetables, next_free_index: 0 }
    }

    /// The table behind a handle, if the handle is valid and the slot
    /// filled; `None` otherwise, never a panic.
    pub fn get(&self, index: usize) -> (r: Option<&Wavetable>)
        ensures
            match r {
                Some(w) => index < self.wavetables@.len() && self.wavetables@[
                    index as int] == Some(*w),
                None => index >= self.wavetables@.len() || self.wavetables@[
                    index as int] is None,
            },
    {
        if index < self.wavetables.len() {
            self.wavetables[index].as_ref()
        } else {
            None
        }
    }

    /// Stores a wavetable in the next free slot and hands back its
    /// handle; fails only when the arena is exhausted.
    pub fn add(&mut self, wavetable: Wavetable) -> (r: Option<usize>)
        requires
            old(self).wf(),
            wavetable.wf(),
        ensures
            final(self).wf(),
            final(self).wavetables@.len() == old(self).wavetables@.len(),
            match r {
                Some(handle) => {
                    &&& handle == old(self).next_free_index
                    &&& handle < old(self).wavetables@.len()
                    &&& final(self).next_free_index == old(self).next_free_index + 1
                    &&& final(self).wavetables@ == old(self).wavetables@.update(
                        handle as int, Some(wavetable))
                },
                None => {
                    &&& old(self).next_free_index >= old(self).wavetables@.len()
                    &&& *final(self) == *old(self)
                },
            },
    {
        if self.next_free_index < self.wavetables.len() {
            let index = self.next_free_index;
            self.wavetables[index] = Some(wavetable);
            self.next_free_index = index + 1;
            Some(index)
        } else {
            None
        }
    }
}

} // verus!
