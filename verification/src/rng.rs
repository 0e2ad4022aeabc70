//! A deterministic pseudo-random source.
//!
//! Wavetable generation, voice stealing and pan modulation consume random
//! numbers. The generator is threaded explicitly as a value (an xorshift64*
//! state) rather than read from a process-wide source, so construction is
//! reproducible given a seed; fresh entropy for a seed comes from the one
//! trusted call into the `rand` crate.

use vstd::prelude::*;

verus! {

/// The xorshift64* state transition. Opaque: callers reason about states
/// by congruence, not by the bit pattern.
#[verifier::opaque]
pub open spec fn xorshift_step(x: u64) -> u64 {
    let a = x ^ (x >> 12);
    let b = a ^ (a << 25);
    b ^ (b >> 27)
}

/// The xorshift64* output for a given state: the state times an odd
/// constant, wrapped to 64 bits. Opaque like the step.
#[verifier::opaque]
pub open spec fn xorshift_output(x: u64) -> u64 {
    (((x as int) * 0x2545F4914F6CDD1D) % 0x10000000000000000) as u64
}

/// A deterministic pseudo-random source (xorshift64*), owned by each
/// component that consumes randomness.
pub struct NoiseSource {
    pub state: u64,
}

impl NoiseSource {
    /// A source seeded with the given value; a zero seed is replaced by a
    /// fixed odd constant so the all-zero fixed point is never the start.
    pub fn from_seed(seed: u64) -> (r: NoiseSource)
        ensures
            r.state == if seed == 0 { 0x9E3779B97F4A7C15u64 } else { seed },
    {
        NoiseSource { state: if seed == 0 { 0x9E3779B97F4A7C15 } else { seed } }
    }

    /// Advances the state once and returns the next word.
    pub fn next_u64(&mut self) -> (r: u64)
        ensures
            final(self).state == xorshift_step(old(self).state),
            r == xorshift_output(xorshift_step(old(self).state)),
    {
        proof {
            reveal(xorshift_step);
            reveal(xorshift_output);
        }
        let mut x = self.state;
        x = x ^ (x >> 12);
        x = x ^ (x << 25);
        x = x ^ (x >> 27);
        self.state = x;
        let p: u128 = (x as u128) * 0x2545F4914F6CDD1Du128;
        (p % 0x10000000000000000u128) as u64
    }

    /// The next sample-valued draw, uniform over `[0, ONE)`: the top 32
    /// bits of the next word.
    pub fn next_unit(&mut self) -> (r: crate::sample::Sample)
        ensures
            final(self).state == xorshift_step(old(self).state),
            r == xorshift_output(xorshift_step(old(self).state)) >> 32,
            0 <= r < crate::sample::ONE,
    {
        let w = self.next_u64();
        proof {
            assert((w >> 32) < 0x100000000) by (bit_vector);
        }
        (w >> 32) as i64
    }
}

/// Relies on `rand::random`: draws one machine-entropy word to seed a
/// `NoiseSource`. Nothing is promised of the value.
#[verifier::external_body]
pub(crate) fn entropy_seed() -> u64 {
    rand::random::<u64>()
}

} // verus!
