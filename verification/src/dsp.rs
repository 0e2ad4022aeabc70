//! Utility DSP: circular-buffer delay, linear pan, one-pole low-pass
//! filter, and band-limited random modulation.

use vstd::prelude::*;
use crate::sample::{Sample, ONE, HALF, clip, fx_mul, fx_mul_spec, sat_add, sat_sub, div_int,
    div_int_spec};
use crate::rng::{NoiseSource, xorshift_step, xorshift_output};

verus! {

/// A fixed-size circular buffer delay with independent read and write
/// cursors.
pub struct Delay {
    pub buffer: Vec<Sample>,
    pub write_ptr: usize,
    pub read_ptr: usize,
}

impl Delay {
    /// Both cursors stay inside the buffer, which is never empty.
    pub open spec fn wf(self) -> bool {
        &&& self.buffer@.len() >= 1
        &&& self.write_ptr < self.buffer@.len()
        &&& self.read_ptr < self.buffer@.len()
    }

    /// A silent delay line of `length + 1` slots whose read cursor trails
    /// the write cursor by `delay_samples`; fails exactly when the
    /// requested delay exceeds the buffer length.
    pub fn new(length: usize, delay_samples: usize) -> (r: Result<Delay, String>)
        requires
            length < usize::MAX,
        ensures
            match r {
                Ok(d) => {
                    &&& delay_samples <= length
                    &&& d.wf()
                    &&& d.buffer@.len() == length + 1
                    &&& forall|i: int| 0 <= i < d.buffer@.len() ==> d.buffer@[i] == 0
                    &&& d.write_ptr == 0
                    &&& d.read_ptr == if delay_samples == 0 {
                        0int
                    } else {
                        length + 1 - delay_samples
                    }
                },
                Err(s) => {
                    &&& delay_samples > length
                    &&& s@ == "Delay supplied was longer than the length of the buffer"@
                },
            },
    {
        if delay_samples <= length {
            // one extra slot so that a delay of 0 and of `length` both work
            let len = length + 1;
            let mut buffer: Vec<Sample> = Vec::new();
            let mut i: usize = 0;
            while i < len
                invariant
                    i <= len,
                    buffer@.len() == i,
                    forall|j: int| 0 <= j < i ==> buffer@[j] == 0,
                decreases len - i,
            {
                buffer.push(0);
                i = i + 1;
            }
            let read_ptr = if delay_samples == 0 {
                0
            } else {
                len - delay_samples
            };
            Ok(Delay { buffer, write_ptr: 0, read_ptr })
        } else {
            Err("Delay supplied was longer than the length of the buffer".to_owned())
        }
    }

    /// Repositions the read cursor `delay_samples` behind the write
    /// cursor; silently ignored if the delay does not fit the buffer.
    pub fn set_delay_samples(&mut self, delay_samples: usize)
        requires
            old(self).wf(),
        ensures
            final(self).wf(),
            final(self).buffer@ == old(self).buffer@,
            final(self).write_ptr == old(self).write_ptr,
            final(self).read_ptr == if delay_samples < old(self).buffer@.len() {
                (old(self).write_ptr + old(self).buffer@.len() - delay_samples) % (old(
                self).buffer@.len() as int)
            } else {
                old(self).read_ptr as int
            },
    {
        let len = self.buffer.len();
        if delay_samples < len {
            self.read_ptr = (((self.write_ptr as u128) + (len as u128)
                - (delay_samples as u128)) % (len as u128)) as usize;
        }
    }

    /// Writes the input at the write cursor, reads the output at the read
    /// cursor, and advances both; with a delay of zero the output is the
    /// input of the same call.
    pub fn next(&mut self, input: Sample) -> (r: Sample)
        requires
            old(self).wf(),
        ensures
            final(self).wf(),
            final(self).buffer@ == old(self).buffer@.update(old(self).write_ptr as int,
                input),
            r == final(self).buffer@[old(self).read_ptr as int],
            final(self).write_ptr == (old(self).write_ptr + 1) % (old(
                self).buffer@.len() as int),
            final(self).read_ptr == (old(self).read_ptr + 1) % (old(
                self).buffer@.len() as int),
    {
        let len = self.buffer.len();
        self.buffer[self.write_ptr] = input;
        let output = self.buffer[self.read_ptr];
        self.write_ptr = (self.write_ptr + 1) % len;
        self.read_ptr = (self.read_ptr + 1) % len;
        output
    }
}

/// The two gains of the linear pan law for a pan position in `[-1, 1]`:
/// the left gain falls and the right gain rises with the position.
pub open spec fn pan_gains_spec(pan: int) -> (int, int) {
    (clip(fx_mul_spec(pan, -(HALF as int)) + HALF), clip(fx_mul_spec(pan, HALF as int) + HALF))
}

/// A two-channel linear panner.
pub struct Pan2 {
    pub pan: Sample,
    pub amps: (Sample, Sample),
}

impl Pan2 {
    /// The stored gains match the stored pan position.
    pub open spec fn wf(self) -> bool {
        &&& self.amps.0 == pan_gains_spec(self.pan as int).0
        &&& self.amps.1 == pan_gains_spec(self.pan as int).1
    }

    /// A panner at the given position.
    pub fn new(pan: Sample) -> (r: Pan2)
        ensures
            r.wf(),
            r.pan == pan,
    {
        let l = sat_add(fx_mul(pan, -HALF), HALF);
        let rg = sat_add(fx_mul(pan, HALF), HALF);
        Pan2 { pan, amps: (l, rg) }
    }

    /// Moves the pan position.
    pub fn set_pan(&mut self, pan: Sample)
        ensures
            final(self).wf(),
            final(self).pan == pan,
    {
        self.pan = pan;
        let l = sat_add(fx_mul(pan, -HALF), HALF);
        let rg = sat_add(fx_mul(pan, HALF), HALF);
        self.amps = (l, rg);
    }

    /// One input sample split into the two channel outputs.
    pub fn next(&mut self, input: Sample) -> (r: [Sample; 2])
        ensures
            *final(self) == *old(self),
            r@[0] == fx_mul_spec(input as int, old(self).amps.0 as int),
            r@[1] == fx_mul_spec(input as int, old(self).amps.1 as int),
    {
        [fx_mul(input, self.amps.0), fx_mul(input, self.amps.1)]
    }
}

/// A one-pole low-pass filter.
pub struct LowPassFilter {
    pub last_output: Sample,
    pub alpha: Sample,
}

/// One filter step: the last output weighted by `alpha` plus the input
/// weighted by `1 - alpha`.
pub open spec fn lpf_next_spec(last_output: int, alpha: int, input: int) -> int {
    clip(fx_mul_spec(last_output, alpha) + fx_mul_spec(clip(ONE - alpha), input))
}

impl LowPassFilter {
    /// A filter at rest with the given coefficient.
    pub fn new(alpha: Sample) -> (r: LowPassFilter)
        ensures
            r.last_output == 0,
            r.alpha == alpha,
    {
        LowPassFilter { last_output: 0, alpha }
    }

    /// One sample through the filter.
    pub fn next(&mut self, input: Sample) -> (r: Sample)
        ensures
            r == lpf_next_spec(old(self).last_output as int, old(self).alpha as int,
                input as int),
            final(self).last_output == r,
            final(self).alpha == old(self).alpha,
    {
        let value = sat_add(fx_mul(self.last_output, self.alpha),
            fx_mul(sat_sub(ONE, self.alpha), input));
        self.last_output = value;
        value
    }
}

/// Band-limited random modulation: every `steps_between` samples a new
/// target in `[min, max)` is drawn, and the value ramps linearly toward
/// it in between.
pub struct LFNoise1 {
    pub value: Sample,
    pub target: Sample,
    pub step: Sample,
    pub reset_counter: u64,
    pub steps_between: u64,
    pub min: Sample,
    pub max: Sample,
    pub rng: NoiseSource,
}

/// One modulation step (deterministic in the carried noise state).
pub open spec fn lfnoise_next_spec(n: LFNoise1) -> LFNoise1 {
    if n.reset_counter == 0 {
        let u = (xorshift_output(xorshift_step(n.rng.state)) >> 32) as int;
        let t = clip(fx_mul_spec(u, clip(n.max - n.min)) + n.min);
        let s = div_int_spec(clip(t - n.value), n.steps_between as int);
        LFNoise1 {
            value: clip(n.value + s) as i64,
            target: t as i64,
            step: s as i64,
            reset_counter: n.steps_between,
            steps_between: n.steps_between,
            min: n.min,
            max: n.max,
            rng: NoiseSource { state: xorshift_step(n.rng.state) },
        }
    } else {
        LFNoise1 {
            value: clip(n.value + n.step) as i64,
            target: n.target,
            step: n.step,
            reset_counter: (n.reset_counter - 1) as u64,
            steps_between: n.steps_between,
            min: n.min,
            max: n.max,
            rng: n.rng,
        }
    }
}

impl LFNoise1 {
    /// The ramp is always at least one sample long.
    pub open spec fn wf(self) -> bool {
        self.steps_between >= 1
    }

    /// A modulator that redraws every `time_between` seconds (at least
    /// every sample), ramping between values in `[min, max)`.
    pub fn new(time_between: Sample, min: Sample, max: Sample, sample_rate: u32, seed: u64)
        -> (r: LFNoise1)
        requires
            sample_rate >= 1,
        ensures
            r.wf(),
            r.value == 0,
            r.target == 0,
            r.step == 0,
            r.reset_counter == 0,
            r.min == min,
            r.max == max,
            r.steps_between == if duration_steps(time_between as int,
                sample_rate as int) >= 1 {
                duration_steps(time_between as int, sample_rate as int)
            } else {
                1
            },
    {
        let steps: u64 = if time_between <= 0 {
            0
        } else {
            proof {
                assert((time_between as int) * (sample_rate as int) < 0x8000000000000000
                    * 0x100000000) by (nonlinear_arith)
                    requires
                        0 <= (time_between as int) && (time_between as int)
                            < 0x8000000000000000,
                        0 <= (sample_rate as int) && (sample_rate as int) < 0x100000000,
                ;
            }
            (((time_between as u64 as u128) * (sample_rate as u128))
                / (ONE as u128)) as u64
        };
        LFNoise1 {
            value: 0,
            target: 0,
            step: 0,
            reset_counter: 0,
            steps_between: if steps >= 1 {
                steps
            } else {
                1
            },
            min,
            max,
            rng: NoiseSource::from_seed(seed),
        }
    }

    /// One sample of the modulation.
    pub fn next(&mut self) -> (r: Sample)
        requires
            old(self).wf(),
        ensures
            final(self).wf(),
            *final(self) == lfnoise_next_spec(*old(self)),
            r == final(self).value,
    {
        if self.reset_counter == 0 {
            let u = self.rng.next_unit();
            self.target = sat_add(fx_mul(u, sat_sub(self.max, self.min)), self.min);
            self.step = div_int(sat_sub(self.target, self.value), self.steps_between);
            self.reset_counter = self.steps_between;
        } else {
            self.reset_counter = self.reset_counter - 1;
        }
        self.value = sat_add(self.value, self.step);
        self.value
    }
}

/// A span in seconds (fixed point) converted to whole samples.
pub open spec fn duration_steps(time: int, sample_rate: int) -> int {
    if time <= 0 {
        0
    } else {
        (time * sample_rate) / (ONE as int)
    }
}

/// Two delay lines fed the same input, one per channel, whose delays a
/// pan position controls: panning away from a side delays that side.
pub struct StereoDelay {
    pub delays: Vec<Delay>,
    pub amps: [Sample; 2],
    pub output: [Sample; 2],
    pub sample_rate: usize,
}

impl StereoDelay {
    /// Exactly one delay line per channel, both well formed.
    pub open spec fn wf(self) -> bool {
        &&& self.delays@.len() == 2
        &&& self.delays@[0].wf()
        &&& self.delays@[1].wf()
    }

    /// Two silent delay lines of one second each.
    pub fn new(sample_rate: usize) -> (r: StereoDelay)
        requires
            sample_rate < usize::MAX,
        ensures
            r.wf(),
            r.sample_rate == sample_rate,
            r.delays@[0].buffer@.len() == sample_rate + 1,
            r.delays@[1].buffer@.len() == sample_rate + 1,
    {
        let mut delays: Vec<Delay> = Vec::new();
        let d0 = Delay::new(sample_rate, 0);
        let d1 = Delay::new(sample_rate, 0);
        match (d0, d1) {
            (Ok(a), Ok(b)) => {
                delays.push(a);
                delays.push(b);
            },
            _ => {
                proof {
                    assert(false);
                }
            },
        }
        StereoDelay { delays, amps: [ONE, ONE], output: [0, 0], sample_rate }
    }

    /// Delays the side the pan position points away from by up to five
    /// percent of a second.
    pub fn set_pan(&mut self, pan: Sample)
        requires
            old(self).wf(),
        ensures
            final(self).wf(),
            final(self).sample_rate == old(self).sample_rate,
            final(self).delays@[0].buffer@ == old(self).delays@[0].buffer@,
            final(self).delays@[1].buffer@ == old(self).delays@[1].buffer@,
            final(self).delays@[0].write_ptr == old(self).delays@[0].write_ptr,
            final(self).delays@[1].write_ptr == old(self).delays@[1].write_ptr,
            final(self).delays@[0].read_ptr as int == stereo_read_ptr_spec(
                old(self).delays@[0], stereo_delay_samples_spec(
                old(self).sample_rate as int, fx_mul_spec(pan as int, -214748364))),
            final(self).delays@[1].read_ptr as int == stereo_read_ptr_spec(
                old(self).delays@[1], stereo_delay_samples_spec(
                old(self).sample_rate as int, fx_mul_spec(pan as int, 214748364))),
    {
        let del1 = pos_part(fx_mul(pan, -214748364));
        let del2 = pos_part(fx_mul(pan, 214748364));
        let ds1 = scaled_samples(self.sample_rate, del1);
        let ds2 = scaled_samples(self.sample_rate, del2);
        let d0 = &mut self.delays[0];
        d0.set_delay_samples(ds1);
        let d1 = &mut self.delays[1];
        d1.set_delay_samples(ds2);
    }

    /// One input sample into both lines; the output pair is what each
    /// line plays back.
    pub fn next(&mut self, input: Sample) -> (r: [Sample; 2])
        requires
            old(self).wf(),
        ensures
            final(self).wf(),
            final(self).sample_rate == old(self).sample_rate,
            r@[0] == final(self).delays@[0].buffer@[old(self).delays@[0].read_ptr as int],
            r@[1] == final(self).delays@[1].buffer@[old(self).delays@[1].read_ptr as int],
            final(self).output@[0] == r@[0],
            final(self).output@[1] == r@[1],
    {
        let d0 = &mut self.delays[0];
        let o0 = d0.next(input);
        let d1 = &mut self.delays[1];
        let o1 = d1.next(input);
        self.output = [o0, o1];
        self.output
    }
}

/// How many whole samples of delay a pan-law fraction asks of a sample
/// rate: the fraction's positive part scales the rate, capped at the
/// machine word.
pub open spec fn stereo_delay_samples_spec(sample_rate: int, frac: int) -> int {
    let f = if frac >= 0 {
        frac
    } else {
        0
    };
    let q = (sample_rate * f) / (ONE as int);
    if q > usize::MAX as int {
        usize::MAX as int
    } else {
        q
    }
}

/// Where a delay line's read cursor lands after asking for
/// `delay_samples` of delay: repositioned behind the write cursor if the
/// delay fits the buffer, untouched otherwise.
pub open spec fn stereo_read_ptr_spec(d: Delay, delay_samples: int) -> int {
    if delay_samples < d.buffer@.len() {
        (d.write_ptr + d.buffer@.len() - delay_samples) % (d.buffer@.len() as int)
    } else {
        d.read_ptr as int
    }
}

/// The non-negative part of a sample.
fn pos_part(s: Sample) -> (r: Sample)
    ensures
        r == if s >= 0 { s as int } else { 0 },
{
    if s >= 0 {
        s
    } else {
        0
    }
}

/// A fixed-point fraction of a sample rate, in whole samples, capped at
/// the machine word.
fn scaled_samples(sample_rate: usize, frac: Sample) -> (r: usize)
    requires
        frac >= 0,
    ensures
        r == if ((sample_rate as int) * (frac as int)) / (ONE as int)
            > usize::MAX as int {
            usize::MAX as int
        } else {
            ((sample_rate as int) * (frac as int)) / (ONE as int)
        },
{
    proof {
        let top: int = 0xFFFFFFFFFFFFFFFF;
        let half: int = 0x8000000000000000;
        assert((sample_rate as int) * (frac as int) <= top * half) by (nonlinear_arith)
            requires
                0 <= (sample_rate as int) && (sample_rate as int) <= top,
                0 <= (frac as int) && (frac as int) <= half,
        ;
        let p = (sample_rate as int) * (frac as int);
        vstd::arithmetic::div_mod::lemma_div_is_ordered(0, p, ONE as int);
    }
    let q: u128 = ((sample_rate as u128) * (frac as u64 as u128)) / (ONE as u128);
    if q > (usize::MAX as u128) {
        usize::MAX
    } else {
        q as usize
    }
}

} // verus!
