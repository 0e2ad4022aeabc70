//! A real-time wavetable audio synthesis engine.
//!
//! A bank of precomputed periodic waveforms (wavetables, held in a
//! fixed-capacity arena and addressed by integer handles) feeds a graph of
//! oscillator/envelope voices that mix into a stereo output stream, one
//! sample per call. Trigger commands (frequency, amplitude, decay time)
//! write into pre-allocated voice slots, so the audio-rate path never
//! allocates.
//!
//! All audio-rate arithmetic is Q32.32 fixed point: a [`sample::Sample`] is an
//! `i64` holding `value * 2^32`. Fixed point keeps every operation exact and
//! total (saturating at the `i64` range), so each state transition has a
//! precise contract.

pub mod dsp;
pub mod engine;
pub mod envelope;
pub mod groups;
pub mod oscillator;
pub mod pitch;
pub mod power;
pub mod rng;
pub mod sample;
pub mod score;
pub mod tones;
pub mod wavetable;

pub use sample::Sample;
