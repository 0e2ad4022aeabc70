use wavetable_synth::sample::{ONE, PHASE_ONE};
use wavetable_synth::engine::SynthesisEngine;
use wavetable_synth::groups::{SynthesisGroup, TextureGroup, BassSynthesis, tanh_fx};
use wavetable_synth::wavetable::{Wavetable, WavetableArena};
use wavetable_synth::oscillator::{Oscillator, TriggeredOscillator};

const SR: u32 = 44100;

fn small_arena() -> (WavetableArena, usize) {
    let mut arena = WavetableArena::new();
    let handle = arena.add(Wavetable::sine(1024)).unwrap();
    (arena, handle)
}

#[test]
fn oscillator_phase_stays_inside_one_cycle() {
    let (arena, wt) = small_arena();
    // a step far above the sample rate exercises the wrap hard
    let mut osc = Oscillator::from_freq(wt, 10, 19999 * ONE, ONE);
    for _ in 0..1000 {
        osc.next(&arena);
        assert!(osc.phase < PHASE_ONE);
    }
}

#[test]
fn a_triggered_voice_rings_and_dies_away() {
    let (arena, wt) = small_arena();
    let mut voice = TriggeredOscillator::from_freq(wt, SR, 441 * ONE, ONE);
    assert_eq!(voice.next(&arena), 0);
    voice.trigger(ONE, ONE / 10);
    let mut heard_something = false;
    for _ in 0..8000 {
        if voice.next(&arena) != 0 {
            heard_something = true;
        }
    }
    assert!(heard_something);
    // after its decay duration the envelope has fallen to near silence
    assert!(voice.env.value <= ONE / 1000);
}

#[test]
fn voice_stealing_wraps_around_the_pool() {
    let (arena, wt) = small_arena();
    let mut group = SynthesisGroup::new(wt, 100 * ONE, 300 * ONE, SR, 4);
    assert!(group.contains_freq(200 * ONE));
    assert!(!group.contains_freq(301 * ONE));
    for k in 0..4 {
        assert_eq!(group.next_oscillator, k);
        group.trigger_oscillator(200 * ONE, ONE / 2, ONE);
    }
    // the fifth trigger reuses voice zero
    assert_eq!(group.next_oscillator, 0);
    group.trigger_oscillator(150 * ONE, ONE / 4, ONE);
    assert_eq!(group.oscillators[0].env.target_value, ONE / 4);
    assert_eq!(group.next_oscillator, 1);
    let _ = group.next(&arena);
}

#[test]
fn texture_voices_are_addressed_modulo_the_pool() {
    let (arena, wt) = small_arena();
    let mut texture = TextureGroup::new(wt, 200 * ONE, 4299161607, SR, 8);
    // 0.125 split across the pool, and voice zero tuned to the base pitch
    for v in texture.oscillators.iter() {
        assert_eq!(v.oscillator.amp, 536870912 / 8);
    }
    assert_eq!(texture.oscillators[0].oscillator.step, (200 * ONE as u64) / SR as u64);
    texture.trigger_oscillator(8 + 3, ONE / 2, ONE);
    assert_eq!(texture.oscillators[3].env.target_value, ONE / 2);
    let out = texture.next(&arena);
    assert!(-ONE <= out && out <= ONE);
}

#[test]
fn the_soft_clip_is_exact_at_zero_and_saturates_at_three() {
    assert_eq!(tanh_fx(0), 0);
    assert_eq!(tanh_fx(3 * ONE), ONE);
    assert_eq!(tanh_fx(-3 * ONE), -ONE);
    assert_eq!(tanh_fx(i64::MAX), ONE);
    for z in [ONE / 2, ONE, 2 * ONE] {
        let t = tanh_fx(z);
        assert!(0 < t && t < ONE);
        assert_eq!(tanh_fx(-z), -t);
    }
}

#[test]
fn bass_voices_stack_odd_harmonics() {
    let (arena, wt) = small_arena();
    let mut bass = BassSynthesis::new(wt, 50 * ONE, SR, 4, 7);
    for (i, v) in bass.oscillators.iter().enumerate() {
        let harmonic = 50u64 * (ONE as u64) * (2 * i as u64 + 1);
        assert_eq!(v.oscillator.step, harmonic / SR as u64);
        // 0.05 split across the stack
        assert_eq!(v.oscillator.amp, 214748364 / (i as i64 + 1));
    }
    bass.trigger(ONE / 2, ONE, 0);
    assert!(bass.next_oscillator < 4);
    let _ = bass.next(&arena);
}

#[test]
fn a_fresh_engine_renders_silence() {
    let mut engine = SynthesisEngine::new_with_seed(SR, 42);
    for _ in 0..32 {
        assert_eq!(engine.next(), [0, 0]);
    }
}

#[test]
fn engine_topology_matches_the_fixed_program() {
    let engine = SynthesisEngine::new_with_seed(SR, 1);
    assert_eq!(engine.num_textures(), 3);
    assert_eq!(engine.num_single_pitches(), 32);
    assert_eq!(engine.synthesis_groups.len(), 5);
    assert_eq!(engine.bass_synthesis.oscillators.len(), 16);
}

#[test]
fn triggering_a_frequency_only_touches_its_band() {
    let mut engine = SynthesisEngine::new_with_seed(SR, 3);
    // 150 Hz lies in the first band (100-300) and in no other
    engine.trigger_oscillator(150 * ONE, ONE / 2, ONE);
    assert_eq!(engine.synthesis_groups[0].oscillators[0].env.target_value, ONE / 2);
    assert_eq!(engine.synthesis_groups[0].next_oscillator, 1);
    for g in 1..5 {
        assert_eq!(engine.synthesis_groups[g].next_oscillator, 0);
        for v in engine.synthesis_groups[g].oscillators.iter() {
            assert_eq!(v.env.target_value, 0);
        }
    }
}

#[test]
fn a_frequency_outside_every_band_is_dropped() {
    let mut engine = SynthesisEngine::new_with_seed(SR, 3);
    engine.trigger_oscillator(50 * ONE, ONE / 2, ONE);
    for g in 0..5 {
        assert_eq!(engine.synthesis_groups[g].next_oscillator, 0);
    }
    assert_eq!(engine.next(), [0, 0]);
}

#[test]
fn overlapping_bands_route_to_the_first_match() {
    let mut engine = SynthesisEngine::new_with_seed(SR, 3);
    // 250 Hz lies in band 0 (100-300) and band 3 (200-10000): band 0 wins
    engine.trigger_oscillator(250 * ONE, ONE / 2, ONE);
    assert_eq!(engine.synthesis_groups[0].next_oscillator, 1);
    assert_eq!(engine.synthesis_groups[3].next_oscillator, 0);
    // 15000 Hz lies only in band 4 (1000-20000)
    engine.trigger_oscillator(15000 * ONE, ONE / 2, ONE);
    assert_eq!(engine.synthesis_groups[4].next_oscillator, 1);
}

#[test]
fn a_trigger_makes_the_engine_audible() {
    let mut engine = SynthesisEngine::new_with_seed(SR, 9);
    engine.trigger_oscillator(200 * ONE, ONE / 2, ONE);
    let mut heard = false;
    for _ in 0..200 {
        let frame = engine.next();
        if frame[0] != 0 || frame[1] != 0 {
            heard = true;
        }
    }
    assert!(heard);
}

#[test]
fn texture_and_bass_triggers_and_pitch_energy_are_absorbed() {
    let mut engine = SynthesisEngine::new_with_seed(SR, 11);
    engine.trigger_texture(7, 500, ONE / 4, ONE);
    engine.trigger_bass(ONE / 4, ONE, 0);
    engine.add_energy_to_pitch(31, ONE);
    assert!(engine.single_pitches[31].target_amp > 0);
    let _ = engine.next();
}
