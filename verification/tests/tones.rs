use wavetable_synth::sample::{ONE, PHASE_ONE};
use wavetable_synth::tones::{Sine, Metronome, FMSynth};

#[test]
fn a_sine_voice_maps_its_range_onto_amplitude_and_offset() {
    let mut s = Sine::new();
    assert_eq!(s.freq, 220 * ONE);
    s.set_range(-ONE, ONE);
    assert_eq!(s.amp, ONE);
    assert_eq!(s.add, 0);
    s.set_range(0, ONE);
    assert_eq!(s.amp, ONE / 2);
    assert_eq!(s.add, ONE / 2);
}

#[test]
fn a_sine_voice_reads_its_peak_at_a_quarter_cycle() {
    let mut s = Sine::from(100 * ONE, ONE / 4, ONE / 8, PHASE_ONE / 4, 1000);
    // sin(quarter cycle) = 1, scaled by the amplitude plus the offset
    assert_eq!(s.next(), ONE / 4 + ONE / 8);
    // the phase advanced by 100/1000 of a cycle
    assert_eq!(s.phase, PHASE_ONE / 4 + PHASE_ONE / 10);
}

#[test]
fn the_metronome_ticks_and_brightens_at_the_bar() {
    let mut m = Metronome::new(60, 4, 8000);
    assert_eq!(m.tick_duration, 8000);
    assert_eq!(m.synth.freq, 2000 * ONE);
    let mut heard = false;
    for _ in 0..8000 {
        if m.next() != 0 {
            heard = true;
        }
    }
    assert!(heard);
    // the first tick inside the bar dulls the blip
    assert_eq!(m.synth.freq, 1000 * ONE);
    assert_eq!(m.current_tick, 1);
    for _ in 0..24000 {
        m.next();
    }
    // the fourth tick tops the bar and brightens again
    assert_eq!(m.synth.freq, 2000 * ONE);
    assert_eq!(m.current_tick, 0);
}

#[test]
fn the_fm_carrier_stays_within_its_amplitude() {
    let mut fm = FMSynth::new(44100, 220 * ONE, ONE / 2, ONE, ONE, 0);
    for _ in 0..2000 {
        let frame = fm.next_stereo();
        assert_eq!(frame[0], frame[1]);
        assert!(frame[0].abs() <= ONE / 2);
    }
}

#[test]
fn fm_triggers_average_their_frequencies() {
    let mut fm = FMSynth::new(44100, 0, 0, ONE, ONE, 0);
    fm.trigger(440 * ONE, ONE);
    assert_eq!(fm.freq, 440 * ONE);
    assert_eq!(fm.number_of_triggers, 1);
    fm.trigger(220 * ONE, ONE / 2);
    assert_eq!(fm.freq, 330 * ONE);
    assert_eq!(fm.amp, ONE / 2);
    // rendering a sample resets the trigger count
    fm.next_stereo();
    assert_eq!(fm.number_of_triggers, 0);
}

#[test]
fn control_rate_updates_fade_the_amplitude() {
    let mut fm = FMSynth::new(44100, 220 * ONE, ONE, ONE, ONE, 0);
    fm.control_rate_update();
    assert!(fm.amp < ONE);
    assert!(fm.amp > (9 * ONE) / 10);
}
