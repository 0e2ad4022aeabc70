use wavetable_synth::score::Score;
use wavetable_synth::pitch::SinglePitch;
use wavetable_synth::sample::ONE;

#[test]
fn the_program_has_twenty_four_movements() {
    let score = Score::new();
    assert_eq!(score.movements.len(), 24);
    assert!(!score.is_playing);
    assert_eq!(score.current_movement, 0);
    assert_eq!(score.movements[0].id, 0);
    assert_eq!(score.movements[0].description, "direct,categories");
    assert_eq!(score.movements[0].duration_ms, 240_000);
    assert_eq!(score.movements[1].id, 1);
    assert!(score.movements[1].is_break);
    assert_eq!(score.movements[2].id, 100);
    assert!(score.movements[2].is_interlude);
    assert_eq!(score.movements[23].id, 1000);
}

#[test]
fn the_program_lasts_forty_minutes_and_a_quarter() {
    let score = Score::new();
    assert_eq!(score.total_duration(), 2_415_000);
}

#[test]
fn playback_advances_when_a_movement_has_elapsed() {
    let mut score = Score::new();
    score.play_from(0, 1_000);
    assert!(score.is_playing);
    // one millisecond short of the first movement's end
    assert_eq!(score.update(240_999), None);
    assert_eq!(score.current_movement, 0);
    // the end itself begins the break
    assert_eq!(score.update(241_000), Some(1));
    assert_eq!(score.current_movement, 1);
    assert_eq!(score.start_of_last_movement, 241_000);
}

#[test]
fn time_before_the_movement_started_counts_as_nothing_elapsed() {
    let mut score = Score::new();
    score.play_from(0, 10_000);
    assert_eq!(score.update(5_000), None);
    assert!(score.is_playing);
    assert_eq!(score.current_movement, 0);
}

#[test]
fn playback_stops_after_the_final_movement() {
    let mut score = Score::new();
    score.play_from(23, 0);
    assert_eq!(score.update(30_000), None);
    assert!(!score.is_playing);
    assert_eq!(score.current_movement, 0);
}

#[test]
fn playback_data_reports_the_current_and_next_movement() {
    let mut score = Score::new();
    let idle = score.score_playback_data(500);
    assert!(!idle.playing);
    assert_eq!(idle.current_timestamp_for_mvt, 0);
    assert!(idle.current_mvt.is_none());
    assert_eq!(idle.next_mvt.unwrap().id, 0);

    score.play_from(4, 1_000);
    let data = score.score_playback_data(2_500);
    assert!(data.playing);
    assert_eq!(data.current_index, 4);
    assert_eq!(data.max_index, 24);
    assert_eq!(data.current_timestamp_for_mvt, 1_500);
    assert_eq!(data.current_mvt.unwrap().id, 2);
    assert_eq!(data.next_mvt.unwrap().id, 3);
}

#[test]
fn energy_raises_the_target_and_spends_sensitivity() {
    let mut pitch = SinglePitch::new(220 * ONE, 0, 44100, 5 * ONE, 0, 17);
    assert_eq!(pitch.target_amp, 0);
    assert_eq!(pitch.sensitivity, ONE);
    pitch.add_energy(ONE);
    // 0.005 of full energy at full sensitivity
    assert_eq!(pitch.target_amp, 21474836);
    assert_eq!(pitch.sensitivity, ONE - 8589934);
    // flooding with energy pins the target at the 0.1 ceiling
    for _ in 0..100 {
        pitch.add_energy(10 * ONE);
    }
    assert_eq!(pitch.target_amp, ONE / 10);
    assert_eq!(pitch.sensitivity, 0);
}

#[test]
fn a_silent_pitch_outputs_nothing_and_a_fed_pitch_speaks() {
    let mut arena = wavetable_synth::wavetable::WavetableArena::new();
    let wt = arena.add(wavetable_synth::wavetable::Wavetable::sine(1024)).unwrap();
    let mut pitch = SinglePitch::new(220 * ONE, wt, 44100, 5 * ONE, 0, 17);
    for _ in 0..100 {
        assert_eq!(pitch.next(&arena), [0, 0]);
    }
    pitch.add_energy(100 * ONE);
    let mut heard = false;
    for _ in 0..2000 {
        let frame = pitch.next(&arena);
        if frame[0] != 0 || frame[1] != 0 {
            heard = true;
        }
    }
    assert!(heard);
}
