use wavetable_synth::sample::{ONE, PHASE_ONE};
use wavetable_synth::wavetable::{
    Wavetable, WavetableArena, is_power_of_2, sine_q, ARENA_CAPACITY,
};
use wavetable_synth::rng::NoiseSource;

#[test]
fn powers_of_two_are_recognised() {
    assert!(!is_power_of_2(0));
    assert!(is_power_of_2(1));
    assert!(is_power_of_2(2));
    assert!(!is_power_of_2(3));
    assert!(is_power_of_2(131072));
    assert!(!is_power_of_2(131071));
    assert!(is_power_of_2(1 << 62));
}

#[test]
fn the_sine_peaks_at_the_quarter_points() {
    assert_eq!(sine_q(0), 0);
    assert_eq!(sine_q(PHASE_ONE / 4), ONE);
    assert_eq!(sine_q(PHASE_ONE / 2), 0);
    assert_eq!(sine_q(PHASE_ONE / 2 + PHASE_ONE / 4), -ONE);
    for p in [1u64, 1234567, PHASE_ONE / 3, PHASE_ONE - 1] {
        let s = sine_q(p);
        assert!(-ONE <= s && s <= ONE);
    }
}

#[test]
fn a_sine_table_reads_its_peak_at_a_quarter_cycle() {
    let wt = Wavetable::sine(1024);
    assert_eq!(wt.size, 1024);
    assert_eq!(wt.get(0), 0);
    assert_eq!(wt.get(PHASE_ONE / 4), ONE);
    // nearest-sample lookup just below one cycle wraps to the last slot
    let last = wt.get(PHASE_ONE - 1);
    assert!(-ONE <= last && last <= 0);
}

#[test]
fn linear_interpolation_splits_the_difference() {
    let mut wt = Wavetable::new(4);
    wt.buffer[0] = 0;
    wt.buffer[1] = ONE;
    wt.buffer[2] = 0;
    wt.buffer[3] = -ONE;
    // halfway between slots 0 and 1
    assert_eq!(wt.get_linear_interp(PHASE_ONE / 8), ONE / 2);
    // exactly on slot 1
    assert_eq!(wt.get_linear_interp(PHASE_ONE / 4), ONE);
}

#[test]
fn a_size_that_is_not_a_power_of_two_is_squashed_to_a_log_square() {
    // floor(log2(100)) = 6, squared: 36
    let wt = Wavetable::new(100);
    assert_eq!(wt.size, 36);
    let wt = Wavetable::new(64);
    assert_eq!(wt.size, 64);
}

#[test]
fn additive_tables_normalise_their_peak_to_one() {
    for seed in [1u64, 7, 42, 12345] {
        let mut rng = NoiseSource::from_seed(seed);
        let wt = Wavetable::multi_sine(1024, 3, &mut rng);
        let peak = wt.buffer.iter().map(|s| s.unsigned_abs()).max().unwrap();
        assert_eq!(peak, ONE as u64);
    }
}

#[test]
fn additive_tables_are_deterministic_in_the_seed() {
    let mut r1 = NoiseSource::from_seed(99);
    let mut r2 = NoiseSource::from_seed(99);
    let a = Wavetable::multi_sine(256, 4, &mut r1);
    let b = Wavetable::multi_sine(256, 4, &mut r2);
    assert_eq!(a.buffer, b.buffer);
    assert_eq!(r1.state, r2.state);
}

#[test]
fn noise_with_a_certain_threshold_leaves_the_table_alone() {
    let mut wt = Wavetable::sine(64);
    let before = wt.buffer.clone();
    let mut rng = NoiseSource::from_seed(5);
    wt.add_noise(ONE, &mut rng);
    assert_eq!(wt.buffer, before);
}

#[test]
fn an_impossible_threshold_perturbs_every_sample_deterministically() {
    let mut wt = Wavetable::sine(64);
    let before = wt.buffer.clone();
    let mut rng = NoiseSource::from_seed(5);
    // every unit draw exceeds a negative threshold
    wt.add_noise(-1, &mut rng);
    assert!(wt.buffer.iter().zip(before.iter()).any(|(a, b)| a != b));
}

#[test]
fn normalising_scales_the_loudest_sample_to_one() {
    let mut wt = Wavetable::new(4);
    wt.buffer[0] = ONE / 5;
    wt.buffer[1] = -(ONE / 2);
    wt.buffer[2] = ONE / 10;
    wt.buffer[3] = 0;
    wt.normalize();
    assert_eq!(wt.buffer[1], -ONE);
    assert_eq!(wt.buffer[0], (ONE / 5) * 2);
    assert_eq!(wt.buffer[3], 0);
}

#[test]
fn normalising_silence_is_a_no_op() {
    let mut wt = Wavetable::new(8);
    wt.normalize();
    assert!(wt.buffer.iter().all(|s| *s == 0));
}

#[test]
fn the_arena_hands_out_handles_until_it_is_full() {
    let mut arena = WavetableArena::new();
    for i in 0..ARENA_CAPACITY {
        let handle = arena.add(Wavetable::sine(16));
        assert_eq!(handle, Some(i));
    }
    assert_eq!(arena.add(Wavetable::sine(16)), None);
    assert!(arena.get(0).is_some());
    assert!(arena.get(ARENA_CAPACITY).is_none());
    assert!(arena.get(usize::MAX).is_none());
}
