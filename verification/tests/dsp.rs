use wavetable_synth::sample::{sat_add, sat_sub, fx_mul, sat_mul_int, div_int, ONE, HALF};
use wavetable_synth::dsp::{Delay, Pan2, LowPassFilter, LFNoise1, StereoDelay};

#[test]
fn saturating_add_clamps_at_the_rails() {
    assert_eq!(sat_add(i64::MAX, 1), i64::MAX);
    assert_eq!(sat_add(i64::MIN, -1), i64::MIN);
    assert_eq!(sat_add(2 * ONE, 3 * ONE), 5 * ONE);
    assert_eq!(sat_sub(i64::MIN, 1), i64::MIN);
    assert_eq!(sat_sub(i64::MIN, -1), i64::MIN + 1);
}

#[test]
fn fixed_point_products_are_exact() {
    assert_eq!(fx_mul(HALF, HALF), ONE / 4);
    assert_eq!(fx_mul(-HALF, HALF), -(ONE / 4));
    assert_eq!(fx_mul(ONE, 12345), 12345);
    assert_eq!(fx_mul(0, i64::MAX), 0);
    assert_eq!(sat_mul_int(ONE, 3), 3 * ONE);
    assert_eq!(sat_mul_int(i64::MAX, 2), i64::MAX);
    assert_eq!(div_int(10 * ONE, 4), (10 * ONE) / 4);
    assert_eq!(div_int(-10 * ONE, 4), -((10 * ONE) / 4));
}

#[test]
fn delay_round_trip() {
    let mut delay = Delay::new(20, 1).unwrap();
    for i in 1..16i64 {
        assert_eq!(delay.next(i * ONE), (i - 1) * ONE);
    }
    delay.set_delay_samples(0);
    // When the delay is 0 the input and output should be the same.
    assert_eq!(delay.next(100 * ONE), 100 * ONE);
}

#[test]
fn delay_rejects_a_delay_longer_than_the_buffer() {
    let r = Delay::new(5, 6);
    match r {
        Ok(_) => panic!("a delay longer than the buffer must be rejected"),
        Err(msg) => assert_eq!(msg, "Delay supplied was longer than the length of the buffer"),
    }
}

#[test]
fn delay_of_zero_passes_through_from_construction() {
    let mut delay = Delay::new(8, 0).unwrap();
    assert_eq!(delay.next(7 * ONE), 7 * ONE);
    assert_eq!(delay.next(-3 * ONE), -3 * ONE);
}

#[test]
fn pan_hard_left_and_right() {
    let mut centre = Pan2::new(0);
    let frame = centre.next(ONE);
    assert_eq!(frame, [HALF, HALF]);

    let mut left = Pan2::new(-ONE);
    let frame = left.next(ONE);
    assert_eq!(frame, [ONE, 0]);

    let mut right = Pan2::new(ONE);
    let frame = right.next(ONE);
    assert_eq!(frame, [0, ONE]);
}

#[test]
fn low_pass_filter_mixes_by_alpha() {
    let mut lpf = LowPassFilter::new(HALF);
    // 0 * 0.5 + 1.0 * 0.5
    assert_eq!(lpf.next(ONE), HALF);
    // 0.5 * 0.5 + 1.0 * 0.5
    assert_eq!(lpf.next(ONE), ONE / 4 + HALF);
}

#[test]
fn lfnoise_stays_deterministic_for_a_seed() {
    let mut a = LFNoise1::new(ONE, -ONE, ONE, 10, 99);
    let mut b = LFNoise1::new(ONE, -ONE, ONE, 10, 99);
    for _ in 0..50 {
        assert_eq!(a.next(), b.next());
    }
}

#[test]
fn stereo_delay_passes_through_before_a_pan_is_set() {
    let mut sd = StereoDelay::new(100);
    let frame = sd.next(5 * ONE);
    assert_eq!(frame, [5 * ONE, 5 * ONE]);
}

#[test]
fn panning_right_delays_the_right_channel() {
    let mut sd = StereoDelay::new(100);
    // five percent of a hundred-sample rate, rounded down: four samples
    sd.set_pan(ONE);
    let first = sd.next(ONE);
    assert_eq!(first, [ONE, 0]);
    for _ in 0..3 {
        let frame = sd.next(0);
        assert_eq!(frame[1], 0);
    }
    let frame = sd.next(0);
    assert_eq!(frame[1], ONE);
}
