use wavetable_synth::envelope::ExponentialDecay;
use wavetable_synth::sample::ONE;
use wavetable_synth::power::{decay_scaler, pow_up, fx_pow, fx_root, MILLI};

#[test]
fn envelope_attack_reaches_the_target_in_two_milliseconds() {
    // at 1000 Hz the attack is two samples long
    let mut env = ExponentialDecay::new(ONE, 1000);
    env.trigger(ONE);
    let first = env.next();
    assert!(first > 0 && first < ONE);
    let second = env.next();
    assert_eq!(second, ONE);
}

#[test]
fn envelope_decay_is_non_increasing_and_reaches_minus_sixty_db() {
    // one tenth of a second at 1000 Hz: one hundred decay samples
    let mut env = ExponentialDecay::new(ONE / 10, 1000);
    env.trigger(ONE);
    // run the attack to completion (two samples at this rate)
    env.next();
    env.next();
    let start = env.value;
    let mut last = start;
    for _ in 0..100 {
        let v = env.next();
        assert!(v <= last);
        last = v;
    }
    assert!(last <= start / 1000);
}

#[test]
fn the_attack_never_stalls_on_a_tiny_delta() {
    // a delta far below one quantum per attack sample still completes
    let mut env = ExponentialDecay::new(ONE, 44100);
    env.trigger(50);
    let mut steps = 0;
    while env.target_value > env.value {
        env.next();
        steps += 1;
        assert!(steps <= 88);
    }
    assert_eq!(env.target_value, 0);
}

#[test]
fn the_attack_spans_at_most_its_fixed_length() {
    // 175 quanta over an 88-sample attack: a step of 2 finishes on time
    let mut env = ExponentialDecay::new(ONE, 44100);
    env.trigger(175);
    let mut steps = 0;
    while env.target_value > env.value {
        env.next();
        steps += 1;
        assert!(steps <= 88);
    }
    assert!(env.value >= 175);
}

#[test]
fn a_zero_duration_envelope_fallsdead_instantly() {
    let mut env = ExponentialDecay::new(0, 44100);
    env.trigger(ONE);
    // attack still climbs toward the target
    while env.target_value > env.value {
        env.next();
    }
    // the first decay sample multiplies by a zero scaler
    assert_eq!(env.next(), 0);
}

#[test]
fn decay_scaler_is_the_largest_certified_value() {
    for n in [1u64, 2, 10, 1000, 44100] {
        let s = decay_scaler(n);
        assert!(pow_up(s, n) <= MILLI);
        if s + 1 < ONE {
            assert!(pow_up(s + 1, n) > MILLI);
        }
    }
    assert_eq!(decay_scaler(0), 0);
    // one sample to -60 dB: the scaler is 0.001 itself
    assert_eq!(decay_scaler(1), MILLI);
}

#[test]
fn the_square_root_of_two_brackets_two() {
    let r = fx_root(2 * ONE, 2);
    assert!(fx_pow(r, 2) <= 2 * ONE);
    assert!(fx_pow(r + 1, 2) > 2 * ONE);
    assert_eq!(r, 6074001000);
}

#[test]
fn the_fifty_third_root_of_two_stacks_back_to_an_octave() {
    let r53 = fx_root(2 * ONE, 53);
    let octave = fx_pow(r53, 53);
    // rounding loses a little, but the octave is approached from below
    assert!(octave <= 2 * ONE);
    assert!(octave > 2 * ONE - ONE / 1000);
}
