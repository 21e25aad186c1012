//! Delay, EQ and module-chain behavior, with samples in millionths.

use glicol_verb::dsp::delay::Delay;
use glicol_verb::dsp::{DspModule, ModuleChain, StereoSample};

#[test]
fn test_delay_basic() {
    let mut delay = Delay::new(44100);
    delay.set_time_ms(100_000_000); // 100ms delay
    delay.set_feedback(0);
    delay.set_mix(1_000_000); // 100% wet

    // Feed an impulse
    let impulse = StereoSample::new(1_000_000, 1_000_000);
    let _ = delay.process(impulse);

    // Process silence until we should hear the delayed impulse
    let delay_samples = 100 * 44100 / 1000;
    for _ in 0..delay_samples - 1 {
        let out = delay.process(StereoSample::default());
        assert!(out.left.abs() < 10_000);
    }

    // Now we should get the delayed impulse
    let out = delay.process(StereoSample::default());
    assert!(out.left > 900_000);
}

#[test]
fn test_delay_feedback() {
    let mut delay = Delay::new(44100);
    delay.set_time_ms(10_000_000); // Short delay for quick test
    delay.set_feedback(500_000);
    delay.set_mix(1_000_000);

    // Feed an impulse
    let _ = delay.process(StereoSample::new(1_000_000, 1_000_000));

    // Wait for first echo
    let delay_samples = 10 * 44100 / 1000;
    for _ in 0..delay_samples - 1 {
        delay.process(StereoSample::default());
    }
    let first_echo = delay.process(StereoSample::default());

    // Wait for second echo
    for _ in 0..delay_samples - 1 {
        delay.process(StereoSample::default());
    }
    let second_echo = delay.process(StereoSample::default());

    // Second echo should be quieter due to feedback < 1
    assert!(second_echo.left < first_echo.left);
}

#[test]
fn delay_test_bypass() {
    let mut delay = Delay::new(44100);
    delay.set_time_ms(100_000_000);
    delay.set_mix(1_000_000);
    delay.set_bypassed(true);

    let input = StereoSample::new(500_000, 500_000);
    let output = delay.process_with_bypass(input);

    // Bypassed, output should equal input
    assert!((output.left - input.left).abs() < 1_000);
}

#[test]
fn test_eq_passthrough() {
    let mut eq = glicol_verb::dsp::eq::Eq::new(44100);
    // With 0 dB gain on all bands, should pass through unchanged
    eq.set_low_gain(0);
    eq.set_mid_gain(0);
    eq.set_high_gain(0);

    // Process some samples to stabilize filter
    for _ in 0..1000 {
        eq.process(StereoSample::new(500_000, 500_000));
    }

    let input = StereoSample::new(500_000, 500_000);
    let output = eq.process(input);

    // Should be very close to input
    assert!((output.left - input.left).abs() < 10_000);
    assert!((output.right - input.right).abs() < 10_000);
}

#[test]
fn test_eq_boost() {
    let mut eq = glicol_verb::dsp::eq::Eq::new(44100);
    eq.set_low_gain(6_000_000);
    eq.set_mid_gain(0);
    eq.set_high_gain(0);

    // Process a constant input; verify it stays within the sample range
    for _ in 0..10000 {
        let output = eq.process(StereoSample::new(500_000, 500_000));
        assert!(output.left.abs() <= 64_000_000);
        assert!(output.right.abs() <= 64_000_000);
    }
}

#[test]
fn eq_test_bypass() {
    let mut eq = glicol_verb::dsp::eq::Eq::new(44100);
    eq.set_low_gain(12_000_000);
    eq.set_mid_gain(12_000_000);
    eq.set_high_gain(12_000_000);
    eq.set_bypassed(true);

    let input = StereoSample::new(500_000, 500_000);
    let output = eq.process_with_bypass(input);

    // Bypassed, output should equal input
    assert!((output.left - input.left).abs() < 1_000);
}

#[test]
fn test_module_chain() {
    let mut chain = ModuleChain::new();
    chain.add(DspModule::Eq(glicol_verb::dsp::eq::Eq::new(44100)));
    chain.add(DspModule::Delay({
        let mut d = Delay::new(44100);
        d.set_bypassed(true);
        d
    }));

    let input = StereoSample::new(1_000_000, 1_000_000);
    let output = chain.process(input);

    // A flat EQ and a bypassed delay pass the sample through unchanged
    assert!((output.left - 1_000_000).abs() < 1_000);
    assert!((output.right - 1_000_000).abs() < 1_000);
}

#[test]
fn mod_test_bypass() {
    let mut chain = ModuleChain::new();
    chain.add(DspModule::Delay({
        let mut d = Delay::new(44100);
        d.set_bypassed(true);
        d
    }));

    let input = StereoSample::new(1_000_000, 1_000_000);
    let output = chain.process(input);

    // Bypassed, so output == input
    assert!((output.left - 1_000_000).abs() < 1_000);
}

#[test]
fn fractional_delay_splits_the_peak() {
    // 1 ms at 44100 Hz is 44.1 samples: the echo comes back split over
    // samples 44 and 45 with the fractional weights, silence elsewhere.
    let mut delay = Delay::new(44100);
    delay.set_time_ms(1_000_000);
    delay.set_feedback(0);
    delay.set_mix(1_000_000);
    assert_eq!(delay.delay_fx, 44_100_000);

    let _ = delay.process(StereoSample::new(1_000_000, 1_000_000));
    let mut outs = Vec::new();
    for _ in 0..200 {
        outs.push(delay.process(StereoSample::default()).left);
    }
    // outs[i] is the output of step i + 1
    assert_eq!(outs[43], 900_000);
    assert_eq!(outs[44], 100_000);
    for (i, &v) in outs.iter().enumerate() {
        if i != 43 && i != 44 {
            assert_eq!(v, 0, "unexpected signal at step {}", i + 1);
        }
    }
}

#[test]
fn delay_time_is_clamped() {
    let mut delay = Delay::new(44100);
    delay.set_time_ms(5_000_000_000); // 5000 ms, above the 2000 ms limit
    assert_eq!(delay.delay_fx, 2_000_000_000i64 * 44100 / 1000);
    delay.set_time_ms(0); // below the 1 ms floor
    assert_eq!(delay.delay_fx, 1_000_000i64 * 44100 / 1000);
}

#[test]
fn eq_gain_is_clamped() {
    let mut eq = glicol_verb::dsp::eq::Eq::new(44100);
    eq.set_low_gain(20_000_000);
    assert_eq!(eq.low_gain, 12_000_000);
    eq.set_high_gain(-20_000_000);
    assert_eq!(eq.high_gain, -12_000_000);
    eq.set_mid_q(10_000_000);
    assert_eq!(eq.mid_q, 4_000_000);
}

#[test]
fn eq_small_changes_are_ignored() {
    let mut eq = glicol_verb::dsp::eq::Eq::new(44100);
    eq.set_low_gain(6_000_000);
    // A change below the epsilon leaves the stored gain untouched
    eq.set_low_gain(6_005_000);
    assert_eq!(eq.low_gain, 6_000_000);
}
