//! End-to-end router scenarios: the two per-block phases around a
//! pass-through stand-in for the engine, and the script hot-swap rules.

use glicol_verb::router::{ControlValues, GlicolVerb};
use glicol_verb::simple_hash;

fn flat_controls() -> ControlValues {
    ControlValues {
        input_gain: 1_000_000,
        output_gain: 1_000_000,
        dry_wet: 1_000_000,
        knob1: 0,
        knob2: 0,
        knob3: 0,
        knob4: 0,
        drive: 0,
        feedback: 0,
        mix: 0,
        rate: 0,
        delay_bypass: false,
        delay_time_ms: 100_000_000,
        delay_feedback: 0,
        delay_mix: 1_000_000,
        delay_highcut: 12_000,
        eq_bypass: false,
        eq_low_freq: 200,
        eq_low_gain: 0,
        eq_mid_freq: 1_000,
        eq_mid_gain: 0,
        eq_mid_q: 1_000_000,
        eq_high_freq: 4_000,
        eq_high_gain: 0,
    }
}

/// Run one host block through the router with the engine replaced by an
/// exact pass-through (the behavior of the `out: ~input` script).
fn run_block(router: &mut GlicolVerb, input: &Vec<i64>, out: &mut Vec<i64>) {
    let n = input.len();
    assert!(n <= 4096);
    let empty: Vec<i64> = Vec::new();
    router.process_input_phase(input, &empty, false, 1_000_000, n);
    while router.buffer_bridge.has_block() {
        let block = router.buffer_bridge.pop_input_block();
        router.buffer_bridge.push_output(&block, &block);
    }
    let (left, _right) = router.process_output_phase(n, 1_000_000, 1_000_000);
    for v in left {
        out.push(v);
    }
}

#[test]
fn impulse_comes_back_after_the_delay_time() {
    // 44100 Hz, delay 100 ms, feedback 0, mix 1.0: one impulse, then
    // silence for 4409 samples, then the reconstructed peak at 4410.
    let mut router = GlicolVerb::default();
    let controls = flat_controls();
    router.initialize(44_100, String::from("out: ~input"), &controls);
    router.update_eq_params(&controls);
    router.update_delay_params(&controls);

    let mut collected: Vec<i64> = Vec::new();
    for chunk in 0..40 {
        let mut input = vec![0i64; 128];
        if chunk == 0 {
            input[0] = 1_000_000;
        }
        run_block(&mut router, &input, &mut collected);
    }

    assert!(collected.len() >= 4411);
    for i in 0..4410 {
        assert!(
            collected[i].abs() < 10_000,
            "unexpected signal at sample {}",
            i
        );
    }
    assert!(collected[4410] >= 900_000, "no peak at sample 4410");
}

#[test]
fn constant_input_stays_bounded_with_low_boost() {
    // EQ low gain +6 dB, all other gains 0: a long constant input stays
    // finite and bounded.
    let mut router = GlicolVerb::default();
    let mut controls = flat_controls();
    controls.eq_low_gain = 6_000_000;
    controls.delay_bypass = true;
    router.initialize(44_100, String::from("out: ~input"), &controls);
    router.update_eq_params(&controls);
    router.update_delay_params(&controls);

    let mut collected: Vec<i64> = Vec::new();
    for _ in 0..79 {
        let input = vec![500_000i64; 128];
        run_block(&mut router, &input, &mut collected);
    }
    assert!(collected.len() >= 10_000);
    for v in &collected {
        assert!(v.abs() <= 64_000_000);
    }
}

#[test]
fn rejected_update_keeps_previous_script() {
    let mut router = GlicolVerb::default();
    let controls = flat_controls();
    router.initialize(44_100, String::from("out: ~input"), &controls);

    router.apply_code_update(String::from("out: ~input >> plate 0.5"), false);
    assert_eq!(router.user_code, "out: ~input");

    router.apply_code_update(String::from("out: ~input >> plate 0.5"), true);
    assert_eq!(router.user_code, "out: ~input >> plate 0.5");

    router.apply_code_update(String::from("broken"), false);
    assert_eq!(router.user_code, "out: ~input >> plate 0.5");
}

#[test]
fn injection_uses_current_control_values() {
    let mut router = GlicolVerb::default();
    let mut controls = flat_controls();
    controls.drive = 2_000_000;
    router.update_param_injector(&controls);
    let combined = router.inject_current("out: ~input >> mul ~drive");
    assert_eq!(combined, "~drive: sig 2.000000\nout: ~input >> mul ~drive");
}

#[test]
fn reset_flushes_buffered_audio() {
    let mut router = GlicolVerb::default();
    let controls = flat_controls();
    router.initialize(44_100, String::from("out: ~input"), &controls);
    let input = vec![250_000i64; 100];
    let empty: Vec<i64> = Vec::new();
    router.process_input_phase(&input, &empty, false, 1_000_000, 100);
    router.reset();
    assert!(!router.buffer_bridge.has_block());
    assert_eq!(router.buffer_bridge.output_available(), 0);
}

#[test]
fn stereo_input_is_averaged() {
    let mut router = GlicolVerb::default();
    let mut controls = flat_controls();
    controls.delay_bypass = true;
    controls.dry_wet = 0; // listen to the dry path only
    router.initialize(44_100, String::from("out: ~input"), &controls);
    router.update_eq_params(&controls);
    router.update_delay_params(&controls);

    let left = vec![400_000i64; 128];
    let right = vec![200_000i64; 128];
    router.process_input_phase(&left, &right, true, 1_000_000, 128);
    let (out_left, out_right) = router.process_output_phase(128, 1_000_000, 0);
    // The dry capture is the average of the two channels (flat EQ).
    assert_eq!(out_left[0], 300_000);
    assert_eq!(out_right[0], 300_000);
}

#[test]
fn hash_is_deterministic_and_mixes() {
    let reference = {
        let mut x: u32 = 42;
        x = x.wrapping_mul(0x45d9f3b);
        x ^= x >> 16;
        x = x.wrapping_mul(0x45d9f3b);
        x ^= x >> 16;
        x
    };
    assert_eq!(simple_hash(42), reference);
    assert_eq!(simple_hash(42), simple_hash(42));
    assert_ne!(simple_hash(1), simple_hash(2));
    assert_eq!(simple_hash(0), 0);
}
