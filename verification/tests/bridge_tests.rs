//! Block-bridge accounting: fixed blocks out of variable pushes, silence
//! and counting on underrun.

use glicol_verb::engine::buffer_bridge::BufferBridge;
use glicol_verb::engine::GLICOL_BLOCK_SIZE;

#[test]
fn blocks_out_of_pushed_samples() {
    // Pushing k*N + r samples yields exactly k blocks and leaves r buffered.
    let mut bridge = BufferBridge::new();
    let k = 2;
    let r = 5;
    let total = k * GLICOL_BLOCK_SIZE + r;
    for i in 0..total {
        bridge.push_input(i as i64 + 1);
    }

    assert!(bridge.has_block());
    let first = bridge.pop_input_block();
    assert_eq!(first.len(), GLICOL_BLOCK_SIZE);
    for i in 0..GLICOL_BLOCK_SIZE {
        assert_eq!(first[i], i as i64 + 1);
    }

    assert!(bridge.has_block());
    let second = bridge.pop_input_block();
    for i in 0..GLICOL_BLOCK_SIZE {
        assert_eq!(second[i], (GLICOL_BLOCK_SIZE + i) as i64 + 1);
    }

    // Exactly k blocks were available; r samples stay buffered.
    assert!(!bridge.has_block());

    // The defensive short pop returns the r leftovers and zero-fills.
    let third = bridge.pop_input_block();
    for i in 0..r {
        assert_eq!(third[i], (2 * GLICOL_BLOCK_SIZE + i) as i64 + 1);
    }
    for i in r..GLICOL_BLOCK_SIZE {
        assert_eq!(third[i], 0);
    }
}

#[test]
fn output_is_first_in_first_out() {
    let mut bridge = BufferBridge::new();
    let left = vec![10, 20, 30];
    let right = vec![-1, -2, -3];
    bridge.push_output(&left, &right);
    assert_eq!(bridge.output_available(), 3);
    assert_eq!(bridge.pop_output(), (10, -1));
    assert_eq!(bridge.pop_output(), (20, -2));
    assert_eq!(bridge.pop_output(), (30, -3));
}

#[test]
fn underrun_returns_silence_and_counts() {
    let mut bridge = BufferBridge::new();
    assert_eq!(bridge.underrun_count(), 0);
    assert_eq!(bridge.pop_output(), (0, 0));
    assert_eq!(bridge.underrun_count(), 1);
    assert_eq!(bridge.pop_output(), (0, 0));
    assert_eq!(bridge.underrun_count(), 2);
    bridge.reset_underrun_count();
    assert_eq!(bridge.underrun_count(), 0);
}

#[test]
fn clear_drains_queues_but_keeps_underrun_count() {
    let mut bridge = BufferBridge::new();
    for i in 0..10 {
        bridge.push_input(i);
    }
    bridge.push_output(&vec![1, 2], &vec![3, 4]);
    let _ = bridge.pop_output();
    let _ = bridge.pop_output();
    let _ = bridge.pop_output(); // underrun
    let before = bridge.underrun_count();
    bridge.clear();
    assert!(!bridge.has_block());
    assert_eq!(bridge.output_available(), 0);
    assert_eq!(bridge.underrun_count(), before);
}

#[test]
fn mono_output_duplicates_channels() {
    let mut bridge = BufferBridge::new();
    bridge.push_output_mono(&vec![7, 8]);
    assert_eq!(bridge.pop_output(), (7, 7));
    assert_eq!(bridge.pop_output(), (8, 8));
}

#[test]
fn input_overflow_drops_silently() {
    let mut bridge = BufferBridge::new();
    // The queue holds 2048 samples; everything beyond is dropped.
    for i in 0..3000 {
        bridge.push_input(i as i64);
    }
    // The first 16 blocks hold the first 2048 samples in order.
    for b in 0..16 {
        let block = bridge.pop_input_block();
        for i in 0..GLICOL_BLOCK_SIZE {
            assert_eq!(block[i], (b * GLICOL_BLOCK_SIZE + i) as i64);
        }
    }
    assert!(!bridge.has_block());
}
