use intercom::jitter_buffer::{JitterBuffer, JitterBufferConfig};

fn no_delay() -> JitterBufferConfig {
    JitterBufferConfig { min_delay_ms: 0, initial_delay_ms: 0, ..Default::default() }
}

#[test]
fn test_basic_push_pop() {
    let mut jb: JitterBuffer<Vec<f32>> = JitterBuffer::with_config(no_delay());

    for i in 0..10u32 {
        let samples = vec![i as f32; 480];
        jb.push(i, i as u64 * 480, samples, "user1".to_string());
    }

    for i in 0..10u32 {
        let packet = jb.pop().expect("Should have packet");
        assert_eq!(packet.sequence, i);
    }
}

#[test]
fn test_out_of_order() {
    let mut jb: JitterBuffer<Vec<f32>> = JitterBuffer::with_config(no_delay());

    jb.push(2, 960, vec![2.0; 480], "user1".to_string());
    jb.push(0, 0, vec![0.0; 480], "user1".to_string());
    jb.push(1, 480, vec![1.0; 480], "user1".to_string());

    assert_eq!(jb.pop().unwrap().sequence, 0);
    assert_eq!(jb.pop().unwrap().sequence, 1);
    assert_eq!(jb.pop().unwrap().sequence, 2);
}

#[test]
fn test_missing_packet() {
    let mut jb: JitterBuffer<Vec<f32>> = JitterBuffer::with_config(no_delay());

    jb.push(0, 0, vec![0.0; 480], "user1".to_string());
    jb.push(2, 960, vec![2.0; 480], "user1".to_string());
    jb.push(3, 1440, vec![3.0; 480], "user1".to_string());

    assert_eq!(jb.pop().unwrap().sequence, 0);

    assert!(jb.pop().is_none());

    for _ in 0..5 {
        let _ = jb.pop();
    }
}

#[test]
fn test_reset() {
    let mut jb: JitterBuffer<Vec<f32>> = JitterBuffer::new();

    for i in 0..5u32 {
        jb.push(i, i as u64 * 480, vec![i as f32; 480], "user1".to_string());
    }

    assert!(jb.buffered_count() > 0);

    jb.reset();

    assert_eq!(jb.buffered_count(), 0);
    assert!(jb.pop().is_none());
}

#[test]
fn default_config_targets_four_frames() {
    let jb: JitterBuffer<u8> = JitterBuffer::new();
    assert_eq!(jb.target_delay_frames(), 4);
    let cfg = JitterBufferConfig::default();
    assert_eq!(cfg.min_delay_ms, 20);
    assert_eq!(cfg.max_delay_ms, 100);
    assert_eq!(cfg.frame_size, 480);
    assert_eq!(cfg.sample_rate, 48000);
}

#[test]
fn nothing_comes_out_while_filling() {
    let mut jb: JitterBuffer<u8> = JitterBuffer::new();
    jb.push(0, 0, 0, "u".to_string());
    jb.push(1, 480, 1, "u".to_string());
    assert!(jb.pop().is_none());
    assert_eq!(jb.buffered_count(), 2);
    jb.push(2, 960, 2, "u".to_string());
    jb.push(3, 1440, 3, "u".to_string());
    assert_eq!(jb.pop().unwrap().samples, 0);
}

#[test]
fn stale_packets_are_dropped() {
    let mut jb: JitterBuffer<u8> = JitterBuffer::with_config(no_delay());
    assert!(jb.push(1000, 0, 0, "u".to_string()));
    assert!(!jb.push(899, 0, 0, "u".to_string()));
    assert!(jb.push(900, 0, 0, "u".to_string()));
    assert_eq!(jb.buffered_count(), 2);
    assert_eq!(jb.packets_received(), 3);
}

#[test]
fn buffer_holds_at_most_one_hundred() {
    let mut jb: JitterBuffer<u32> = JitterBuffer::with_config(no_delay());
    for i in 0..150u32 {
        jb.push(i, 0, i, "u".to_string());
    }
    assert_eq!(jb.buffered_count(), 100);
}

#[test]
fn skip_ahead_after_four_misses() {
    let mut jb: JitterBuffer<u32> = JitterBuffer::with_config(no_delay());
    jb.push(0, 0, 0, "u".to_string());
    jb.push(10, 0, 10, "u".to_string());
    assert_eq!(jb.pop().unwrap().sequence, 0);
    assert!(jb.pop().is_none());
    assert!(jb.pop().is_none());
    assert!(jb.pop().is_none());
    assert_eq!(jb.pop().unwrap().sequence, 10);
    assert_eq!(jb.packets_lost(), 4);
}

#[test]
fn adapt_delay_clamps_to_bounds() {
    let mut jb: JitterBuffer<u8> = JitterBuffer::new();
    jb.adapt_delay(0);
    assert_eq!(jb.target_delay_frames(), 2);
    jb.adapt_delay(50);
    assert_eq!(jb.target_delay_frames(), 10);
    jb.adapt_delay(7);
    assert_eq!(jb.target_delay_frames(), 7);
}

#[test]
fn duplicate_sequence_replaces_payload() {
    let mut jb: JitterBuffer<u8> = JitterBuffer::with_config(no_delay());
    jb.push(5, 0, 1, "u".to_string());
    jb.push(5, 0, 2, "u".to_string());
    assert_eq!(jb.buffered_count(), 1);
    assert_eq!(jb.pop().unwrap().samples, 2);
}

#[test]
fn target_stays_within_default_bounds() {
    let mut jb: JitterBuffer<u32> = JitterBuffer::new();
    assert_eq!(jb.target_delay_frames(), 4);
    jb.adapt_delay(0);
    assert_eq!(jb.target_delay_frames(), 2);
    jb.adapt_delay(1000);
    assert_eq!(jb.target_delay_frames(), 10);
    for i in 0..20u32 {
        jb.push(i, 0, i, "u".to_string());
        let _ = jb.pop();
    }
    assert_eq!(jb.target_delay_frames(), 10);
    jb.reset();
    assert_eq!(jb.target_delay_frames(), 4);
}
