use std::sync::{Arc, Mutex};
use std::time::Duration;

use openvoice::ring_buffer::{default_capacity, RingBuffer, DEFAULT_SAMPLE_RATE_HZ};

#[test]
fn starts_empty() {
    let rb = RingBuffer::<f32>::new(10);
    assert!(rb.is_empty());
    assert_eq!(rb.len(), 0);
    assert_eq!(rb.read_last(5), Vec::<f32>::new());
}

#[test]
fn read_last_returns_what_was_pushed_when_under_capacity() {
    let mut rb = RingBuffer::new(10);
    rb.push(&[1.0, 2.0, 3.0]);
    assert_eq!(rb.len(), 3);
    assert_eq!(rb.read_last(3), vec![1.0, 2.0, 3.0]);
    assert_eq!(rb.read_last(10), vec![1.0, 2.0, 3.0]);
}

#[test]
fn overwrites_oldest_samples_once_full() {
    let mut rb = RingBuffer::new(4);
    rb.push(&[1.0, 2.0, 3.0, 4.0]);
    rb.push(&[5.0, 6.0]);
    // capacity 4, total written 6 -> retains samples 3,4,5,6
    assert_eq!(rb.len(), 4);
    assert_eq!(rb.read_last(4), vec![3.0, 4.0, 5.0, 6.0]);
}

#[test]
fn push_larger_than_capacity_keeps_only_the_tail() {
    let mut rb = RingBuffer::new(3);
    rb.push(&[1.0, 2.0, 3.0, 4.0, 5.0]);
    assert_eq!(rb.read_last(3), vec![3.0, 4.0, 5.0]);
}

#[test]
fn many_small_pushes_match_one_big_push() {
    let mut a = RingBuffer::new(8);
    let mut b = RingBuffer::new(8);
    let data: Vec<f32> = (1..=20).map(|x| x as f32).collect();
    a.push(&data);
    for chunk in data.chunks(3) {
        b.push(chunk);
    }
    assert_eq!(a.read_last(8), b.read_last(8));
}

#[test]
fn mark_and_read_since_captures_exactly_the_session() {
    let mut rb = RingBuffer::new(100);
    rb.push(&[0.0; 10]); // unrelated audio before the "hotkey press"
    let mark = rb.mark();
    rb.push(&[1.0, 2.0, 3.0]);
    rb.push(&[4.0, 5.0]);
    assert_eq!(rb.read_since(mark), vec![1.0, 2.0, 3.0, 4.0, 5.0]);
}

#[test]
fn read_since_saturates_when_session_overruns_capacity() {
    let mut rb = RingBuffer::new(4);
    let mark = rb.mark();
    rb.push(&[1.0, 2.0, 3.0, 4.0, 5.0, 6.0]); // 6 samples into a 4-cap buffer
    // Oldest 2 of the session are already gone; only the last 4 remain.
    assert_eq!(rb.read_since(mark), vec![3.0, 4.0, 5.0, 6.0]);
}

#[test]
fn read_since_immediately_after_mark_is_empty() {
    let mut rb = RingBuffer::new(10);
    rb.push(&[1.0, 2.0]);
    let mark = rb.mark();
    assert_eq!(rb.read_since(mark), Vec::<f32>::new());
}

#[test]
fn with_duration_computes_default_16k_30s_size() {
    let rb = RingBuffer::<f32>::with_duration(DEFAULT_SAMPLE_RATE_HZ, default_capacity());
    assert_eq!(rb.capacity(), 480_000);
    let default_rb = RingBuffer::<f32>::default_mono_16k();
    assert_eq!(default_rb.capacity(), 480_000);
}

#[test]
fn read_last_duration_converts_seconds_to_samples() {
    let mut rb = RingBuffer::with_duration(16_000, Duration::from_secs(2));
    let data: Vec<f32> = (0..32_000).map(|i| i as f32).collect();
    rb.push(&data);
    let last_500ms = rb.read_last_duration(16_000, Duration::from_millis(500));
    assert_eq!(last_500ms.len(), 8_000);
    assert_eq!(last_500ms.first(), Some(&24_000.0));
    assert_eq!(last_500ms.last(), Some(&31_999.0));
}

#[test]
fn shared_default_is_usable_across_a_mutex() {
    let shared = Arc::new(Mutex::new(RingBuffer::default_mono_16k()));
    {
        let mut guard = shared.lock().unwrap();
        guard.push(&[1.0, 2.0, 3.0]);
    }
    let guard = shared.lock().unwrap();
    assert_eq!(guard.read_last(3), vec![1.0, 2.0, 3.0]);
}
