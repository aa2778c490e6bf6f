use std::time::Duration;

use openvoice::window::WindowPolicy;

fn policy() -> WindowPolicy {
    // Small numbers for readable tests: 30-sample windows, 10-sample overlap.
    WindowPolicy {
        window_samples: 30,
        stride_samples: 20,
    }
}

#[test]
fn default_16k_keeps_overlap_fraction_low_enough_to_sustain_real_time() {
    let p = WindowPolicy::default_16k();
    assert_eq!(p.window_samples, 19_200); // 1.2s @ 16kHz
    assert_eq!(p.stride_samples, 16_000); // (1.2s - 0.2s) @ 16kHz -- the final-tail bound
    // The condition this whole tuning exists to satisfy: overlap
    // stays under ~20% of the window (decoding
    // takes about 0.8 of real time).
    let overlap_samples = p.window_samples - p.stride_samples;
    assert!(
        (overlap_samples as f64) < 0.2 * p.window_samples as f64,
        "overlap fraction too high to sustain real-time decode"
    );
}

#[test]
fn no_window_ready_until_enough_audio_captured() {
    let p = policy();
    assert_eq!(p.next_window(29, 0), None);
    assert_eq!(p.next_window(30, 0), Some((0, 30)));
}

#[test]
fn second_window_starts_at_the_stride_not_the_window_end() {
    let p = policy();
    // First window [0,30) already decoded; second starts at stride=20.
    assert_eq!(p.next_window(49, 1), None);
    assert_eq!(p.next_window(50, 1), Some((20, 50)));
}

#[test]
fn windows_overlap_by_window_minus_stride() {
    let p = policy();
    let (_s0, e0) = p.next_window(30, 0).unwrap();
    let (s1, _e1) = p.next_window(50, 1).unwrap();
    assert_eq!(e0 - s1, 10); // 30 - 20 = 10-sample overlap, as configured
}

#[test]
fn final_window_covers_everything_since_the_last_stride() {
    let p = policy();
    // One full window decoded (windows_decoded=1, i.e. stride start = 20);
    // 15 more samples captured since (total 65) but not enough for window 2.
    assert_eq!(p.final_window(65, 1), Some((20, 65)));
}

#[test]
fn final_window_is_none_when_nothing_new_since_last_window() {
    let p = policy();
    assert_eq!(p.final_window(20, 1), None);
}

#[test]
fn zero_overlap_never_divides_stride_to_zero() {
    // window == overlap would otherwise make stride 0 and loop forever.
    let p = WindowPolicy::new(16_000, Duration::from_millis(500), Duration::from_millis(500));
    assert!(p.stride_samples >= 1);
}
