use openvoice::resample::linear_resample;

fn lerp(a: f32, b: f32, numerator: u64, denominator: u32) -> f32 {
    a + (b - a) * (numerator as f64 / denominator as f64) as f32
}

#[test]
fn matching_rates_is_a_passthrough() {
    let input = [1.0, 2.0, 3.0];
    assert_eq!(linear_resample(&input, 16_000, 16_000, lerp), vec![1.0, 2.0, 3.0]);
}

#[test]
fn empty_input_is_empty_output() {
    assert_eq!(linear_resample(&[], 44_100, 16_000, lerp), Vec::<f32>::new());
}

#[test]
fn downsamples_to_roughly_expected_length() {
    let input = vec![0.0f32; 44_100]; // 1s @ 44.1kHz
    let out = linear_resample(&input, 44_100, 16_000, lerp);
    // Should land within a sample or two of 16,000.
    assert!((out.len() as i64 - 16_000).abs() <= 2, "got {}", out.len());
}

#[test]
fn upsamples_to_roughly_expected_length() {
    let input = vec![0.0f32; 16_000]; // 1s @ 16kHz
    let out = linear_resample(&input, 16_000, 48_000, lerp);
    assert!((out.len() as i64 - 48_000).abs() <= 2, "got {}", out.len());
}

#[test]
fn interpolates_a_linear_ramp_exactly() {
    // A perfectly linear ramp should resample without error (up to fp noise),
    // since linear interpolation is exact for linear data -- except at the
    // very last output sample(s), which can land past the last interpolable
    // pair (idx, idx+1) and are clamped to the final input sample rather
    // than extrapolated past known data. That's the correct, causal
    // behavior for a streaming resampler: it never invents a sample it
    // hasn't seen yet.
    let input: Vec<f32> = (0..10).map(|i| i as f32).collect(); // 0..9 @ "10Hz"
    let out = linear_resample(&input, 10, 20, lerp); // 2x upsample
    assert_eq!(out.len(), 20);
    for (i, &v) in out.iter().enumerate().take(19) {
        let expected = i as f32 * 0.5;
        assert!((v - expected).abs() < 1e-4, "index {i}: {v} vs {expected}");
    }
    // Last sample: src_pos = 9.5, but index 10 doesn't exist, so it
    // clamps to input[9] instead of the "true" 9.5.
    assert_eq!(out[19], 9.0);
}
