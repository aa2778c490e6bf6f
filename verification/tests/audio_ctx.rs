use openvoice::audio_ctx::{
    audio_ctx_for, CONTEXT_BLOCK, FRAMES_PER_SECOND, MAX_CONTEXT_FRAMES, MIN_CONTEXT_FRAMES,
};

#[test]
fn short_clips_are_lifted_to_the_safe_floor_not_scoped_tight() {
    // The regression this whole floor exists for: 3s of audio only
    // *needs* 150 frames, and 1s only needs 50, but both of those
    // produce repetition loops. See MIN_CONTEXT_FRAMES.
    assert_eq!(audio_ctx_for(3 * 16_000, 16_000), MIN_CONTEXT_FRAMES);
    assert_eq!(audio_ctx_for(16_000, 16_000), MIN_CONTEXT_FRAMES);
    assert_eq!(audio_ctx_for(4_000, 16_000), MIN_CONTEXT_FRAMES);
}

#[test]
fn longer_clips_still_scope_above_the_floor() {
    // Past the floor, scoping still does its job -- a 10s clip
    // shouldn't pay for whisper's full 30s context.
    let ctx = audio_ctx_for(10 * 16_000, 16_000);
    assert!(ctx > MIN_CONTEXT_FRAMES, "should scope above the floor, got {ctx}");
    assert!(ctx < MAX_CONTEXT_FRAMES, "should still be cheaper than the 30s default");
}

#[test]
fn never_returns_a_value_in_the_repetition_loop_range() {
    // Guard against anyone re-tightening this for a speed win
    // without re-running the *quality* benchmark.
    for samples in [0, 1, 4_000, 9_600, 16_000, 40_160, 5 * 16_000] {
        assert!(
            audio_ctx_for(samples, 16_000) >= MIN_CONTEXT_FRAMES,
            "below the measured-safe floor for {samples} samples"
        );
    }
}

#[test]
fn never_returns_a_context_smaller_than_the_audio() {
    // The invariant that keeps rounding-to-a-block from silently
    // truncating: whatever we return must still cover the real
    // frame count.
    for samples in [1, 100, 4_000, 16_001, 24_000, 48_000, 10 * 16_000] {
        let exact = ((samples as f64 / 16_000.0) * FRAMES_PER_SECOND as f64).ceil() as i32;
        assert!(
            audio_ctx_for(samples, 16_000) >= exact.min(MAX_CONTEXT_FRAMES),
            "context smaller than the audio for {samples} samples"
        );
    }
}

#[test]
fn every_result_is_block_aligned() {
    for samples in [0, 1, 800, 4_000, 8_000, 16_000, 24_000, 100_000] {
        let ctx = audio_ctx_for(samples, 16_000);
        assert_eq!(ctx % CONTEXT_BLOCK, 0, "{ctx} is not block-aligned");
    }
}

#[test]
fn empty_audio_still_gets_the_safe_floor() {
    assert_eq!(audio_ctx_for(0, 16_000), MIN_CONTEXT_FRAMES);
}

#[test]
fn thirty_seconds_or_more_clamps_to_the_trained_maximum() {
    // 1500 is itself not a multiple of 16, but it's whisper's hard
    // architectural maximum -- the clamp has to win over alignment.
    assert_eq!(audio_ctx_for(30 * 16_000, 16_000), MAX_CONTEXT_FRAMES);
    assert_eq!(audio_ctx_for(60 * 16_000, 16_000), MAX_CONTEXT_FRAMES);
}

#[test]
fn scales_correctly_at_a_different_sample_rate() {
    // Same duration, different rate -> same answer: frame count is
    // derived from time, not raw sample count. (Both land on the
    // floor at this duration; the 10s case below is what actually
    // exercises the scaling above it.)
    assert_eq!(
        audio_ctx_for(3 * 48_000, 48_000),
        audio_ctx_for(3 * 16_000, 16_000)
    );
    assert_eq!(
        audio_ctx_for(10 * 48_000, 48_000),
        audio_ctx_for(10 * 16_000, 16_000)
    );
}
