use openvoice::framing::{next_frame_range, speech_start_estimate, FRAME_SAMPLES};

#[test]
fn speech_start_backs_up_past_the_confirmation_lag_and_lead_in() {
    // Confirmed at sample 10,000 after 3 frames of evidence, with a
    // 1,000-sample lead-in: 10_000 - 3*512 - 1_000.
    assert_eq!(
        speech_start_estimate(10_000, 3, 1_000),
        10_000 - 3 * FRAME_SAMPLES - 1_000
    );
}

#[test]
fn speech_start_never_goes_negative() {
    // Speech confirmed almost immediately -- there's nothing before
    // the buffer to back into.
    assert_eq!(speech_start_estimate(100, 3, 1_000), 0);
    assert_eq!(speech_start_estimate(0, 3, 1_000), 0);
}

#[test]
fn speech_start_is_never_after_the_confirmation_point() {
    // The estimate must only ever move backwards; returning a later
    // sample would clip off the very speech that triggered it.
    for confirmed in [0, 500, 5_000, 50_000] {
        assert!(speech_start_estimate(confirmed, 3, 1_000) <= confirmed);
    }
}

#[test]
fn no_frame_until_a_full_frame_is_available() {
    assert_eq!(next_frame_range(0, FRAME_SAMPLES - 1), None);
    assert_eq!(next_frame_range(0, FRAME_SAMPLES), Some((0, FRAME_SAMPLES)));
}

#[test]
fn advances_by_exactly_one_frame_at_a_time() {
    assert_eq!(
        next_frame_range(FRAME_SAMPLES, FRAME_SAMPLES),
        None,
        "no second frame's worth of new audio yet"
    );
    assert_eq!(
        next_frame_range(FRAME_SAMPLES, FRAME_SAMPLES * 2),
        Some((FRAME_SAMPLES, FRAME_SAMPLES * 2))
    );
}

#[test]
fn leftover_partial_audio_is_never_returned_as_a_frame() {
    // 1.5 frames available, already fed one frame: the trailing half
    // isn't a full frame, so nothing's ready.
    assert_eq!(
        next_frame_range(FRAME_SAMPLES, FRAME_SAMPLES + FRAME_SAMPLES / 2),
        None
    );
}

#[test]
fn consecutive_calls_walk_through_a_stream_without_gaps_or_overlap() {
    let available = FRAME_SAMPLES * 3 + 10; // three full frames, plus a leftover partial
    let mut fed = 0;
    let mut frames = Vec::new();
    while let Some((start, end)) = next_frame_range(fed, available) {
        frames.push((start, end));
        fed = end;
    }
    assert_eq!(
        frames,
        vec![
            (0, FRAME_SAMPLES),
            (FRAME_SAMPLES, FRAME_SAMPLES * 2),
            (FRAME_SAMPLES * 2, FRAME_SAMPLES * 3),
        ]
    );
}
