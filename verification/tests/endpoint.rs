use openvoice::endpoint::{EndpointConfig, EndpointEvent, Endpointer};

fn config() -> EndpointConfig<f32> {
    EndpointConfig {
        speech_threshold: 0.5,
        start_frames: 3,
        end_frames: 3,
    }
}

#[test]
fn silence_never_fires() {
    let mut e = Endpointer::new(config());
    for _ in 0..20 {
        assert_eq!(e.push_probability(0.1), None);
    }
    assert!(!e.in_speech());
}

#[test]
fn sub_threshold_run_never_fires() {
    // Below start_frames, even if every frame is speech-like.
    let mut e = Endpointer::new(config());
    assert_eq!(e.push_probability(0.9), None);
    assert_eq!(e.push_probability(0.9), None);
    assert!(!e.in_speech());
}

#[test]
fn confirms_speech_start_after_run() {
    let mut e = Endpointer::new(config());
    assert_eq!(e.push_probability(0.9), None);
    assert_eq!(e.push_probability(0.9), None);
    assert_eq!(e.push_probability(0.9), Some(EndpointEvent::SpeechStart));
    assert!(e.in_speech());
}

#[test]
fn fires_speech_start_exactly_once() {
    let mut e = Endpointer::new(config());
    for _ in 0..3 {
        e.push_probability(0.9);
    }
    // Already confirmed; more speech frames shouldn't re-fire.
    for _ in 0..10 {
        assert_eq!(e.push_probability(0.9), None);
    }
}

#[test]
fn brief_dip_does_not_end_speech() {
    let mut e = Endpointer::new(config());
    for _ in 0..3 {
        e.push_probability(0.9);
    }
    assert!(e.in_speech());
    // Two silent frames -- short of end_frames=3 -- then back to speech.
    assert_eq!(e.push_probability(0.1), None);
    assert_eq!(e.push_probability(0.1), None);
    assert!(e.in_speech(), "still counts as speech mid-debounce");
    assert_eq!(e.push_probability(0.9), None);
    assert!(e.in_speech(), "should recover, not end, on a brief dip");
}

#[test]
fn confirms_speech_end_after_silence_run() {
    let mut e = Endpointer::new(config());
    for _ in 0..3 {
        e.push_probability(0.9);
    }
    assert_eq!(e.push_probability(0.1), None);
    assert_eq!(e.push_probability(0.1), None);
    assert_eq!(e.push_probability(0.1), Some(EndpointEvent::SpeechEnd));
    assert!(!e.in_speech());
}

#[test]
fn supports_multiple_utterances_back_to_back() {
    let mut e = Endpointer::new(config());
    for _ in 0..2 {
        for _ in 0..2 {
            assert_eq!(e.push_probability(0.9), None);
        }
        assert_eq!(e.push_probability(0.9), Some(EndpointEvent::SpeechStart));
        for _ in 0..2 {
            assert_eq!(e.push_probability(0.1), None);
        }
        assert_eq!(e.push_probability(0.1), Some(EndpointEvent::SpeechEnd));
    }
}

#[test]
fn reset_clears_in_progress_debounce() {
    let mut e = Endpointer::new(config());
    e.push_probability(0.9);
    e.push_probability(0.9);
    e.reset();
    assert!(!e.in_speech());
    // Needs a fresh full run to confirm start again.
    assert_eq!(e.push_probability(0.9), None);
    assert_eq!(e.push_probability(0.9), None);
    assert_eq!(e.push_probability(0.9), Some(EndpointEvent::SpeechStart));
}

#[test]
fn probability_exactly_at_threshold_counts_as_speech() {
    let mut e = Endpointer::new(config());
    for _ in 0..3 {
        assert!(e.push_probability(0.5).is_none() || e.in_speech());
    }
    assert!(e.in_speech());
}
