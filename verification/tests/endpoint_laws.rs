use openvoice::endpoint::{EndpointConfig, EndpointEvent, Endpointer};

fn events(config: EndpointConfig<u32>, frames: &[u32]) -> Vec<(usize, EndpointEvent)> {
    let mut endpointer = Endpointer::new(config);
    let mut found = Vec::new();
    for (i, &frame) in frames.iter().enumerate() {
        if let Some(event) = endpointer.push_probability(frame) {
            found.push((i, event));
        }
    }
    found
}

#[test]
fn events_come_at_the_end_of_full_runs_and_take_turns() {
    let config = EndpointConfig { speech_threshold: 5, start_frames: 2, end_frames: 3 };
    let frames = [9, 0, 5, 6, 0, 0, 9, 0, 0, 0, 0, 9, 9];
    assert_eq!(
        events(config, &frames),
        vec![
            (3, EndpointEvent::SpeechStart),
            (9, EndpointEvent::SpeechEnd),
            (12, EndpointEvent::SpeechStart)
        ]
    );
}

#[test]
fn a_run_of_none_or_one_is_confirmed_at_once() {
    for needed in [0, 1] {
        let config = EndpointConfig {
            speech_threshold: 5,
            start_frames: needed,
            end_frames: needed,
        };
        assert_eq!(
            events(config, &[5, 5, 4]),
            vec![(0, EndpointEvent::SpeechStart), (2, EndpointEvent::SpeechEnd)]
        );
    }
}

#[test]
fn the_default_takes_three_frames_on_either_edge() {
    let config = EndpointConfig::with_threshold(0.5f32);
    assert_eq!((config.speech_threshold, config.start_frames, config.end_frames), (0.5, 3, 3));
    let mut endpointer = Endpointer::new(config);
    assert!(endpointer.is_speech(0.5));
    assert!(!endpointer.is_speech(0.49));
    assert!(!endpointer.is_speech(f32::NAN));
    assert_eq!(endpointer.push_frame(true), None);
    assert_eq!(endpointer.push_frame(true), None);
    assert_eq!(endpointer.push_frame(true), Some(EndpointEvent::SpeechStart));
}
