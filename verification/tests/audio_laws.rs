use std::time::Duration;

use openvoice::audio_ctx::audio_ctx_for;
use openvoice::capture::capture_chunk;
use openvoice::convert::downmix_to_mono;
use openvoice::framing::{next_frame_range, speech_start_estimate, FRAME_SAMPLES};
use openvoice::resample::{linear_resample, TARGET_SAMPLE_RATE_HZ};
use openvoice::ring_buffer::{default_capacity, RingBuffer};
use openvoice::sample_time::samples_in;
use openvoice::session::{pre_roll_duration, Session, SessionMode, PRE_ROLL_SAMPLES};
use openvoice::silero::{
    SileroVad, VadError, CONTEXT_SAMPLES, INPUT_SAMPLES, STATE_DIM, STATE_LAYERS, STATE_LEN,
};
use openvoice::window::WindowPolicy;

#[test]
fn a_span_holds_its_rate_times_its_seconds_in_samples() {
    assert_eq!(samples_in(16_000, Duration::from_secs(30)), 480_000);
    assert_eq!(samples_in(44_100, Duration::from_millis(500)), 22_050);
    assert_eq!(samples_in(16_000, Duration::new(1, 31_250)), 16_001);
    assert_eq!(samples_in(16_000, Duration::new(1, 31_249)), 16_000);
    assert_eq!(samples_in(16_000, Duration::ZERO), 0);
    assert_eq!(samples_in(0, Duration::from_secs(9)), 0);
    assert_eq!(samples_in(u32::MAX, Duration::MAX), usize::MAX);
    assert_eq!(default_capacity(), Duration::from_secs(30));
    assert_eq!(pre_roll_duration(), Duration::from_millis(500));
    assert_eq!(samples_in(TARGET_SAMPLE_RATE_HZ, pre_roll_duration()), PRE_ROLL_SAMPLES);
}

#[test]
fn a_buffer_for_no_time_holds_one_sample() {
    let mut ring = RingBuffer::with_duration(16_000, Duration::ZERO);
    assert_eq!(ring.capacity(), 1);
    ring.push(&[7, 8]);
    assert_eq!(ring.read_last(5), vec![8]);
}

#[test]
fn every_pushed_sample_counts_even_past_capacity() {
    let mut ring = RingBuffer::new(3);
    ring.push(&[1, 2, 3, 4, 5]);
    assert_eq!(ring.total_written(), 5);
    assert_eq!(ring.len(), 3);
    let mark = ring.mark();
    ring.push(&[6]);
    assert_eq!(ring.total_written(), 6);
    assert_eq!(ring.read_since(mark), vec![6]);
    assert_eq!(ring.read_last(3), vec![4, 5, 6]);
}

#[test]
fn two_pushes_are_one_push_of_both() {
    let mut together = RingBuffer::new(5);
    let mut apart = RingBuffer::new(5);
    together.push(&[1, 2, 3, 4, 5, 6, 7]);
    apart.push(&[1, 2, 3, 4]);
    apart.push(&[5, 6, 7]);
    assert_eq!(together.read_last(5), vec![3, 4, 5, 6, 7]);
    assert_eq!(apart.read_last(5), together.read_last(5));
    assert_eq!(apart.total_written(), together.total_written());
}

#[test]
fn session_audio_is_the_pre_roll_and_what_follows_without_a_gap() {
    let mut ring = RingBuffer::new(20_000);
    let before: Vec<u32> = (0..10_000).collect();
    ring.push(&before);
    let session = Session::start(&ring, SessionMode::PushToTalk);
    let after: Vec<u32> = (10_000..11_000).collect();
    ring.push(&after);
    let audio = session.session_audio(&ring);
    let expected: Vec<u32> = (2_000..11_000).collect();
    assert_eq!(audio, expected);
}

#[test]
fn a_session_in_a_fresh_buffer_has_a_short_pre_roll() {
    let mut ring = RingBuffer::new(100);
    ring.push(&[1, 2]);
    let session = Session::start(&ring, SessionMode::HandsFree);
    assert_eq!(session.session_audio(&ring), vec![1, 2]);
    ring.push(&[3]);
    assert_eq!(session.session_audio(&ring), vec![1, 2, 3]);
}

#[test]
fn windows_and_the_trailing_one_cover_every_sample() {
    let policy = WindowPolicy { window_samples: 30, stride_samples: 20 };
    let captured = 87;
    let mut covered = vec![false; captured];
    let mut decoded = 0;
    while let Some((start, end)) = policy.next_window(captured, decoded) {
        for sample in start..end {
            covered[sample] = true;
        }
        decoded += 1;
    }
    let (start, end) = policy.final_window(captured, decoded).unwrap();
    assert!(end - start < policy.window_samples);
    assert_eq!((decoded, start, end), (3, 60, 87));
    for sample in start..end {
        covered[sample] = true;
    }
    assert!(covered.iter().all(|&c| c));
}

#[test]
fn windows_follow_the_durations_they_are_made_of() {
    let policy = WindowPolicy::new(16_000, Duration::from_secs(3), Duration::from_millis(500));
    assert_eq!((policy.window_samples, policy.stride_samples), (48_000, 40_000));
    let reversed = WindowPolicy::new(16_000, Duration::from_secs(1), Duration::from_secs(2));
    assert_eq!((reversed.window_samples, reversed.stride_samples), (16_000, 1));
}

#[test]
fn the_context_covers_the_audio_in_whole_blocks() {
    assert_eq!(audio_ctx_for(143_360, 16_000), 448);
    assert_eq!(audio_ctx_for(143_361, 16_000), 464);
    assert_eq!(audio_ctx_for(10 * 16_000, 16_000), 512);
    assert_eq!(audio_ctx_for(10 * 44_100, 44_100), 512);
    assert_eq!(audio_ctx_for(usize::MAX, 1), 1500);
    assert_eq!(audio_ctx_for(0, 0), 256);
    let mut last = 0;
    for seconds in 0..40 {
        let frames = audio_ctx_for(seconds * 16_000, 16_000);
        assert!(frames >= last);
        last = frames;
    }
}

#[test]
fn frames_leave_less_than_one_frame_over() {
    let available = 5 * FRAME_SAMPLES + 511;
    let mut fed = 0;
    while let Some((start, end)) = next_frame_range(fed, available) {
        assert_eq!((start, end), (fed, fed + FRAME_SAMPLES));
        fed = end;
    }
    assert_eq!(available - fed, 511);
    assert_eq!(speech_start_estimate(2_000, 2, 0), 2_000 - 1_024);
    assert_eq!(next_frame_range(usize::MAX, usize::MAX), None);
    assert_eq!(
        next_frame_range(usize::MAX - 512, usize::MAX),
        Some((usize::MAX - 512, usize::MAX))
    );
}

#[test]
fn the_model_hears_the_end_of_the_frame_before() {
    assert_eq!(STATE_LAYERS * STATE_DIM, STATE_LEN);
    assert_eq!(CONTEXT_SAMPLES + FRAME_SAMPLES, INPUT_SAMPLES);
    let mut vad = SileroVad::new(0);
    let stream: Vec<i32> = (1..=1024).collect();
    let first = vad.frame_input(&stream[..512]).unwrap();
    assert_eq!(first.len(), INPUT_SAMPLES);
    assert!(first[..64].iter().all(|&s| s == 0));
    assert_eq!(&first[64..], &stream[..512]);
    let next_state: Vec<i32> = (0..256).collect();
    assert_eq!(vad.take_output(&first, &[42, 43], &next_state), Ok(42));
    assert_eq!(vad.state(), &next_state);
    let second = vad.frame_input(&stream[512..]).unwrap();
    assert_eq!(second, stream[448..].to_vec());
    vad.reset_state();
    assert!(vad.state().iter().all(|&s| s == 0));
    assert!(vad.frame_input(&stream[..512]).unwrap()[..64].iter().all(|&s| s == 0));
}

#[test]
fn only_a_frame_that_was_scored_is_remembered() {
    let mut vad = SileroVad::new(0);
    let stream: Vec<i32> = (1..=1536).collect();
    let state_after: Vec<i32> = (0..256).collect();
    let mut heard: Vec<Vec<i32>> = Vec::new();
    let mut score = |vad: &mut SileroVad<i32>, frame: &[i32], answer: Option<Vec<i32>>| {
        vad.process_frame(frame, |input, state| {
            assert_eq!(state.len(), STATE_LEN);
            heard.push(input.to_vec());
            answer.map(|outputs| (outputs, state_after.clone()))
        })
    };
    assert_eq!(
        score(&mut vad, &stream[..100], Some(vec![1])),
        Err(VadError::WrongFrameSize { expected: 512, actual: 100 })
    );
    assert_eq!(score(&mut vad, &stream[..512], Some(vec![10, 11])), Ok(10));
    assert_eq!(score(&mut vad, &stream[512..1024], None), Err(VadError::ModelFailed));
    assert_eq!(score(&mut vad, &stream[512..1024], Some(vec![])), Err(VadError::EmptyOutput));
    assert_eq!(score(&mut vad, &stream[512..1024], Some(vec![20])), Ok(20));
    assert_eq!(score(&mut vad, &stream[1024..], Some(vec![30])), Ok(30));
    assert_eq!(heard.len(), 5);
    assert!(heard[0][..64].iter().all(|&s| s == 0));
    for again in 1..4 {
        assert_eq!(heard[again], stream[448..1024].to_vec());
    }
    assert_eq!(heard[4], stream[960..].to_vec());
    assert_eq!(vad.state(), &state_after);
}

#[test]
fn the_model_refuses_other_frames_and_empty_outputs() {
    let mut vad = SileroVad::new(0);
    assert_eq!(
        vad.frame_input(&[1; 511]),
        Err(VadError::WrongFrameSize { expected: 512, actual: 511 })
    );
    let input = vad.frame_input(&[1; 512]).unwrap();
    assert_eq!(vad.take_output(&input, &[], &[9; 256]), Err(VadError::EmptyOutput));
    assert!(vad.state().iter().all(|&s| s == 0));
    assert_eq!(vad.frame_input(&[1; 512]).unwrap(), input);
}

#[test]
fn each_mono_sample_is_the_mean_of_its_own_frame() {
    let mean = |frame: &[i32]| frame.iter().sum::<i32>() / frame.len() as i32;
    assert_eq!(downmix_to_mono(&[1, 2, 3, 10, 20, 30, 7, 7], 3, mean), vec![2, 20]);
    assert_eq!(downmix_to_mono(&[], 2, mean), Vec::<i32>::new());
}

#[test]
fn each_resampled_sample_lies_between_its_neighbours() {
    let parts = |a: (u64, u64, u64, u32), b: (u64, u64, u64, u32), n: u64, d: u32| (a.0, b.0, n, d);
    let input: Vec<(u64, u64, u64, u32)> = (0..4).map(|i| (i, 0, 0, 0)).collect();
    assert_eq!(
        linear_resample(&input, 2, 3, parts),
        vec![(0, 1, 0, 3), (0, 1, 2, 3), (1, 2, 1, 3), (2, 3, 0, 3), (2, 3, 2, 3), (3, 3, 1, 3)]
    );
    assert_eq!(linear_resample(&input, 2, 0, parts), Vec::new());
    let long = vec![0u8; 44_100];
    assert_eq!(linear_resample(&long, 44_100, 16_000, |a, _, _, _| a).len(), 16_000);
    assert_eq!(linear_resample(&[0u8, 0, 0], 2, 1, |a, _, _, _| a).len(), 2);
}

#[test]
fn a_callback_is_downmixed_resampled_and_pushed() {
    let mean = |frame: &[i64]| frame.iter().sum::<i64>() / frame.len() as i64;
    let lerp = |a: i64, b: i64, n: u64, d: u32| a + (b - a) * n as i64 / d as i64;
    let mut ring = RingBuffer::new(4);
    capture_chunk(&mut ring, &[0, 20, 30, 50, 60, 80, 99], 8_000, 2, mean, lerp);
    assert_eq!(ring.read_last(9), vec![40, 55, 70, 70]);
    assert_eq!(ring.total_written(), 6);
    capture_chunk(&mut ring, &[5, 6], 16_000, 1, mean, lerp);
    assert_eq!(ring.read_last(9), vec![70, 70, 5, 6]);
}
