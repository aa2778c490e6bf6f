use openvoice::convert::downmix_to_mono;

fn mean(frame: &[f32]) -> f32 {
    frame.iter().sum::<f32>() / frame.len() as f32
}

#[test]
fn mono_passthrough_is_unchanged() {
    let input = [0.1, -0.2, 0.3];
    assert_eq!(downmix_to_mono(&input, 1, mean), vec![0.1, -0.2, 0.3]);
}

#[test]
fn stereo_averages_left_and_right() {
    // frame 1: L=1.0 R=3.0 -> 2.0; frame 2: L=-1.0 R=1.0 -> 0.0
    let input = [1.0, 3.0, -1.0, 1.0];
    assert_eq!(downmix_to_mono(&input, 2, mean), vec![2.0, 0.0]);
}

#[test]
fn drops_a_trailing_partial_frame() {
    // 5 samples at 2 channels: last sample has no pair and is dropped.
    let input = [1.0, 1.0, 2.0, 2.0, 99.0];
    assert_eq!(downmix_to_mono(&input, 2, mean), vec![1.0, 2.0]);
}

#[test]
fn zero_channels_is_treated_as_mono() {
    let input = [0.5, 0.6];
    assert_eq!(downmix_to_mono(&input, 0, mean), vec![0.5, 0.6]);
}
