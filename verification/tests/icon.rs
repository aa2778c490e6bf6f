use openvoice::icon::{
    render_mic_icon, state_background_rgba, CREAM_BACKGROUND, GLYPH_COLOR, WARM_TEXT,
};
use openvoice::status::PipelineStatus;

#[test]
fn buffer_has_correct_length_for_size() {
    let buf = render_mic_icon(32, [10, 20, 30, 255], GLYPH_COLOR);
    assert_eq!(buf.len(), 32 * 32 * 4);
}

#[test]
fn corners_are_transparent_outside_the_circle() {
    let size = 32;
    let buf = render_mic_icon(size, [10, 20, 30, 255], GLYPH_COLOR);
    let idx = 0; // top-left corner pixel
    assert_eq!(&buf[idx..idx + 4], &[0, 0, 0, 0]);
}

#[test]
fn center_of_circle_is_background_or_glyph_but_not_transparent() {
    let size = 32;
    let background = [10, 20, 30, 255];
    let buf = render_mic_icon(size, background, GLYPH_COLOR);
    let cx = size / 2;
    let cy = size / 2;
    let idx = ((cy * size + cx) * 4) as usize;
    assert_ne!(buf[idx + 3], 0, "center pixel should be opaque (circle interior)");
}

#[test]
fn some_pixels_are_drawn_in_the_glyph_color() {
    let size = 32;
    let buf = render_mic_icon(size, [10, 20, 30, 255], GLYPH_COLOR);
    let has_glyph_pixel = buf
        .chunks_exact(4)
        .any(|px| px == GLYPH_COLOR);
    assert!(has_glyph_pixel, "expected at least one glyph-colored pixel");
}

#[test]
fn different_sizes_all_produce_a_valid_buffer() {
    for size in [16, 24, 32, 64] {
        let buf = render_mic_icon(size, [1, 2, 3, 255], GLYPH_COLOR);
        assert_eq!(buf.len(), (size * size * 4) as usize);
    }
}

#[test]
fn state_colors_are_distinct_for_active_vs_idle() {
    let idle = state_background_rgba(&PipelineStatus::HeardNothing);
    let recording = state_background_rgba(&PipelineStatus::Recording);
    assert_ne!(idle, recording);
}

#[test]
fn warm_text_has_real_contrast_against_the_cream_pill_background() {
    // Not a full WCAG contrast-ratio check -- just a floor against
    // shipping near-invisible text if someone tweaks either color
    // later. Sum of per-channel difference is a cheap, good-enough
    // proxy for "these are clearly different tones."
    let diff: i32 = CREAM_BACKGROUND
        .iter()
        .zip(WARM_TEXT.iter())
        .take(3) // RGB only, ignore alpha
        .map(|(&a, &b)| (a as i32 - b as i32).abs())
        .sum();
    assert!(diff > 300, "text/background too close in tone: diff={diff}");
}
