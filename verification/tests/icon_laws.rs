use openvoice::icon::{
    render_mic_icon, state_background_rgba, GLYPH_COLOR, GOLDEN_AMBER, MUSTARD, RUST, SAGE,
    TERRACOTTA, WARM_NEUTRAL,
};
use openvoice::status::PipelineStatus;

const DISC: [u8; 4] = [10, 20, 30, 255];
const CLEAR: [u8; 4] = [0, 0, 0, 0];

fn picture(size: u32) -> Vec<String> {
    let buf = render_mic_icon(size, DISC, GLYPH_COLOR);
    buf.chunks_exact(4 * size as usize)
        .map(|row| {
            row.chunks_exact(4)
                .map(|px| {
                    if px == GLYPH_COLOR {
                        '#'
                    } else if px == DISC {
                        'o'
                    } else {
                        assert_eq!(px, CLEAR);
                        '.'
                    }
                })
                .collect()
        })
        .collect()
}

#[test]
fn sixteen_pixels_make_a_microphone_on_a_disc() {
    assert_eq!(
        picture(16),
        vec![
            "................",
            ".....oooooo.....",
            "...oooooooooo...",
            "..ooooo##ooooo..",
            "..oooo####oooo..",
            ".ooooo####ooooo.",
            ".ooooo####ooooo.",
            ".ooooo####ooooo.",
            ".ooooo####ooooo.",
            ".oooooo##oooooo.",
            ".oooooo##oooooo.",
            "..ooooo##ooooo..",
            "..oooo####oooo..",
            "...oooooooooo...",
            ".....oooooo.....",
            "................",
        ]
    );
}

#[test]
fn the_icon_mirrors_itself_and_has_clear_corners() {
    for size in [3, 16, 31, 32] {
        let rows = picture(size);
        for row in &rows {
            let mirrored: String = row.chars().rev().collect();
            assert_eq!(&mirrored, row);
        }
        for corner in [&rows[0], &rows[size as usize - 1]] {
            assert!(corner.starts_with('.') && corner.ends_with('.'));
        }
        let middle = size as usize / 2;
        assert_ne!(rows[middle].as_bytes()[middle], b'.');
    }
    assert_eq!(render_mic_icon(0, DISC, GLYPH_COLOR), Vec::<u8>::new());
}

#[test]
fn states_look_alike_only_in_one_mode() {
    let mut colours = vec![WARM_NEUTRAL, TERRACOTTA, GOLDEN_AMBER, MUSTARD, SAGE, RUST];
    colours.sort();
    colours.dedup();
    assert_eq!(colours.len(), 6);
}

#[test]
fn each_state_has_its_colour() {
    let text = || "x".to_string();
    let ready = PipelineStatus::Ready { mic_name: text(), cleanup_enabled: true };
    assert_eq!(state_background_rgba(&ready), WARM_NEUTRAL);
    assert_eq!(state_background_rgba(&PipelineStatus::Recording), TERRACOTTA);
    assert_eq!(state_background_rgba(&PipelineStatus::Listening), GOLDEN_AMBER);
    assert_eq!(state_background_rgba(&PipelineStatus::Transcribing), MUSTARD);
    assert_eq!(state_background_rgba(&PipelineStatus::Inserted(text())), SAGE);
    assert_eq!(state_background_rgba(&PipelineStatus::HeardNothing), WARM_NEUTRAL);
    assert_eq!(state_background_rgba(&PipelineStatus::HandsFreeOn), GOLDEN_AMBER);
    assert_eq!(state_background_rgba(&PipelineStatus::HandsFreeOff), WARM_NEUTRAL);
    assert_eq!(state_background_rgba(&PipelineStatus::Warning(text())), RUST);
}
