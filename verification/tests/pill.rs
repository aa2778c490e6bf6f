use openvoice::hotkey::MultiHotkeyConfig;
use openvoice::icon::{LAVENDER, MUSTARD, RUST, SAGE, TERRACOTTA};
use openvoice::pill::{repaint_millis, settings_labels, truncate, MenuChoice, Pill};
use openvoice::status::{ControlEvent, PipelineStatus};

fn looks(pill: &Pill) -> Option<([u8; 4], String, bool)> {
    pill.face().map(|face| (face.color, face.label, face.animate))
}

#[test]
fn the_settings_name_the_microphone_and_the_keys() {
    let labels = settings_labels("Mic 1", &MultiHotkeyConfig::default());
    assert_eq!(labels.microphone, "Microphone: Mic 1");
    assert_eq!(labels.push_to_talk, "Push-to-talk: hold ControlLeft + ShiftLeft");
    assert_eq!(labels.hands_free, "Hands-free: tap AltGr to toggle");
}

#[test]
fn a_pill_shows_each_state() {
    let mut pill = Pill::new();
    assert_eq!(looks(&pill), None);
    pill.apply_status(PipelineStatus::Recording, 0);
    assert_eq!(looks(&pill), Some((TERRACOTTA, "Listening…".to_string(), true)));
    pill.apply_status(PipelineStatus::Transcribing, 0);
    assert_eq!(looks(&pill), Some((MUSTARD, "Cleaning up…".to_string(), false)));
    pill.apply_status(PipelineStatus::HeardNothing, 0);
    assert_eq!(looks(&pill), None);
    pill.apply_status(PipelineStatus::HandsFreeOn, 0);
    assert_eq!(looks(&pill), None);
    pill.apply_status(PipelineStatus::Listening, 0);
    assert_eq!(looks(&pill), Some((LAVENDER, "Listening…".to_string(), true)));
    pill.apply_status(PipelineStatus::HandsFreeOff, 0);
    assert_eq!(looks(&pill), None);
}

#[test]
fn a_flash_passes_after_its_time() {
    let mut pill = Pill::new();
    pill.apply_status(PipelineStatus::Inserted("done".to_string()), 1_000);
    pill.expire_flash(2_799);
    assert_eq!(looks(&pill), Some((SAGE, "done".to_string(), false)));
    pill.expire_flash(2_800);
    assert_eq!(looks(&pill), None);
    pill.apply_status(PipelineStatus::HandsFreeOn, 3_000);
    pill.apply_status(PipelineStatus::Warning("oh".to_string()), 3_000);
    pill.expire_flash(500);
    assert_eq!(looks(&pill), Some((RUST, "oh".to_string(), false)));
    pill.expire_flash(9_000);
    assert_eq!(looks(&pill), Some((LAVENDER, "Listening…".to_string(), true)));
    pill.expire_flash(99_000);
    assert_eq!(looks(&pill), Some((LAVENDER, "Listening…".to_string(), true)));
}

#[test]
fn long_text_is_cut_with_an_ellipsis() {
    assert_eq!(truncate("hello", 5), "hello");
    assert_eq!(truncate("hello!", 5), "hell…");
    assert_eq!(truncate("äöüß", 3), "äö…");
    assert_eq!(truncate("x", 0), "…");
    assert_eq!(truncate("", 0), "");
    let mut pill = Pill::new();
    pill.apply_status(PipelineStatus::Inserted("a".repeat(61)), 0);
    assert_eq!(looks(&pill).unwrap().1, format!("{}…", "a".repeat(59)));
}

#[test]
fn the_menu_says_what_a_hotkey_would() {
    let mut pill = Pill::new();
    assert_eq!(pill.on_menu(MenuChoice::HandsFree), Some(ControlEvent::HandsFreeTogglePressed));
    assert_eq!(pill.on_menu(MenuChoice::Quit), Some(ControlEvent::Quit));
    assert!(!pill.settings_shown());
    assert_eq!(pill.on_menu(MenuChoice::Settings), None);
    assert!(pill.settings_shown());
    pill.close_settings();
    assert!(!pill.settings_shown());
}

#[test]
fn cleanup_can_be_switched_where_it_is_loaded() {
    let mut pill = Pill::new();
    assert!(!pill.cleanup_switchable() && !pill.cleanup_enabled());
    let ready = PipelineStatus::Ready { mic_name: "m".to_string(), cleanup_enabled: true };
    pill.apply_status(ready, 0);
    assert!(pill.cleanup_switchable() && pill.cleanup_enabled());
    assert_eq!(pill.set_cleanup_enabled(false), ControlEvent::SetCleanupEnabled(false));
    assert!(pill.cleanup_switchable() && !pill.cleanup_enabled());
}

#[test]
fn moving_bars_are_redrawn_sooner() {
    assert_eq!(repaint_millis(true), 50);
    assert_eq!(repaint_millis(false), 100);
}
