use openvoice::hotkey::MultiHotkeyConfig;
use openvoice::key::{EventType, HotkeyKey};
use openvoice::listener::HotkeyListener;
use openvoice::status::{console_line, ConsoleLine, ControlEvent, PipelineStatus};

const CTRL_DOWN: EventType = EventType::KeyPress(HotkeyKey::ControlLeft);
const CTRL_UP: EventType = EventType::KeyRelease(HotkeyKey::ControlLeft);
const SHIFT_DOWN: EventType = EventType::KeyPress(HotkeyKey::ShiftLeft);
const SHIFT_UP: EventType = EventType::KeyRelease(HotkeyKey::ShiftLeft);
const TOGGLE_DOWN: EventType = EventType::KeyPress(HotkeyKey::AltGr);
const TOGGLE_UP: EventType = EventType::KeyRelease(HotkeyKey::AltGr);

fn listener() -> HotkeyListener {
    HotkeyListener::new(&MultiHotkeyConfig::default())
}

#[test]
fn hotkeys_tell_the_pipeline_what_to_do() {
    let mut keys = listener();
    assert_eq!(keys.handle(&CTRL_DOWN, false), None);
    assert_eq!(keys.handle(&SHIFT_DOWN, false), Some(ControlEvent::PushToTalkPressed));
    assert_eq!(keys.handle(&SHIFT_DOWN, false), None);
    assert_eq!(keys.handle(&CTRL_UP, false), Some(ControlEvent::PushToTalkReleased));
    assert_eq!(keys.handle(&SHIFT_UP, false), None);
    assert_eq!(keys.handle(&TOGGLE_DOWN, false), Some(ControlEvent::HandsFreeTogglePressed));
    assert_eq!(keys.handle(&TOGGLE_UP, false), None);
}

#[test]
fn no_hotkey_is_heard_during_an_insertion() {
    let mut keys = listener();
    for event in [CTRL_DOWN, SHIFT_DOWN, SHIFT_UP, CTRL_UP, TOGGLE_DOWN, TOGGLE_UP] {
        assert_eq!(keys.handle(&event, true), None);
    }
    assert_eq!(keys.handle(&TOGGLE_DOWN, false), Some(ControlEvent::HandsFreeTogglePressed));
}

#[test]
fn the_releases_of_an_insertion_are_not_the_users() {
    let mut keys = listener();
    keys.handle(&CTRL_DOWN, false);
    assert_eq!(keys.handle(&SHIFT_DOWN, false), Some(ControlEvent::PushToTalkPressed));
    for event in [SHIFT_UP, CTRL_DOWN, CTRL_UP] {
        assert_eq!(keys.handle(&event, true), None);
    }
    assert_eq!(keys.handle(&CTRL_UP, false), Some(ControlEvent::PushToTalkReleased));
}

fn printed(previous: Option<PipelineStatus>, status: PipelineStatus) -> Option<ConsoleLine> {
    console_line(previous.as_ref(), &status)
}

fn line(text: &str) -> Option<ConsoleLine> {
    Some(ConsoleLine { warning: false, text: text.to_string() })
}

#[test]
fn the_console_says_what_goes_on() {
    let ready = PipelineStatus::Ready { mic_name: "m".to_string(), cleanup_enabled: true };
    assert_eq!(printed(None, ready), None);
    assert_eq!(printed(None, PipelineStatus::Transcribing), None);
    assert_eq!(printed(None, PipelineStatus::Inserted("t".to_string())), None);
    assert_eq!(
        printed(None, PipelineStatus::Recording),
        line("Recording... (with 500ms pre-roll)")
    );
    assert_eq!(
        printed(Some(PipelineStatus::HandsFreeOn), PipelineStatus::Listening),
        line("Listening... (with 500ms pre-roll)")
    );
    assert_eq!(
        printed(Some(PipelineStatus::HeardNothing), PipelineStatus::Listening),
        line("Listening...")
    );
    assert_eq!(printed(None, PipelineStatus::Listening), line("Listening..."));
    assert_eq!(printed(None, PipelineStatus::HeardNothing), line("(heard nothing)"));
    assert_eq!(
        printed(None, PipelineStatus::HandsFreeOn),
        line("Hands-free mode: ON (VAD silence commits each utterance)")
    );
    assert_eq!(printed(None, PipelineStatus::HandsFreeOff), line("Hands-free mode: OFF"));
    assert_eq!(
        printed(None, PipelineStatus::Warning("why".to_string())),
        Some(ConsoleLine { warning: true, text: "warning: why".to_string() })
    );
}
