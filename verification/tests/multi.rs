use openvoice::hotkey::{route, ChordDetector, EdgeDetector, HotkeyEvent, HotkeySlot};
use openvoice::key::{EventType, HotkeyKey as Key};

fn detectors() -> (ChordDetector, EdgeDetector) {
    (
        ChordDetector::new(Key::ControlRight, Key::ShiftRight),
        EdgeDetector::new(Key::AltGr),
    )
}

#[test]
fn one_ptt_key_alone_does_not_route_as_pressed() {
    let (mut ptt, mut hf) = detectors();
    assert_eq!(
        route(&mut ptt, &mut hf, &EventType::KeyPress(Key::ControlRight)),
        None
    );
}

#[test]
fn both_ptt_keys_together_route_to_push_to_talk_slot() {
    let (mut ptt, mut hf) = detectors();
    route(&mut ptt, &mut hf, &EventType::KeyPress(Key::ControlRight));
    assert_eq!(
        route(&mut ptt, &mut hf, &EventType::KeyPress(Key::ShiftRight)),
        Some((HotkeySlot::PushToTalk, HotkeyEvent::Pressed))
    );
}

#[test]
fn routes_hands_free_key_to_hands_free_slot() {
    let (mut ptt, mut hf) = detectors();
    assert_eq!(
        route(&mut ptt, &mut hf, &EventType::KeyPress(Key::AltGr)),
        Some((HotkeySlot::HandsFreeToggle, HotkeyEvent::Pressed))
    );
}

#[test]
fn unrelated_key_routes_to_neither() {
    let (mut ptt, mut hf) = detectors();
    assert_eq!(route(&mut ptt, &mut hf, &EventType::KeyPress(Key::KeyA)), None);
}

#[test]
fn the_two_detectors_track_independent_held_state() {
    let (mut ptt, mut hf) = detectors();
    // Hold push-to-talk down (both chord keys)...
    route(&mut ptt, &mut hf, &EventType::KeyPress(Key::ControlRight));
    assert_eq!(
        route(&mut ptt, &mut hf, &EventType::KeyPress(Key::ShiftRight)),
        Some((HotkeySlot::PushToTalk, HotkeyEvent::Pressed))
    );
    // ...tapping hands-free while it's held doesn't get swallowed or
    // confused with push-to-talk's held state.
    assert_eq!(
        route(&mut ptt, &mut hf, &EventType::KeyPress(Key::AltGr)),
        Some((HotkeySlot::HandsFreeToggle, HotkeyEvent::Pressed))
    );
    assert_eq!(
        route(&mut ptt, &mut hf, &EventType::KeyRelease(Key::AltGr)),
        Some((HotkeySlot::HandsFreeToggle, HotkeyEvent::Released))
    );
    // Push-to-talk chord is still held.
    assert_eq!(
        route(&mut ptt, &mut hf, &EventType::KeyPress(Key::ControlRight)),
        None,
        "still held -- OS repeat, not a new press"
    );
    assert_eq!(
        route(&mut ptt, &mut hf, &EventType::KeyRelease(Key::ControlRight)),
        Some((HotkeySlot::PushToTalk, HotkeyEvent::Released))
    );
}
