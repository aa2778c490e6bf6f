use openvoice::hotkey::{ChordDetector, HotkeyEvent};
use openvoice::key::{EventType, HotkeyKey as Key};

fn detector() -> ChordDetector {
    ChordDetector::new(Key::ControlRight, Key::ShiftRight)
}

#[test]
fn neither_key_alone_fires_pressed() {
    let mut d = detector();
    assert_eq!(d.handle(&EventType::KeyPress(Key::ControlRight)), None);
    assert!(!d.is_down());
    let mut d2 = detector();
    assert_eq!(d2.handle(&EventType::KeyPress(Key::ShiftRight)), None);
    assert!(!d2.is_down());
}

#[test]
fn both_keys_down_fires_pressed_once() {
    let mut d = detector();
    assert_eq!(d.handle(&EventType::KeyPress(Key::ControlRight)), None);
    assert_eq!(
        d.handle(&EventType::KeyPress(Key::ShiftRight)),
        Some(HotkeyEvent::Pressed)
    );
    assert!(d.is_down());
}

#[test]
fn order_of_the_two_keys_does_not_matter() {
    let mut d = detector();
    assert_eq!(d.handle(&EventType::KeyPress(Key::ShiftRight)), None);
    assert_eq!(
        d.handle(&EventType::KeyPress(Key::ControlRight)),
        Some(HotkeyEvent::Pressed)
    );
}

#[test]
fn os_key_repeat_on_either_key_does_not_refire_pressed() {
    let mut d = detector();
    d.handle(&EventType::KeyPress(Key::ControlRight));
    d.handle(&EventType::KeyPress(Key::ShiftRight));
    for _ in 0..5 {
        assert_eq!(d.handle(&EventType::KeyPress(Key::ControlRight)), None);
        assert_eq!(d.handle(&EventType::KeyPress(Key::ShiftRight)), None);
    }
}

#[test]
fn releasing_either_key_fires_released() {
    let mut d = detector();
    d.handle(&EventType::KeyPress(Key::ControlRight));
    d.handle(&EventType::KeyPress(Key::ShiftRight));
    assert_eq!(
        d.handle(&EventType::KeyRelease(Key::ControlRight)),
        Some(HotkeyEvent::Released)
    );
    assert!(!d.is_down());

    let mut d2 = detector();
    d2.handle(&EventType::KeyPress(Key::ControlRight));
    d2.handle(&EventType::KeyPress(Key::ShiftRight));
    assert_eq!(
        d2.handle(&EventType::KeyRelease(Key::ShiftRight)),
        Some(HotkeyEvent::Released)
    );
}

#[test]
fn releasing_one_key_then_the_other_only_fires_released_once() {
    let mut d = detector();
    d.handle(&EventType::KeyPress(Key::ControlRight));
    d.handle(&EventType::KeyPress(Key::ShiftRight));
    assert_eq!(
        d.handle(&EventType::KeyRelease(Key::ControlRight)),
        Some(HotkeyEvent::Released)
    );
    // The second key releasing afterward is not a new transition --
    // the chord already ended when the first one let go.
    assert_eq!(d.handle(&EventType::KeyRelease(Key::ShiftRight)), None);
}

#[test]
fn re_pressing_after_a_release_fires_pressed_again() {
    let mut d = detector();
    d.handle(&EventType::KeyPress(Key::ControlRight));
    d.handle(&EventType::KeyPress(Key::ShiftRight));
    d.handle(&EventType::KeyRelease(Key::ControlRight));
    d.handle(&EventType::KeyRelease(Key::ShiftRight));
    assert_eq!(d.handle(&EventType::KeyPress(Key::ControlRight)), None);
    assert_eq!(
        d.handle(&EventType::KeyPress(Key::ShiftRight)),
        Some(HotkeyEvent::Pressed)
    );
}

#[test]
fn chord_unrelated_keys_are_ignored() {
    let mut d = detector();
    assert_eq!(d.handle(&EventType::KeyPress(Key::KeyA)), None);
    assert_eq!(d.handle(&EventType::KeyRelease(Key::KeyA)), None);
    assert!(!d.is_down());
}
