use openvoice::hotkey::{EdgeDetector, HotkeyEvent};
use openvoice::key::{EventType, HotkeyKey as Key};

#[test]
fn press_then_release_yields_one_transition_each() {
    let mut d = EdgeDetector::new(Key::ControlRight);
    assert_eq!(
        d.handle(&EventType::KeyPress(Key::ControlRight)),
        Some(HotkeyEvent::Pressed)
    );
    assert_eq!(
        d.handle(&EventType::KeyRelease(Key::ControlRight)),
        Some(HotkeyEvent::Released)
    );
}

#[test]
fn os_level_key_repeat_only_fires_once() {
    let mut d = EdgeDetector::new(Key::ControlRight);
    assert_eq!(
        d.handle(&EventType::KeyPress(Key::ControlRight)),
        Some(HotkeyEvent::Pressed)
    );
    for _ in 0..10 {
        assert_eq!(d.handle(&EventType::KeyPress(Key::ControlRight)), None);
    }
    assert_eq!(
        d.handle(&EventType::KeyRelease(Key::ControlRight)),
        Some(HotkeyEvent::Released)
    );
}

#[test]
fn release_while_already_up_is_ignored() {
    let mut d = EdgeDetector::new(Key::ControlRight);
    assert_eq!(d.handle(&EventType::KeyRelease(Key::ControlRight)), None);
}

#[test]
fn edge_unrelated_keys_are_ignored() {
    let mut d = EdgeDetector::new(Key::ControlRight);
    assert_eq!(d.handle(&EventType::KeyPress(Key::KeyA)), None);
    assert_eq!(d.handle(&EventType::KeyRelease(Key::KeyA)), None);
    assert!(!d.is_down());
}

#[test]
fn non_keyboard_events_are_ignored() {
    let mut d = EdgeDetector::new(Key::ControlRight);
    assert_eq!(d.handle(&EventType::Other), None);
}

#[test]
fn supports_multiple_press_release_cycles() {
    let mut d = EdgeDetector::new(Key::ControlRight);
    for _ in 0..3 {
        assert_eq!(
            d.handle(&EventType::KeyPress(Key::ControlRight)),
            Some(HotkeyEvent::Pressed)
        );
        assert_eq!(
            d.handle(&EventType::KeyRelease(Key::ControlRight)),
            Some(HotkeyEvent::Released)
        );
    }
}

#[test]
fn is_down_reflects_current_state() {
    let mut d = EdgeDetector::new(Key::ControlRight);
    assert!(!d.is_down());
    d.handle(&EventType::KeyPress(Key::ControlRight));
    assert!(d.is_down());
    d.handle(&EventType::KeyRelease(Key::ControlRight));
    assert!(!d.is_down());
}
