use openvoice::hotkey::{
    detectors, route, ChordDetector, EdgeDetector, HotkeyEvent, HotkeySlot, MultiHotkeyConfig,
};
use openvoice::key::{EventType, HotkeyKey};
use openvoice::status::{control_event, watchdog_event, ControlEvent};
use openvoice::winkey::{both_physically_down, is_physically_down, to_vk_code};

#[test]
fn the_default_keys_are_left_ctrl_and_left_shift_and_alt_gr() {
    let config = MultiHotkeyConfig::default();
    assert_eq!(config.push_to_talk_keys, (HotkeyKey::ControlLeft, HotkeyKey::ShiftLeft));
    assert_eq!(config.hands_free_toggle_key, HotkeyKey::AltGr);
    let (mut ptt, mut toggle) = detectors(&config);
    route(&mut ptt, &mut toggle, &EventType::KeyPress(HotkeyKey::ShiftLeft));
    assert_eq!(
        route(&mut ptt, &mut toggle, &EventType::KeyPress(HotkeyKey::ControlLeft)),
        Some((HotkeySlot::PushToTalk, HotkeyEvent::Pressed))
    );
    assert_eq!(
        route(&mut ptt, &mut toggle, &EventType::KeyPress(HotkeyKey::AltGr)),
        Some((HotkeySlot::HandsFreeToggle, HotkeyEvent::Pressed))
    );
}

#[test]
fn presses_and_releases_take_turns() {
    let key = HotkeyKey::F5;
    let mut edge = EdgeDetector::new(key);
    let events = [
        EventType::KeyPress(key),
        EventType::KeyPress(key),
        EventType::Other,
        EventType::KeyRelease(HotkeyKey::F6),
        EventType::KeyRelease(key),
        EventType::KeyRelease(key),
        EventType::KeyPress(key),
    ];
    let reports: Vec<HotkeyEvent> = events.iter().filter_map(|e| edge.handle(e)).collect();
    assert_eq!(
        reports,
        vec![HotkeyEvent::Pressed, HotkeyEvent::Released, HotkeyEvent::Pressed]
    );
}

#[test]
fn a_chord_of_one_key_is_never_down() {
    let mut chord = ChordDetector::new(HotkeyKey::KeyA, HotkeyKey::KeyA);
    assert_eq!(chord.handle(&EventType::KeyPress(HotkeyKey::KeyA)), None);
    assert!(!chord.is_down());
}

#[test]
fn both_detectors_take_in_an_event_of_a_shared_key() {
    let mut ptt = ChordDetector::new(HotkeyKey::ControlRight, HotkeyKey::ShiftRight);
    let mut toggle = EdgeDetector::new(HotkeyKey::ShiftRight);
    assert_eq!(
        route(&mut ptt, &mut toggle, &EventType::KeyPress(HotkeyKey::ControlRight)),
        None
    );
    assert_eq!(
        route(&mut ptt, &mut toggle, &EventType::KeyPress(HotkeyKey::ShiftRight)),
        Some((HotkeySlot::PushToTalk, HotkeyEvent::Pressed))
    );
    assert!(ptt.is_down());
    assert!(toggle.is_down());
    assert_eq!(
        route(&mut ptt, &mut toggle, &EventType::KeyRelease(HotkeyKey::ShiftRight)),
        Some((HotkeySlot::PushToTalk, HotkeyEvent::Released))
    );
    assert!(!toggle.is_down());
    assert_eq!(
        route(&mut ptt, &mut toggle, &EventType::KeyRelease(HotkeyKey::ControlRight)),
        None
    );
    assert_eq!(
        route(&mut ptt, &mut toggle, &EventType::KeyPress(HotkeyKey::ShiftRight)),
        Some((HotkeySlot::HandsFreeToggle, HotkeyEvent::Pressed))
    );
}

#[test]
fn hotkeys_tell_the_pipeline_all_but_the_toggles_release() {
    assert_eq!(
        control_event(HotkeySlot::PushToTalk, HotkeyEvent::Pressed),
        Some(ControlEvent::PushToTalkPressed)
    );
    assert_eq!(
        control_event(HotkeySlot::PushToTalk, HotkeyEvent::Released),
        Some(ControlEvent::PushToTalkReleased)
    );
    assert_eq!(
        control_event(HotkeySlot::HandsFreeToggle, HotkeyEvent::Pressed),
        Some(ControlEvent::HandsFreeTogglePressed)
    );
    assert_eq!(control_event(HotkeySlot::HandsFreeToggle, HotkeyEvent::Released), None);
}

#[test]
fn the_watchdog_only_releases_what_is_open_and_not_held() {
    assert_eq!(watchdog_event(true, false), Some(ControlEvent::PushToTalkReleased));
    assert_eq!(watchdog_event(true, true), None);
    assert_eq!(watchdog_event(false, false), None);
    assert_eq!(watchdog_event(false, true), None);
}

#[test]
fn the_high_bit_says_that_a_key_is_down() {
    assert!(is_physically_down(HotkeyKey::KeyA, |code| if code == 0x41 { 0x8000 } else { 0 }));
    assert!(!is_physically_down(HotkeyKey::KeyA, |_| 0x7fff));
    let left_ctrl_only = |code: u16| if code == 0xA2 { 0x8001 } else { 1 };
    assert!(!both_physically_down(HotkeyKey::ControlLeft, HotkeyKey::ShiftLeft, left_ctrl_only));
    assert!(both_physically_down(HotkeyKey::ControlLeft, HotkeyKey::UpArrow, left_ctrl_only));
    assert!(both_physically_down(HotkeyKey::UpArrow, HotkeyKey::Dot, |_| 0));
}

#[test]
fn codes_tell_keys_apart() {
    assert_eq!(to_vk_code(HotkeyKey::Alt), Some(0x12));
    assert_eq!(to_vk_code(HotkeyKey::F1), Some(0x70));
    assert_eq!(to_vk_code(HotkeyKey::F12), Some(0x7B));
    assert_eq!(to_vk_code(HotkeyKey::KeyZ), Some(0x5A));
    assert_eq!(to_vk_code(HotkeyKey::MetaLeft), Some(0x5B));
    assert_eq!(to_vk_code(HotkeyKey::Num0), Some(0x30));
    assert_eq!(to_vk_code(HotkeyKey::Kp0), None);
}
