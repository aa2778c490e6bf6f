use openvoice::key::HotkeyKey as Key;
use openvoice::winkey::{is_physically_down, to_vk_code};

#[test]
fn maps_the_default_push_to_talk_chord() {
    // MultiHotkeyConfig::default()'s actual keys -- if this mapping
    // regresses, the watchdog silently stops protecting the one
    // chord everyone actually uses.
    assert_eq!(to_vk_code(Key::ControlLeft), Some(0xA2)); // VK_LCONTROL
    assert_eq!(to_vk_code(Key::ShiftLeft), Some(0xA0)); // VK_LSHIFT
    assert_eq!(to_vk_code(Key::AltGr), Some(0xA5)); // VK_RMENU
}

#[test]
fn letters_and_digits_map_to_their_ascii_codes() {
    assert_eq!(to_vk_code(Key::KeyA), Some(b'A' as u16));
    assert_eq!(to_vk_code(Key::Num5), Some(b'5' as u16));
}

#[test]
fn unmapped_keys_return_none() {
    assert_eq!(to_vk_code(Key::LeftArrow), None);
    assert_eq!(to_vk_code(Key::Unknown(0)), None);
}

#[test]
fn unmapped_key_is_assumed_physically_down() {
    // The safe default: never force a release for a key this
    // module can't actually check.
    assert!(is_physically_down(Key::LeftArrow, |_| 0));
}
