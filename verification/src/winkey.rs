//! Asking the operating system whether a key is physically down.
//!
//! A global keyboard hook on Windows can lose an event, and a lost release
//! would leave push-to-talk stuck open. The system's own idea of what is held
//! does not depend on the hook.

use vstd::prelude::*;

use crate::key::{name_of, HotkeyKey};

verus! {

pub const VK_MENU: u16 = 0x12;

pub const VK_RMENU: u16 = 0xA5;

pub const VK_LCONTROL: u16 = 0xA2;

pub const VK_RCONTROL: u16 = 0xA3;

pub const VK_LSHIFT: u16 = 0xA0;

pub const VK_RSHIFT: u16 = 0xA1;

pub const VK_LWIN: u16 = 0x5B;

pub const VK_RWIN: u16 = 0x5C;

pub const VK_CAPITAL: u16 = 0x14;

pub const VK_TAB: u16 = 0x09;

pub const VK_SPACE: u16 = 0x20;

pub const VK_RETURN: u16 = 0x0D;

pub const VK_ESCAPE: u16 = 0x1B;

pub const VK_BACK: u16 = 0x08;

pub const VK_F1: u16 = 0x70;

pub const VK_F2: u16 = 0x71;

pub const VK_F3: u16 = 0x72;

pub const VK_F4: u16 = 0x73;

pub const VK_F5: u16 = 0x74;

pub const VK_F6: u16 = 0x75;

pub const VK_F7: u16 = 0x76;

pub const VK_F8: u16 = 0x77;

pub const VK_F9: u16 = 0x78;

pub const VK_F10: u16 = 0x79;

pub const VK_F11: u16 = 0x7A;

pub const VK_F12: u16 = 0x7B;

/// The code of a key that has a name of its own in Win32.
pub open spec fn named_code(key: HotkeyKey) -> Option<u16> {
    match key {
        HotkeyKey::Alt => Some(VK_MENU),
        HotkeyKey::AltGr => Some(VK_RMENU),
        HotkeyKey::ControlLeft => Some(VK_LCONTROL),
        HotkeyKey::ControlRight => Some(VK_RCONTROL),
        HotkeyKey::ShiftLeft => Some(VK_LSHIFT),
        HotkeyKey::ShiftRight => Some(VK_RSHIFT),
        HotkeyKey::MetaLeft => Some(VK_LWIN),
        HotkeyKey::MetaRight => Some(VK_RWIN),
        HotkeyKey::CapsLock => Some(VK_CAPITAL),
        HotkeyKey::Tab => Some(VK_TAB),
        HotkeyKey::Space => Some(VK_SPACE),
        HotkeyKey::Return => Some(VK_RETURN),
        HotkeyKey::Escape => Some(VK_ESCAPE),
        HotkeyKey::Backspace => Some(VK_BACK),
        HotkeyKey::F1 => Some(VK_F1),
        HotkeyKey::F2 => Some(VK_F2),
        HotkeyKey::F3 => Some(VK_F3),
        HotkeyKey::F4 => Some(VK_F4),
        HotkeyKey::F5 => Some(VK_F5),
        HotkeyKey::F6 => Some(VK_F6),
        HotkeyKey::F7 => Some(VK_F7),
        HotkeyKey::F8 => Some(VK_F8),
        HotkeyKey::F9 => Some(VK_F9),
        HotkeyKey::F10 => Some(VK_F10),
        HotkeyKey::F11 => Some(VK_F11),
        HotkeyKey::F12 => Some(VK_F12),
        _ => None,
    }
}

/// The character of a letter or digit key.
pub open spec fn character_of(key: HotkeyKey) -> Option<char> {
    match key {
        HotkeyKey::KeyA => Some('A'),
        HotkeyKey::KeyB => Some('B'),
        HotkeyKey::KeyC => Some('C'),
        HotkeyKey::KeyD => Some('D'),
        HotkeyKey::KeyE => Some('E'),
        HotkeyKey::KeyF => Some('F'),
        HotkeyKey::KeyG => Some('G'),
        HotkeyKey::KeyH => Some('H'),
        HotkeyKey::KeyI => Some('I'),
        HotkeyKey::KeyJ => Some('J'),
        HotkeyKey::KeyK => Some('K'),
        HotkeyKey::KeyL => Some('L'),
        HotkeyKey::KeyM => Some('M'),
        HotkeyKey::KeyN => Some('N'),
        HotkeyKey::KeyO => Some('O'),
        HotkeyKey::KeyP => Some('P'),
        HotkeyKey::KeyQ => Some('Q'),
        HotkeyKey::KeyR => Some('R'),
        HotkeyKey::KeyS => Some('S'),
        HotkeyKey::KeyT => Some('T'),
        HotkeyKey::KeyU => Some('U'),
        HotkeyKey::KeyV => Some('V'),
        HotkeyKey::KeyW => Some('W'),
        HotkeyKey::KeyX => Some('X'),
        HotkeyKey::KeyY => Some('Y'),
        HotkeyKey::KeyZ => Some('Z'),
        HotkeyKey::Num0 => Some('0'),
        HotkeyKey::Num1 => Some('1'),
        HotkeyKey::Num2 => Some('2'),
        HotkeyKey::Num3 => Some('3'),
        HotkeyKey::Num4 => Some('4'),
        HotkeyKey::Num5 => Some('5'),
        HotkeyKey::Num6 => Some('6'),
        HotkeyKey::Num7 => Some('7'),
        HotkeyKey::Num8 => Some('8'),
        HotkeyKey::Num9 => Some('9'),
        _ => None,
    }
}

/// The Win32 virtual-key code of `key`: letters and digits have their ASCII
/// codes.
pub open spec fn vk_code(key: HotkeyKey) -> Option<u16> {
    match character_of(key) {
        Some(c) => Some(c as u16),
        None => named_code(key),
    }
}

/// Maps the keys that a hotkey is likely to use to their virtual-key codes.
/// The rest have none here.
pub fn to_vk_code(key: HotkeyKey) -> (code: Option<u16>)
    ensures
        code == vk_code(key),
{
    match key {
        HotkeyKey::Alt => Some(VK_MENU),
        HotkeyKey::AltGr => Some(VK_RMENU),
        HotkeyKey::ControlLeft => Some(VK_LCONTROL),
        HotkeyKey::ControlRight => Some(VK_RCONTROL),
        HotkeyKey::ShiftLeft => Some(VK_LSHIFT),
        HotkeyKey::ShiftRight => Some(VK_RSHIFT),
        HotkeyKey::MetaLeft => Some(VK_LWIN),
        HotkeyKey::MetaRight => Some(VK_RWIN),
        HotkeyKey::CapsLock => Some(VK_CAPITAL),
        HotkeyKey::Tab => Some(VK_TAB),
        HotkeyKey::Space => Some(VK_SPACE),
        HotkeyKey::Return => Some(VK_RETURN),
        HotkeyKey::Escape => Some(VK_ESCAPE),
        HotkeyKey::Backspace => Some(VK_BACK),
        HotkeyKey::F1 => Some(VK_F1),
        HotkeyKey::F2 => Some(VK_F2),
        HotkeyKey::F3 => Some(VK_F3),
        HotkeyKey::F4 => Some(VK_F4),
        HotkeyKey::F5 => Some(VK_F5),
        HotkeyKey::F6 => Some(VK_F6),
        HotkeyKey::F7 => Some(VK_F7),
        HotkeyKey::F8 => Some(VK_F8),
        HotkeyKey::F9 => Some(VK_F9),
        HotkeyKey::F10 => Some(VK_F10),
        HotkeyKey::F11 => Some(VK_F11),
        HotkeyKey::F12 => Some(VK_F12),
        HotkeyKey::KeyA => Some(0x41),
        HotkeyKey::KeyB => Some(0x42),
        HotkeyKey::KeyC => Some(0x43),
        HotkeyKey::KeyD => Some(0x44),
        HotkeyKey::KeyE => Some(0x45),
        HotkeyKey::KeyF => Some(0x46),
        HotkeyKey::KeyG => Some(0x47),
        HotkeyKey::KeyH => Some(0x48),
        HotkeyKey::KeyI => Some(0x49),
        HotkeyKey::KeyJ => Some(0x4A),
        HotkeyKey::KeyK => Some(0x4B),
        HotkeyKey::KeyL => Some(0x4C),
        HotkeyKey::KeyM => Some(0x4D),
        HotkeyKey::KeyN => Some(0x4E),
        HotkeyKey::KeyO => Some(0x4F),
        HotkeyKey::KeyP => Some(0x50),
        HotkeyKey::KeyQ => Some(0x51),
        HotkeyKey::KeyR => Some(0x52),
        HotkeyKey::KeyS => Some(0x53),
        HotkeyKey::KeyT => Some(0x54),
        HotkeyKey::KeyU => Some(0x55),
        HotkeyKey::KeyV => Some(0x56),
        HotkeyKey::KeyW => Some(0x57),
        HotkeyKey::KeyX => Some(0x58),
        HotkeyKey::KeyY => Some(0x59),
        HotkeyKey::KeyZ => Some(0x5A),
        HotkeyKey::Num0 => Some(0x30),
        HotkeyKey::Num1 => Some(0x31),
        HotkeyKey::Num2 => Some(0x32),
        HotkeyKey::Num3 => Some(0x33),
        HotkeyKey::Num4 => Some(0x34),
        HotkeyKey::Num5 => Some(0x35),
        HotkeyKey::Num6 => Some(0x36),
        HotkeyKey::Num7 => Some(0x37),
        HotkeyKey::Num8 => Some(0x38),
        HotkeyKey::Num9 => Some(0x39),
        _ => None,
    }
}

/// No two keys share a code.
pub proof fn law_codes_tell_keys_apart(a: HotkeyKey, b: HotkeyKey)
    requires
        vk_code(a) is Some,
        vk_code(a) == vk_code(b),
    ensures
        a == b,
{
}

/// The answer of the system for a virtual-key code, of which the high bit says
/// that the key is down.
pub open spec fn says_down(key_state: u16) -> bool {
    key_state >= 0x8000
}

/// Whether `key` is physically held right now, by what `key_state` answers for
/// its code. A key without a code is taken to be held: the answer only ever
/// serves to force a release, and not knowing is no reason to force one.
pub fn is_physically_down<F: Fn(u16) -> u16>(key: HotkeyKey, key_state: F) -> (down: bool)
    requires
        forall|code: u16| #[trigger] call_requires(key_state, (code,)),
    ensures
        vk_code(key) is None ==> down,
        vk_code(key) matches Some(code) ==> exists|answer: u16|
            #[trigger] call_ensures(key_state, (code,), answer) && down == says_down(answer),
{
    match to_vk_code(key) {
        None => true,
        Some(code) => {
            let answer: u16 = key_state(code);
            assert((answer & 0x8000 != 0) == (answer >= 0x8000)) by (bit_vector);
            answer & 0x8000 != 0
        },
    }
}

/// Whether both keys of a chord are physically held right now.
pub fn both_physically_down<F: Fn(u16) -> u16>(a: HotkeyKey, b: HotkeyKey, key_state: F) -> (down:
    bool)
    requires
        forall|code: u16| #[trigger] call_requires(key_state, (code,)),
    ensures
        vk_code(a) is None && vk_code(b) is None ==> down,
        down ==> (vk_code(a) matches Some(code) ==> exists|answer: u16|
            #[trigger] call_ensures(key_state, (code,), answer) && says_down(answer)),
        down ==> (vk_code(b) matches Some(code) ==> exists|answer: u16|
            #[trigger] call_ensures(key_state, (code,), answer) && says_down(answer)),
        !down ==> (exists|code: u16, answer: u16|
            (vk_code(a) == Some(code) || vk_code(b) == Some(code)) && #[trigger] call_ensures(
                key_state,
                (code,),
                answer,
            ) && !says_down(answer)),
{
    is_physically_down(a, &key_state) && is_physically_down(b, &key_state)
}

/// The codes by number, as Win32 has them.
pub proof fn law_the_codes(key: HotkeyKey)
    ensures
        vk_code(key) == match key {
            HotkeyKey::Alt => Some(0x12u16),
            HotkeyKey::AltGr => Some(0xA5u16),
            HotkeyKey::ControlLeft => Some(0xA2u16),
            HotkeyKey::ControlRight => Some(0xA3u16),
            HotkeyKey::ShiftLeft => Some(0xA0u16),
            HotkeyKey::ShiftRight => Some(0xA1u16),
            HotkeyKey::MetaLeft => Some(0x5Bu16),
            HotkeyKey::MetaRight => Some(0x5Cu16),
            HotkeyKey::CapsLock => Some(0x14u16),
            HotkeyKey::Tab => Some(0x09u16),
            HotkeyKey::Space => Some(0x20u16),
            HotkeyKey::Return => Some(0x0Du16),
            HotkeyKey::Escape => Some(0x1Bu16),
            HotkeyKey::Backspace => Some(0x08u16),
            HotkeyKey::F1 => Some(0x70u16),
            HotkeyKey::F2 => Some(0x71u16),
            HotkeyKey::F3 => Some(0x72u16),
            HotkeyKey::F4 => Some(0x73u16),
            HotkeyKey::F5 => Some(0x74u16),
            HotkeyKey::F6 => Some(0x75u16),
            HotkeyKey::F7 => Some(0x76u16),
            HotkeyKey::F8 => Some(0x77u16),
            HotkeyKey::F9 => Some(0x78u16),
            HotkeyKey::F10 => Some(0x79u16),
            HotkeyKey::F11 => Some(0x7Au16),
            HotkeyKey::F12 => Some(0x7Bu16),
            HotkeyKey::KeyA => Some(0x41u16),
            HotkeyKey::KeyB => Some(0x42u16),
            HotkeyKey::KeyC => Some(0x43u16),
            HotkeyKey::KeyD => Some(0x44u16),
            HotkeyKey::KeyE => Some(0x45u16),
            HotkeyKey::KeyF => Some(0x46u16),
            HotkeyKey::KeyG => Some(0x47u16),
            HotkeyKey::KeyH => Some(0x48u16),
            HotkeyKey::KeyI => Some(0x49u16),
            HotkeyKey::KeyJ => Some(0x4Au16),
            HotkeyKey::KeyK => Some(0x4Bu16),
            HotkeyKey::KeyL => Some(0x4Cu16),
            HotkeyKey::KeyM => Some(0x4Du16),
            HotkeyKey::KeyN => Some(0x4Eu16),
            HotkeyKey::KeyO => Some(0x4Fu16),
            HotkeyKey::KeyP => Some(0x50u16),
            HotkeyKey::KeyQ => Some(0x51u16),
            HotkeyKey::KeyR => Some(0x52u16),
            HotkeyKey::KeyS => Some(0x53u16),
            HotkeyKey::KeyT => Some(0x54u16),
            HotkeyKey::KeyU => Some(0x55u16),
            HotkeyKey::KeyV => Some(0x56u16),
            HotkeyKey::KeyW => Some(0x57u16),
            HotkeyKey::KeyX => Some(0x58u16),
            HotkeyKey::KeyY => Some(0x59u16),
            HotkeyKey::KeyZ => Some(0x5Au16),
            HotkeyKey::Num0 => Some(0x30u16),
            HotkeyKey::Num1 => Some(0x31u16),
            HotkeyKey::Num2 => Some(0x32u16),
            HotkeyKey::Num3 => Some(0x33u16),
            HotkeyKey::Num4 => Some(0x34u16),
            HotkeyKey::Num5 => Some(0x35u16),
            HotkeyKey::Num6 => Some(0x36u16),
            HotkeyKey::Num7 => Some(0x37u16),
            HotkeyKey::Num8 => Some(0x38u16),
            HotkeyKey::Num9 => Some(0x39u16),
            _ => None,
        },
{
}

/// A key is down where the topmost bit of the answer is set, whatever the others
/// are.
pub proof fn law_the_topmost_bit_tells(key_state: u16)
    ensures
        says_down(key_state) <==> key_state & 0x8000 != 0,
{
    assert((key_state & 0x8000 != 0) == (key_state >= 0x8000)) by (bit_vector);
}

/// The key of a letter or a digit is called after it.
pub proof fn law_letters_and_digits_have_their_names(key: HotkeyKey)
    ensures
        character_of(key) matches Some(c) ==> if '0' <= c <= '9' {
            name_of(key) == seq!['N', 'u', 'm', c]
        } else {
            name_of(key) == seq!['K', 'e', 'y', c]
        },
{
    reveal_strlit("KeyA");
    assert("KeyA"@ =~= seq!['K', 'e', 'y', 'A']);
    reveal_strlit("KeyB");
    assert("KeyB"@ =~= seq!['K', 'e', 'y', 'B']);
    reveal_strlit("KeyC");
    assert("KeyC"@ =~= seq!['K', 'e', 'y', 'C']);
    reveal_strlit("KeyD");
    assert("KeyD"@ =~= seq!['K', 'e', 'y', 'D']);
    reveal_strlit("KeyE");
    assert("KeyE"@ =~= seq!['K', 'e', 'y', 'E']);
    reveal_strlit("KeyF");
    assert("KeyF"@ =~= seq!['K', 'e', 'y', 'F']);
    reveal_strlit("KeyG");
    assert("KeyG"@ =~= seq!['K', 'e', 'y', 'G']);
    reveal_strlit("KeyH");
    assert("KeyH"@ =~= seq!['K', 'e', 'y', 'H']);
    reveal_strlit("KeyI");
    assert("KeyI"@ =~= seq!['K', 'e', 'y', 'I']);
    reveal_strlit("KeyJ");
    assert("KeyJ"@ =~= seq!['K', 'e', 'y', 'J']);
    reveal_strlit("KeyK");
    assert("KeyK"@ =~= seq!['K', 'e', 'y', 'K']);
    reveal_strlit("KeyL");
    assert("KeyL"@ =~= seq!['K', 'e', 'y', 'L']);
    reveal_strlit("KeyM");
    assert("KeyM"@ =~= seq!['K', 'e', 'y', 'M']);
    reveal_strlit("KeyN");
    assert("KeyN"@ =~= seq!['K', 'e', 'y', 'N']);
    reveal_strlit("KeyO");
    assert("KeyO"@ =~= seq!['K', 'e', 'y', 'O']);
    reveal_strlit("KeyP");
    assert("KeyP"@ =~= seq!['K', 'e', 'y', 'P']);
    reveal_strlit("KeyQ");
    assert("KeyQ"@ =~= seq!['K', 'e', 'y', 'Q']);
    reveal_strlit("KeyR");
    assert("KeyR"@ =~= seq!['K', 'e', 'y', 'R']);
    reveal_strlit("KeyS");
    assert("KeyS"@ =~= seq!['K', 'e', 'y', 'S']);
    reveal_strlit("KeyT");
    assert("KeyT"@ =~= seq!['K', 'e', 'y', 'T']);
    reveal_strlit("KeyU");
    assert("KeyU"@ =~= seq!['K', 'e', 'y', 'U']);
    reveal_strlit("KeyV");
    assert("KeyV"@ =~= seq!['K', 'e', 'y', 'V']);
    reveal_strlit("KeyW");
    assert("KeyW"@ =~= seq!['K', 'e', 'y', 'W']);
    reveal_strlit("KeyX");
    assert("KeyX"@ =~= seq!['K', 'e', 'y', 'X']);
    reveal_strlit("KeyY");
    assert("KeyY"@ =~= seq!['K', 'e', 'y', 'Y']);
    reveal_strlit("KeyZ");
    assert("KeyZ"@ =~= seq!['K', 'e', 'y', 'Z']);
    reveal_strlit("Num0");
    assert("Num0"@ =~= seq!['N', 'u', 'm', '0']);
    reveal_strlit("Num1");
    assert("Num1"@ =~= seq!['N', 'u', 'm', '1']);
    reveal_strlit("Num2");
    assert("Num2"@ =~= seq!['N', 'u', 'm', '2']);
    reveal_strlit("Num3");
    assert("Num3"@ =~= seq!['N', 'u', 'm', '3']);
    reveal_strlit("Num4");
    assert("Num4"@ =~= seq!['N', 'u', 'm', '4']);
    reveal_strlit("Num5");
    assert("Num5"@ =~= seq!['N', 'u', 'm', '5']);
    reveal_strlit("Num6");
    assert("Num6"@ =~= seq!['N', 'u', 'm', '6']);
    reveal_strlit("Num7");
    assert("Num7"@ =~= seq!['N', 'u', 'm', '7']);
    reveal_strlit("Num8");
    assert("Num8"@ =~= seq!['N', 'u', 'm', '8']);
    reveal_strlit("Num9");
    assert("Num9"@ =~= seq!['N', 'u', 'm', '9']);
}

} // verus!
