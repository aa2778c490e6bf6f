//! The keys of a keyboard and what happens to them.

use vstd::prelude::*;

use crate::decimal::{decimal, decimal_of};

verus! {

/// A key by its place on a QWERTY keyboard.
#[derive(Debug, Clone, Copy, PartialEq, Eq, Structural)]
pub enum HotkeyKey {
    Alt,
    AltGr,
    Backspace,
    CapsLock,
    ControlLeft,
    ControlRight,
    Delete,
    DownArrow,
    End,
    Escape,
    F1,
    F10,
    F11,
    F12,
    F2,
    F3,
    F4,
    F5,
    F6,
    F7,
    F8,
    F9,
    Home,
    LeftArrow,
    MetaLeft,
    MetaRight,
    PageDown,
    PageUp,
    Return,
    RightArrow,
    ShiftLeft,
    ShiftRight,
    Space,
    Tab,
    UpArrow,
    PrintScreen,
    ScrollLock,
    Pause,
    NumLock,
    BackQuote,
    Num1,
    Num2,
    Num3,
    Num4,
    Num5,
    Num6,
    Num7,
    Num8,
    Num9,
    Num0,
    Minus,
    Equal,
    KeyQ,
    KeyW,
    KeyE,
    KeyR,
    KeyT,
    KeyY,
    KeyU,
    KeyI,
    KeyO,
    KeyP,
    LeftBracket,
    RightBracket,
    KeyA,
    KeyS,
    KeyD,
    KeyF,
    KeyG,
    KeyH,
    KeyJ,
    KeyK,
    KeyL,
    SemiColon,
    Quote,
    BackSlash,
    IntlBackslash,
    KeyZ,
    KeyX,
    KeyC,
    KeyV,
    KeyB,
    KeyN,
    KeyM,
    Comma,
    Dot,
    Slash,
    Insert,
    KpReturn,
    KpMinus,
    KpPlus,
    KpMultiply,
    KpDivide,
    Kp0,
    Kp1,
    Kp2,
    Kp3,
    Kp4,
    Kp5,
    Kp6,
    Kp7,
    Kp8,
    Kp9,
    KpDelete,
    Function,
    Unknown(u32),
}

/// One raw input event, as far as hotkeys look at it.
#[derive(Debug, Clone, Copy, PartialEq, Eq, Structural)]
pub enum EventType {
    KeyPress(HotkeyKey),
    KeyRelease(HotkeyKey),
    /// The mouse, in whatever way.
    Other,
}

/// Whether `key` is down after `event`, where it was `down` before.
pub open spec fn down_after(key: HotkeyKey, down: bool, event: EventType) -> bool {
    match event {
        EventType::KeyPress(k) => k == key || down,
        EventType::KeyRelease(k) => k != key && down,
        EventType::Other => down,
    }
}

/// What a key is called: by its place, or by its number where it has no place.
pub open spec fn name_of(key: HotkeyKey) -> Seq<char> {
    match key {
        HotkeyKey::Alt => "Alt"@,
        HotkeyKey::AltGr => "AltGr"@,
        HotkeyKey::Backspace => "Backspace"@,
        HotkeyKey::CapsLock => "CapsLock"@,
        HotkeyKey::ControlLeft => "ControlLeft"@,
        HotkeyKey::ControlRight => "ControlRight"@,
        HotkeyKey::Delete => "Delete"@,
        HotkeyKey::DownArrow => "DownArrow"@,
        HotkeyKey::End => "End"@,
        HotkeyKey::Escape => "Escape"@,
        HotkeyKey::F1 => "F1"@,
        HotkeyKey::F10 => "F10"@,
        HotkeyKey::F11 => "F11"@,
        HotkeyKey::F12 => "F12"@,
        HotkeyKey::F2 => "F2"@,
        HotkeyKey::F3 => "F3"@,
        HotkeyKey::F4 => "F4"@,
        HotkeyKey::F5 => "F5"@,
        HotkeyKey::F6 => "F6"@,
        HotkeyKey::F7 => "F7"@,
        HotkeyKey::F8 => "F8"@,
        HotkeyKey::F9 => "F9"@,
        HotkeyKey::Home => "Home"@,
        HotkeyKey::LeftArrow => "LeftArrow"@,
        HotkeyKey::MetaLeft => "MetaLeft"@,
        HotkeyKey::MetaRight => "MetaRight"@,
        HotkeyKey::PageDown => "PageDown"@,
        HotkeyKey::PageUp => "PageUp"@,
        HotkeyKey::Return => "Return"@,
        HotkeyKey::RightArrow => "RightArrow"@,
        HotkeyKey::ShiftLeft => "ShiftLeft"@,
        HotkeyKey::ShiftRight => "ShiftRight"@,
        HotkeyKey::Space => "Space"@,
        HotkeyKey::Tab => "Tab"@,
        HotkeyKey::UpArrow => "UpArrow"@,
        HotkeyKey::PrintScreen => "PrintScreen"@,
        HotkeyKey::ScrollLock => "ScrollLock"@,
        HotkeyKey::Pause => "Pause"@,
        HotkeyKey::NumLock => "NumLock"@,
        HotkeyKey::BackQuote => "BackQuote"@,
        HotkeyKey::Num1 => "Num1"@,
        HotkeyKey::Num2 => "Num2"@,
        HotkeyKey::Num3 => "Num3"@,
        HotkeyKey::Num4 => "Num4"@,
        HotkeyKey::Num5 => "Num5"@,
        HotkeyKey::Num6 => "Num6"@,
        HotkeyKey::Num7 => "Num7"@,
        HotkeyKey::Num8 => "Num8"@,
        HotkeyKey::Num9 => "Num9"@,
        HotkeyKey::Num0 => "Num0"@,
        HotkeyKey::Minus => "Minus"@,
        HotkeyKey::Equal => "Equal"@,
        HotkeyKey::KeyQ => "KeyQ"@,
        HotkeyKey::KeyW => "KeyW"@,
        HotkeyKey::KeyE => "KeyE"@,
        HotkeyKey::KeyR => "KeyR"@,
        HotkeyKey::KeyT => "KeyT"@,
        HotkeyKey::KeyY => "KeyY"@,
        HotkeyKey::KeyU => "KeyU"@,
        HotkeyKey::KeyI => "KeyI"@,
        HotkeyKey::KeyO => "KeyO"@,
        HotkeyKey::KeyP => "KeyP"@,
        HotkeyKey::LeftBracket => "LeftBracket"@,
        HotkeyKey::RightBracket => "RightBracket"@,
        HotkeyKey::KeyA => "KeyA"@,
        HotkeyKey::KeyS => "KeyS"@,
        HotkeyKey::KeyD => "KeyD"@,
        HotkeyKey::KeyF => "KeyF"@,
        HotkeyKey::KeyG => "KeyG"@,
        HotkeyKey::KeyH => "KeyH"@,
        HotkeyKey::KeyJ => "KeyJ"@,
        HotkeyKey::KeyK => "KeyK"@,
        HotkeyKey::KeyL => "KeyL"@,
        HotkeyKey::SemiColon => "SemiColon"@,
        HotkeyKey::Quote => "Quote"@,
        HotkeyKey::BackSlash => "BackSlash"@,
        HotkeyKey::IntlBackslash => "IntlBackslash"@,
        HotkeyKey::KeyZ => "KeyZ"@,
        HotkeyKey::KeyX => "KeyX"@,
        HotkeyKey::KeyC => "KeyC"@,
        HotkeyKey::KeyV => "KeyV"@,
        HotkeyKey::KeyB => "KeyB"@,
        HotkeyKey::KeyN => "KeyN"@,
        HotkeyKey::KeyM => "KeyM"@,
        HotkeyKey::Comma => "Comma"@,
        HotkeyKey::Dot => "Dot"@,
        HotkeyKey::Slash => "Slash"@,
        HotkeyKey::Insert => "Insert"@,
        HotkeyKey::KpReturn => "KpReturn"@,
        HotkeyKey::KpMinus => "KpMinus"@,
        HotkeyKey::KpPlus => "KpPlus"@,
        HotkeyKey::KpMultiply => "KpMultiply"@,
        HotkeyKey::KpDivide => "KpDivide"@,
        HotkeyKey::Kp0 => "Kp0"@,
        HotkeyKey::Kp1 => "Kp1"@,
        HotkeyKey::Kp2 => "Kp2"@,
        HotkeyKey::Kp3 => "Kp3"@,
        HotkeyKey::Kp4 => "Kp4"@,
        HotkeyKey::Kp5 => "Kp5"@,
        HotkeyKey::Kp6 => "Kp6"@,
        HotkeyKey::Kp7 => "Kp7"@,
        HotkeyKey::Kp8 => "Kp8"@,
        HotkeyKey::Kp9 => "Kp9"@,
        HotkeyKey::KpDelete => "KpDelete"@,
        HotkeyKey::Function => "Function"@,
        HotkeyKey::Unknown(code) => "Unknown("@ + decimal(code as nat) + ")"@,
    }
}

/// What a key is called.
pub fn key_name(key: HotkeyKey) -> (name: String)
    ensures
        name@ == name_of(key),
{
    match key {
        HotkeyKey::Alt => "Alt".to_owned(),
        HotkeyKey::AltGr => "AltGr".to_owned(),
        HotkeyKey::Backspace => "Backspace".to_owned(),
        HotkeyKey::CapsLock => "CapsLock".to_owned(),
        HotkeyKey::ControlLeft => "ControlLeft".to_owned(),
        HotkeyKey::ControlRight => "ControlRight".to_owned(),
        HotkeyKey::Delete => "Delete".to_owned(),
        HotkeyKey::DownArrow => "DownArrow".to_owned(),
        HotkeyKey::End => "End".to_owned(),
        HotkeyKey::Escape => "Escape".to_owned(),
        HotkeyKey::F1 => "F1".to_owned(),
        HotkeyKey::F10 => "F10".to_owned(),
        HotkeyKey::F11 => "F11".to_owned(),
        HotkeyKey::F12 => "F12".to_owned(),
        HotkeyKey::F2 => "F2".to_owned(),
        HotkeyKey::F3 => "F3".to_owned(),
        HotkeyKey::F4 => "F4".to_owned(),
        HotkeyKey::F5 => "F5".to_owned(),
        HotkeyKey::F6 => "F6".to_owned(),
        HotkeyKey::F7 => "F7".to_owned(),
        HotkeyKey::F8 => "F8".to_owned(),
        HotkeyKey::F9 => "F9".to_owned(),
        HotkeyKey::Home => "Home".to_owned(),
        HotkeyKey::LeftArrow => "LeftArrow".to_owned(),
        HotkeyKey::MetaLeft => "MetaLeft".to_owned(),
        HotkeyKey::MetaRight => "MetaRight".to_owned(),
        HotkeyKey::PageDown => "PageDown".to_owned(),
        HotkeyKey::PageUp => "PageUp".to_owned(),
        HotkeyKey::Return => "Return".to_owned(),
        HotkeyKey::RightArrow => "RightArrow".to_owned(),
        HotkeyKey::ShiftLeft => "ShiftLeft".to_owned(),
        HotkeyKey::ShiftRight => "ShiftRight".to_owned(),
        HotkeyKey::Space => "Space".to_owned(),
        HotkeyKey::Tab => "Tab".to_owned(),
        HotkeyKey::UpArrow => "UpArrow".to_owned(),
        HotkeyKey::PrintScreen => "PrintScreen".to_owned(),
        HotkeyKey::ScrollLock => "ScrollLock".to_owned(),
        HotkeyKey::Pause => "Pause".to_owned(),
        HotkeyKey::NumLock => "NumLock".to_owned(),
        HotkeyKey::BackQuote => "BackQuote".to_owned(),
        HotkeyKey::Num1 => "Num1".to_owned(),
        HotkeyKey::Num2 => "Num2".to_owned(),
        HotkeyKey::Num3 => "Num3".to_owned(),
        HotkeyKey::Num4 => "Num4".to_owned(),
        HotkeyKey::Num5 => "Num5".to_owned(),
        HotkeyKey::Num6 => "Num6".to_owned(),
        HotkeyKey::Num7 => "Num7".to_owned(),
        HotkeyKey::Num8 => "Num8".to_owned(),
        HotkeyKey::Num9 => "Num9".to_owned(),
        HotkeyKey::Num0 => "Num0".to_owned(),
        HotkeyKey::Minus => "Minus".to_owned(),
        HotkeyKey::Equal => "Equal".to_owned(),
        HotkeyKey::KeyQ => "KeyQ".to_owned(),
        HotkeyKey::KeyW => "KeyW".to_owned(),
        HotkeyKey::KeyE => "KeyE".to_owned(),
        HotkeyKey::KeyR => "KeyR".to_owned(),
        HotkeyKey::KeyT => "KeyT".to_owned(),
        HotkeyKey::KeyY => "KeyY".to_owned(),
        HotkeyKey::KeyU => "KeyU".to_owned(),
        HotkeyKey::KeyI => "KeyI".to_owned(),
        HotkeyKey::KeyO => "KeyO".to_owned(),
        HotkeyKey::KeyP => "KeyP".to_owned(),
        HotkeyKey::LeftBracket => "LeftBracket".to_owned(),
        HotkeyKey::RightBracket => "RightBracket".to_owned(),
        HotkeyKey::KeyA => "KeyA".to_owned(),
        HotkeyKey::KeyS => "KeyS".to_owned(),
        HotkeyKey::KeyD => "KeyD".to_owned(),
        HotkeyKey::KeyF => "KeyF".to_owned(),
        HotkeyKey::KeyG => "KeyG".to_owned(),
        HotkeyKey::KeyH => "KeyH".to_owned(),
        HotkeyKey::KeyJ => "KeyJ".to_owned(),
        HotkeyKey::KeyK => "KeyK".to_owned(),
        HotkeyKey::KeyL => "KeyL".to_owned(),
        HotkeyKey::SemiColon => "SemiColon".to_owned(),
        HotkeyKey::Quote => "Quote".to_owned(),
        HotkeyKey::BackSlash => "BackSlash".to_owned(),
        HotkeyKey::IntlBackslash => "IntlBackslash".to_owned(),
        HotkeyKey::KeyZ => "KeyZ".to_owned(),
        HotkeyKey::KeyX => "KeyX".to_owned(),
        HotkeyKey::KeyC => "KeyC".to_owned(),
        HotkeyKey::KeyV => "KeyV".to_owned(),
        HotkeyKey::KeyB => "KeyB".to_owned(),
        HotkeyKey::KeyN => "KeyN".to_owned(),
        HotkeyKey::KeyM => "KeyM".to_owned(),
        HotkeyKey::Comma => "Comma".to_owned(),
        HotkeyKey::Dot => "Dot".to_owned(),
        HotkeyKey::Slash => "Slash".to_owned(),
        HotkeyKey::Insert => "Insert".to_owned(),
        HotkeyKey::KpReturn => "KpReturn".to_owned(),
        HotkeyKey::KpMinus => "KpMinus".to_owned(),
        HotkeyKey::KpPlus => "KpPlus".to_owned(),
        HotkeyKey::KpMultiply => "KpMultiply".to_owned(),
        HotkeyKey::KpDivide => "KpDivide".to_owned(),
        HotkeyKey::Kp0 => "Kp0".to_owned(),
        HotkeyKey::Kp1 => "Kp1".to_owned(),
        HotkeyKey::Kp2 => "Kp2".to_owned(),
        HotkeyKey::Kp3 => "Kp3".to_owned(),
        HotkeyKey::Kp4 => "Kp4".to_owned(),
        HotkeyKey::Kp5 => "Kp5".to_owned(),
        HotkeyKey::Kp6 => "Kp6".to_owned(),
        HotkeyKey::Kp7 => "Kp7".to_owned(),
        HotkeyKey::Kp8 => "Kp8".to_owned(),
        HotkeyKey::Kp9 => "Kp9".to_owned(),
        HotkeyKey::KpDelete => "KpDelete".to_owned(),
        HotkeyKey::Function => "Function".to_owned(),
        HotkeyKey::Unknown(code) => {
            let mut name = "Unknown(".to_owned();
            name.append(decimal_of(code as u64).as_str());
            name.append(")");
            name
        },
    }
}

/// The names of the keys that are neither letters nor digits. A key without a
/// place has its number in its name.
pub proof fn law_the_names_of_keys(code: u32)
    ensures
        name_of(HotkeyKey::Alt) == "Alt"@,
        name_of(HotkeyKey::AltGr) == "AltGr"@,
        name_of(HotkeyKey::Backspace) == "Backspace"@,
        name_of(HotkeyKey::CapsLock) == "CapsLock"@,
        name_of(HotkeyKey::ControlLeft) == "ControlLeft"@,
        name_of(HotkeyKey::ControlRight) == "ControlRight"@,
        name_of(HotkeyKey::Delete) == "Delete"@,
        name_of(HotkeyKey::DownArrow) == "DownArrow"@,
        name_of(HotkeyKey::End) == "End"@,
        name_of(HotkeyKey::Escape) == "Escape"@,
        name_of(HotkeyKey::F1) == "F1"@,
        name_of(HotkeyKey::F10) == "F10"@,
        name_of(HotkeyKey::F11) == "F11"@,
        name_of(HotkeyKey::F12) == "F12"@,
        name_of(HotkeyKey::F2) == "F2"@,
        name_of(HotkeyKey::F3) == "F3"@,
        name_of(HotkeyKey::F4) == "F4"@,
        name_of(HotkeyKey::F5) == "F5"@,
        name_of(HotkeyKey::F6) == "F6"@,
        name_of(HotkeyKey::F7) == "F7"@,
        name_of(HotkeyKey::F8) == "F8"@,
        name_of(HotkeyKey::F9) == "F9"@,
        name_of(HotkeyKey::Home) == "Home"@,
        name_of(HotkeyKey::LeftArrow) == "LeftArrow"@,
        name_of(HotkeyKey::MetaLeft) == "MetaLeft"@,
        name_of(HotkeyKey::MetaRight) == "MetaRight"@,
        name_of(HotkeyKey::PageDown) == "PageDown"@,
        name_of(HotkeyKey::PageUp) == "PageUp"@,
        name_of(HotkeyKey::Return) == "Return"@,
        name_of(HotkeyKey::RightArrow) == "RightArrow"@,
        name_of(HotkeyKey::ShiftLeft) == "ShiftLeft"@,
        name_of(HotkeyKey::ShiftRight) == "ShiftRight"@,
        name_of(HotkeyKey::Space) == "Space"@,
        name_of(HotkeyKey::Tab) == "Tab"@,
        name_of(HotkeyKey::UpArrow) == "UpArrow"@,
        name_of(HotkeyKey::PrintScreen) == "PrintScreen"@,
        name_of(HotkeyKey::ScrollLock) == "ScrollLock"@,
        name_of(HotkeyKey::Pause) == "Pause"@,
        name_of(HotkeyKey::NumLock) == "NumLock"@,
        name_of(HotkeyKey::BackQuote) == "BackQuote"@,
        name_of(HotkeyKey::Minus) == "Minus"@,
        name_of(HotkeyKey::Equal) == "Equal"@,
        name_of(HotkeyKey::LeftBracket) == "LeftBracket"@,
        name_of(HotkeyKey::RightBracket) == "RightBracket"@,
        name_of(HotkeyKey::SemiColon) == "SemiColon"@,
        name_of(HotkeyKey::Quote) == "Quote"@,
        name_of(HotkeyKey::BackSlash) == "BackSlash"@,
        name_of(HotkeyKey::IntlBackslash) == "IntlBackslash"@,
        name_of(HotkeyKey::Comma) == "Comma"@,
        name_of(HotkeyKey::Dot) == "Dot"@,
        name_of(HotkeyKey::Slash) == "Slash"@,
        name_of(HotkeyKey::Insert) == "Insert"@,
        name_of(HotkeyKey::KpReturn) == "KpReturn"@,
        name_of(HotkeyKey::KpMinus) == "KpMinus"@,
        name_of(HotkeyKey::KpPlus) == "KpPlus"@,
        name_of(HotkeyKey::KpMultiply) == "KpMultiply"@,
        name_of(HotkeyKey::KpDivide) == "KpDivide"@,
        name_of(HotkeyKey::Kp0) == "Kp0"@,
        name_of(HotkeyKey::Kp1) == "Kp1"@,
        name_of(HotkeyKey::Kp2) == "Kp2"@,
        name_of(HotkeyKey::Kp3) == "Kp3"@,
        name_of(HotkeyKey::Kp4) == "Kp4"@,
        name_of(HotkeyKey::Kp5) == "Kp5"@,
        name_of(HotkeyKey::Kp6) == "Kp6"@,
        name_of(HotkeyKey::Kp7) == "Kp7"@,
        name_of(HotkeyKey::Kp8) == "Kp8"@,
        name_of(HotkeyKey::Kp9) == "Kp9"@,
        name_of(HotkeyKey::KpDelete) == "KpDelete"@,
        name_of(HotkeyKey::Function) == "Function"@,
        name_of(HotkeyKey::Unknown(code)) == "Unknown("@ + decimal(code as nat) + ")"@,
{
}

} // verus!
