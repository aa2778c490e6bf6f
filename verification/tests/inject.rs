use openvoice::inject::{
    is_focused_field_secure, paste_modifier, paste_stroke, ChordKey, InjectAction, InjectOutcome,
    Injection, KeyDirection, KeyStroke, Reply, Saved, PASTE_STROKES,
};

/// Answers every action of an insertion, and writes down what was asked.
fn run(text: &str, secure: bool, open: bool, write: bool, bad: &[usize], typed: bool) -> Vec<String> {
    let (mut injection, mut action) = Injection::begin(text, false);
    let mut log = Vec::new();
    let mut strokes = 0;
    loop {
        let reply = match action {
            InjectAction::CheckSecureField => {
                log.push("check".to_string());
                if secure { Reply::Yes } else { Reply::No }
            }
            InjectAction::OpenClipboard => {
                log.push("open".to_string());
                if open { Reply::Clipboard(Saved::Text("before".to_string())) } else { Reply::No }
            }
            InjectAction::WriteClipboard(text) => {
                log.push(format!("write {text}"));
                if write { Reply::Yes } else { Reply::No }
            }
            InjectAction::Press(stroke) => {
                log.push(format!("{:?} {:?}", stroke.direction, stroke.key));
                let failed = bad.contains(&strokes);
                strokes += 1;
                if failed { Reply::No } else { Reply::Yes }
            }
            InjectAction::Settle => {
                log.push("settle".to_string());
                Reply::Yes
            }
            InjectAction::RestoreClipboard(saved) => {
                log.push(match saved {
                    Saved::Empty => "clear".to_string(),
                    Saved::Text(text) => format!("restore {text}"),
                    Saved::Other(kept) => format!("restore #{kept}"),
                });
                Reply::No
            }
            InjectAction::TypeText(text) => {
                log.push(format!("type {text}"));
                if typed { Reply::Yes } else { Reply::No }
            }
            InjectAction::Finish(outcome) => {
                log.push(format!("{outcome:?}"));
                return log;
            }
        };
        action = injection.proceed(reply);
    }
}

#[test]
fn text_is_pasted_and_the_clipboard_restored() {
    assert_eq!(
        run("hi", false, true, true, &[], true),
        vec![
            "check",
            "open",
            "write hi",
            "Release Shift",
            "Release Alt",
            "Release Meta",
            "Press Control",
            "Click V",
            "Release Control",
            "settle",
            "restore before",
            "Inserted",
        ]
    );
}

#[test]
fn a_secure_field_gets_nothing() {
    assert_eq!(run("hi", true, true, true, &[], true), vec!["check", "SecureField"]);
}

#[test]
fn nothing_is_inserted_for_an_empty_text() {
    assert_eq!(run("", true, true, true, &[], true), vec!["Inserted"]);
}

#[test]
fn text_is_typed_where_the_clipboard_cannot_be_used() {
    assert_eq!(run("hi", false, false, true, &[], true), vec!["check", "open", "type hi", "Inserted"]);
    assert_eq!(
        run("hi", false, true, false, &[], false),
        vec!["check", "open", "write hi", "type hi", "Failed"]
    );
}

#[test]
fn stray_modifiers_that_cannot_be_released_do_not_matter() {
    let log = run("hi", false, true, true, &[0, 1, 2], true);
    assert_eq!(log.last().unwrap(), "Inserted");
    assert!(!log.contains(&"type hi".to_string()));
}

#[test]
fn a_paste_key_that_cannot_be_pressed_ends_the_paste() {
    assert_eq!(
        run("hi", false, true, true, &[3], true)[6..],
        ["Press Control", "settle", "restore before", "type hi", "Inserted"]
    );
}

#[test]
fn the_paste_key_is_released_after_a_failed_click() {
    assert_eq!(
        run("hi", false, true, true, &[4], true)[7..],
        ["Click V", "Release Control", "settle", "restore before", "type hi", "Inserted"]
    );
    assert_eq!(
        run("hi", false, true, true, &[5], true)[8..],
        ["Release Control", "settle", "restore before", "type hi", "Inserted"]
    );
}

/// Pastes over a clipboard that held `saved`, and returns the strokes and what
/// the clipboard is restored to.
fn paste_over(saved: Saved, chord_works: bool) -> (Vec<KeyStroke>, InjectAction, InjectAction) {
    let (mut injection, _) = Injection::begin("hi", true);
    injection.proceed(Reply::No);
    injection.proceed(Reply::Clipboard(saved));
    let mut action = injection.proceed(Reply::Yes);
    let mut pressed = Vec::new();
    while let InjectAction::Press(stroke) = action {
        pressed.push(stroke);
        action = injection.proceed(if chord_works { Reply::Yes } else { Reply::No });
    }
    assert!(matches!(action, InjectAction::Settle));
    let restore = injection.proceed(Reply::Yes);
    let next = injection.proceed(Reply::Yes);
    (pressed, restore, next)
}

#[test]
fn an_empty_clipboard_is_cleared_again() {
    let (pressed, restore, next) = paste_over(Saved::Empty, true);
    assert_eq!(pressed[3], KeyStroke { key: ChordKey::Meta, direction: KeyDirection::Press });
    assert!(matches!(restore, InjectAction::RestoreClipboard(Saved::Empty)));
    assert!(matches!(next, InjectAction::Finish(InjectOutcome::Inserted)));
}

#[test]
fn a_clipboard_that_holds_no_text_gets_back_what_it_held() {
    for chord_works in [true, false] {
        let (_, restore, next) = paste_over(Saved::Other(7), chord_works);
        assert!(matches!(restore, InjectAction::RestoreClipboard(Saved::Other(7))));
        assert_eq!(matches!(next, InjectAction::TypeText(_)), !chord_works);
    }
}

#[test]
fn an_insertion_that_is_over_stays_over() {
    let (mut injection, _) = Injection::begin("", true);
    for _ in 0..3 {
        assert!(matches!(
            injection.proceed(Reply::Yes),
            InjectAction::Finish(InjectOutcome::Failed)
        ));
    }
}

#[test]
fn the_paste_key_is_that_of_the_platform() {
    assert_eq!(paste_modifier(true), ChordKey::Meta);
    assert_eq!(paste_modifier(false), ChordKey::Control);
    assert_eq!(
        paste_stroke(false, PASTE_STROKES - 1),
        KeyStroke { key: ChordKey::Control, direction: KeyDirection::Release }
    );
}

#[test]
fn the_focused_control_is_asked_for_its_password_character() {
    let star = |control: isize| if control == 7 { 42 } else { 0 };
    assert!(is_focused_field_secure(Some(1), Some(Some(7)), star));
    assert!(!is_focused_field_secure(Some(7), Some(Some(1)), star));
    assert!(is_focused_field_secure(Some(7), Some(None), star));
    assert!(!is_focused_field_secure(Some(7), None, star));
    assert!(!is_focused_field_secure(None, Some(Some(7)), star));
}
