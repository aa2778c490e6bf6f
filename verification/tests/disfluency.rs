use openvoice::disfluency::strip_disfluencies;

#[test]
fn removes_standalone_fillers() {
    assert_eq!(strip_disfluencies("um hello there"), "hello there");
    assert_eq!(strip_disfluencies("so uh we should go"), "so we should go");
}

#[test]
fn collapses_a_doubled_word() {
    assert_eq!(strip_disfluencies("we should should go"), "we should go");
    assert_eq!(strip_disfluencies("the the cat"), "the cat");
}

#[test]
fn collapsing_keeps_the_punctuation_that_followed() {
    assert_eq!(strip_disfluencies("wait wait, listen"), "wait, listen");
}

#[test]
fn collapses_hyphenated_stutters() {
    assert_eq!(strip_disfluencies("I-I-I think so"), "I think so");
    assert_eq!(strip_disfluencies("wh-wh-what happened"), "what happened");
}

#[test]
fn leaves_real_hyphenated_words_alone() {
    // Neither identical parts nor prefixes of the last -- not a stutter.
    let text = "a well-known state-of-the-art result";
    assert_eq!(strip_disfluencies(text), text);
}

#[test]
fn leaves_legitimate_doubles_alone() {
    // Deleting one of these would change the sentence's meaning.
    assert_eq!(strip_disfluencies("I had had enough"), "I had had enough");
    let that = "the thing that that person said";
    assert_eq!(strip_disfluencies(that), that);
}

#[test]
fn a_filler_does_not_swallow_its_punctuation() {
    // The comma is still doing real work at that clause boundary.
    assert_eq!(strip_disfluencies("okay um, let's go"), "okay, let's go");
}

#[test]
fn does_not_treat_different_words_as_repeats() {
    assert_eq!(strip_disfluencies("very very nearly"), "very nearly");
    assert_eq!(strip_disfluencies("go to to the store"), "go to the store");
    assert_eq!(strip_disfluencies("cat sat"), "cat sat");
}

#[test]
fn recapitalizes_only_when_the_original_was_capitalized() {
    // Real ASR output is capitalized, so dropping a leading filler
    // would otherwise leave the sentence starting lowercase.
    assert_eq!(strip_disfluencies("Um the cat"), "The cat");
    assert_eq!(strip_disfluencies("Um, hello there"), "Hello there");
    // ...but lowercase input stays lowercase; never invent a capital
    // the user didn't say.
    assert_eq!(strip_disfluencies("um the cat"), "the cat");
}

#[test]
fn empty_and_filler_only_input_are_safe() {
    assert_eq!(strip_disfluencies(""), "");
    assert_eq!(strip_disfluencies("   "), "");
    assert_eq!(strip_disfluencies("um uh er"), "");
}

#[test]
fn ordinary_text_passes_through_unchanged() {
    let clean = "Ship the release on Friday and tell the team.";
    assert_eq!(strip_disfluencies(clean), clean);
}
