use openvoice::merge::{merge_overlap, normalized};

#[test]
fn first_window_just_seeds_committed_text() {
    assert_eq!(merge_overlap("", "hello world"), "hello world");
}

#[test]
fn appends_when_theres_no_overlap_at_all() {
    assert_eq!(
        merge_overlap("hello world", "goodbye now"),
        "hello world goodbye now"
    );
}

#[test]
fn dedupes_a_multi_word_overlap() {
    assert_eq!(
        merge_overlap("the quick brown fox", "brown fox jumps over"),
        "the quick brown fox jumps over"
    );
}

#[test]
fn dedupes_a_single_word_overlap() {
    assert_eq!(merge_overlap("hello world", "world peace"), "hello world peace");
}

#[test]
fn identical_repeat_window_contributes_nothing_new() {
    assert_eq!(merge_overlap("hello world", "hello world"), "hello world");
}

#[test]
fn empty_new_window_leaves_committed_untouched() {
    assert_eq!(merge_overlap("hello world", ""), "hello world");
    assert_eq!(merge_overlap("hello world", "   "), "hello world");
}

#[test]
fn prefers_the_longest_matching_overlap() {
    // "a b a" vs "a b a b" -- the longest match is "a b a" (len 3), not
    // just the trailing "a" (len 1).
    assert_eq!(merge_overlap("x a b a", "a b a b"), "x a b a b");
}

#[test]
fn is_idempotent_across_a_realistic_streaming_session() {
    let mut committed = String::new();
    for window in ["the quick brown", "brown fox jumps", "fox jumps over the lazy dog"] {
        committed = merge_overlap(&committed, window);
    }
    assert_eq!(committed, "the quick brown fox jumps over the lazy dog");
}

#[test]
fn overlap_matches_despite_recapitalization_and_punctuation() {
    // The exact production failure: each window is decoded
    // independently, so whisper re-capitalizes and re-punctuates the
    // same words. Comparing exactly missed the overlap entirely and
    // produced "That's what's going on What's going on?".
    assert_eq!(
        merge_overlap("That's what's going on", "What's going on?"),
        "That's what's going on"
    );
}

#[test]
fn emitted_text_keeps_the_original_words_not_the_normalized_ones() {
    // Normalization is only for *comparison* -- punctuation and case
    // in the actual output must survive untouched.
    assert_eq!(
        merge_overlap("Hello there", "There, world!"),
        "Hello there world!"
    );
}

#[test]
fn a_trailing_period_does_not_hide_an_overlap() {
    assert_eq!(
        merge_overlap("we should ship it", "Ship it. Tomorrow"),
        "we should ship it Tomorrow"
    );
}

#[test]
fn apostrophes_are_part_of_the_word_not_stripped_punctuation() {
    // "what's" must not normalize to "what" -- that would make
    // genuinely different words collide.
    assert_ne!(normalized("what's"), normalized("what"));
    assert_eq!(normalized("What's,"), normalized("what's"));
}
