use openvoice::dictionary::{build_initial_prompt, parse_dictionary};
use openvoice::disfluency::{
    capitalize_first_letter, collapse_hyphen_stutter, is_filler, repeats_previous, split_affixes,
    strip_disfluencies,
};
use openvoice::merge::{merge_overlap, normalized, overlap_len};
use openvoice::prompt::build_prompt;
use openvoice::text::join_segments;
use openvoice::words::{is_blank, join_texts, split_words, trimmed};

fn list(words: &[&str]) -> Vec<String> {
    words.iter().map(|w| w.to_string()).collect()
}

#[test]
fn the_longest_overlap_wins_over_a_shorter_one() {
    assert_eq!(overlap_len(&list(&["a", "b", "a", "b"]), &list(&["a", "b", "a", "b", "c"])), 4);
    assert_eq!(overlap_len(&list(&["x", "a", "b"]), &list(&["a", "b", "c"])), 2);
    assert_eq!(overlap_len(&list(&["x"]), &list(&["y"])), 0);
    assert_eq!(overlap_len(&list(&[]), &list(&["y"])), 0);
}

#[test]
fn merging_keeps_every_committed_word_and_every_new_one() {
    assert_eq!(merge_overlap("The quick", "QUICK, brown fox"), "The quick brown fox");
    assert_eq!(merge_overlap("one two", "three"), "one two three");
}

#[test]
fn merging_with_nothing_changes_no_word() {
    assert_eq!(merge_overlap("one two", " \t"), "one two");
    assert_eq!(merge_overlap("", "  one  two "), "one two");
    assert_eq!(merge_overlap("", ""), "");
}

#[test]
fn a_window_merged_twice_adds_nothing() {
    let once = merge_overlap("we should go", "go to the store");
    assert_eq!(once, "we should go to the store");
    assert_eq!(merge_overlap(&once, "go to the store"), once);
    assert_eq!(merge_overlap(&once, &once), once);
}

#[test]
fn words_of_other_scripts_overlap_regardless_of_case() {
    assert_eq!(normalized("«ÉTÉ»"), "été");
    assert_eq!(normalized("ΣΑΣ"), "σας");
    assert_eq!(merge_overlap("c'est l'été", "L'ÉTÉ indien"), "c'est l'été indien");
}

#[test]
fn white_space_of_other_scripts_separates_words() {
    assert_eq!(split_words("a\u{3000}b\u{a0}c\td"), list(&["a", "b", "c", "d"]));
    assert_eq!(trimmed("\u{2003} x \u{3000}"), "x");
    assert!(is_blank("\u{3000}\n"));
    assert!(!is_blank(" x "));
    assert!(is_blank(""));
}

#[test]
fn texts_are_joined_with_a_separator_between_each_two() {
    assert_eq!(join_texts(&list(&["a", "b", "c"]), ", "), "a, b, c");
    assert_eq!(join_texts(&list(&["a"]), ", "), "a");
    assert_eq!(join_texts(&[], ", "), "");
    assert_eq!(join_segments(&["\u{3000}hello\n", "", "world "]), "hello world");
}

#[test]
fn affixes_put_together_are_the_token() {
    for token in ["(hello),", "um,", "...", "don't", "\"Été!\"", ""] {
        let (prefix, core, suffix) = split_affixes(token);
        assert_eq!(format!("{prefix}{core}{suffix}"), token);
    }
    assert_eq!(
        split_affixes("(don't)!"),
        ("(".to_string(), "don't".to_string(), ")!".to_string())
    );
    assert_eq!(split_affixes("«été»").1, "été");
}

#[test]
fn fillers_are_known_in_any_case() {
    for filler in ["um", "UMM", "Ummm", "uhm", "uh", "uhh", "Uhhh", "er", "erm", "mmm"] {
        assert!(is_filler(filler), "{filler}");
    }
    for word in ["ah", "oh", "well", "like", "so", "umbrella", "u"] {
        assert!(!is_filler(word), "{word}");
    }
}

#[test]
fn stutters_collapse_to_the_last_fragment() {
    assert_eq!(collapse_hyphen_stutter("wh-wh-what".to_string()), "what");
    assert_eq!(collapse_hyphen_stutter("well-known".to_string()), "well-known");
    assert_eq!(collapse_hyphen_stutter("plain".to_string()), "plain");
}

#[test]
fn a_word_repeats_the_previous_one_unless_it_may() {
    assert!(repeats_previous(&list(&["we", "Should,"]), "should"));
    assert!(!repeats_previous(&list(&["I", "had"]), "had"));
    assert!(!repeats_previous(&list(&[]), "had"));
}

#[test]
fn the_first_letter_is_capitalized_in_any_script() {
    assert_eq!(capitalize_first_letter("(hello"), "(Hello");
    assert_eq!(capitalize_first_letter("été"), "Été");
    assert_eq!(capitalize_first_letter("ßa"), "SSa");
    assert_eq!(capitalize_first_letter("123"), "123");
    assert_eq!(strip_disfluencies("Um été"), "Été");
    assert_eq!(strip_disfluencies("Élan um vital"), "Élan vital");
}

#[test]
fn a_stripped_text_has_nothing_left_to_strip() {
    for text in [
        "um so uh the the I-I-I cat, um, sat",
        "Um, hello there",
        "wait wait, listen",
        "okay um, let's go",
        "um uh er",
    ] {
        let once = strip_disfluencies(text);
        assert!(!once.split_whitespace().any(|w| is_filler(&split_affixes(w).1)), "{once}");
        assert_eq!(strip_disfluencies(&once), once);
    }
}

#[test]
fn punctuation_that_stands_alone_is_kept() {
    for text in ["you & me", "2 + 2", "wait - what?", "...", "a / b / c", "- um-hum -"] {
        assert_eq!(strip_disfluencies(text), text);
    }
    assert_eq!(strip_disfluencies("you um & & me me"), "you & & me");
    assert!(!repeats_previous(&list(&["&"]), ""));
}

#[test]
fn terms_of_a_dictionary_are_trimmed_and_neither_empty_nor_comments() {
    let terms = parse_dictionary(" A b \r\n\n#c\n \u{3000}D\u{3000}\n");
    assert_eq!(terms, list(&["A b", "D"]));
    assert_eq!(
        build_initial_prompt(&terms),
        Some("Vocabulary that may appear: A b, D.".to_string())
    );
}

#[test]
fn a_prompt_holds_the_transcript_between_its_turns() {
    let prompt = build_prompt("a <b>\nc");
    assert!(prompt.contains("<|im_start|>user\na <b>\nc<|im_end|>\n<|im_start|>assistant\n"));
}
