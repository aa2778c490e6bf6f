use openvoice::dictionary::{build_initial_prompt, parse_dictionary};

#[test]
fn parses_one_term_per_line() {
    let terms = parse_dictionary("Wispr\nQwen\nSilero");
    assert_eq!(terms, vec!["Wispr", "Qwen", "Silero"]);
}

#[test]
fn ignores_blank_lines_and_comments() {
    let terms = parse_dictionary("Wispr\n\n# a comment\n  \nQwen\n#also a comment");
    assert_eq!(terms, vec!["Wispr", "Qwen"]);
}

#[test]
fn trims_surrounding_whitespace() {
    let terms = parse_dictionary("  Wispr  \n\tQwen\t");
    assert_eq!(terms, vec!["Wispr", "Qwen"]);
}

#[test]
fn empty_input_is_an_empty_list() {
    assert_eq!(parse_dictionary(""), Vec::<String>::new());
    assert_eq!(parse_dictionary("\n\n# only comments\n"), Vec::<String>::new());
}

#[test]
fn empty_term_list_has_no_prompt() {
    assert_eq!(build_initial_prompt(&[]), None);
}

#[test]
fn builds_a_natural_sentence_from_terms() {
    let terms = vec!["Wispr".to_string(), "Qwen2.5".to_string()];
    assert_eq!(
        build_initial_prompt(&terms),
        Some("Vocabulary that may appear: Wispr, Qwen2.5.".to_string())
    );
}

#[test]
fn single_term_still_gets_a_full_sentence() {
    let terms = vec!["Silero".to_string()];
    assert_eq!(
        build_initial_prompt(&terms),
        Some("Vocabulary that may appear: Silero.".to_string())
    );
}
