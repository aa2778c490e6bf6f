use openvoice::text::join_segments;

#[test]
fn joins_and_trims_segments() {
    let segments = [" Hello", " world.", " "];
    assert_eq!(join_segments(&segments), "Hello world.");
}

#[test]
fn empty_input_is_empty_string() {
    let segments: Vec<&str> = vec![];
    assert_eq!(join_segments(&segments), "");
}

#[test]
fn single_segment_is_just_trimmed() {
    assert_eq!(join_segments(&[" only one "]), "only one");
}

#[test]
fn drops_only_empty_and_whitespace_only_segments() {
    let segments = ["", "  ", "keep this", "\t"];
    assert_eq!(join_segments(&segments), "keep this");
}
