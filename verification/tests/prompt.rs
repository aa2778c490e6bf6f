use openvoice::prompt::build_prompt;

#[test]
fn wraps_raw_text_in_chatml_turns() {
    let prompt = build_prompt("um so anyway i think we should ship it");
    assert!(prompt.starts_with("<|im_start|>system\n"));
    assert!(prompt.contains("<|im_start|>user\num so anyway i think we should ship it<|im_end|>"));
    assert!(prompt.ends_with("<|im_start|>assistant\n"));
}

#[test]
fn instructs_output_only_no_commentary() {
    let prompt = build_prompt("hello");
    assert!(prompt.contains("Output only the cleaned text"));
}

#[test]
fn does_not_lose_or_reorder_the_raw_text() {
    let raw = "the quick brown fox, um, jumps over";
    let prompt = build_prompt(raw);
    assert!(prompt.contains(raw));
}
