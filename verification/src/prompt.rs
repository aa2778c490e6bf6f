//! The prompt that asks the cleanup model to tidy a transcript.
//!
//! Instruct models of this family expect ChatML turns. The prompt is built
//! by hand, so it does not depend on metadata that some model files omit.

use vstd::prelude::*;

verus! {

pub const SYSTEM_PROMPT: &'static str = "You clean up dictated speech transcripts. Fix punctuation and capitalization, remove filler words like \"um\" and false starts, and otherwise preserve the speaker's wording and meaning exactly. Output only the cleaned text, nothing else -- no quotes, no commentary.";

/// The ChatML turns around a transcript.
pub open spec fn cleanup_prompt(raw: Seq<char>) -> Seq<char> {
    "<|im_start|>system\n"@ + SYSTEM_PROMPT@ + "<|im_end|>\n<|im_start|>user\n"@ + raw
        + "<|im_end|>\n<|im_start|>assistant\n"@
}

/// Builds the prompt that asks the model to clean up `raw_text`.
pub fn build_prompt(raw_text: &str) -> (prompt: String)
    ensures
        prompt@ == cleanup_prompt(raw_text@),
{
    let mut prompt = "<|im_start|>system\n".to_owned();
    prompt.append(SYSTEM_PROMPT);
    prompt.append("<|im_end|>\n<|im_start|>user\n");
    prompt.append(raw_text);
    prompt.append("<|im_end|>\n<|im_start|>assistant\n");
    prompt
}

/// The transcript stands in the prompt whole and in order, right after the
/// user turn opens and right before it closes.
pub proof fn law_prompt_keeps_the_transcript(raw: Seq<char>)
    ensures
        ({
            let before = "<|im_start|>system\n"@ + SYSTEM_PROMPT@
                + "<|im_end|>\n<|im_start|>user\n"@;
            let after = "<|im_end|>\n<|im_start|>assistant\n"@;
            &&& cleanup_prompt(raw).len() == before.len() + raw.len() + after.len()
            &&& cleanup_prompt(raw).take(before.len() as int) == before
            &&& cleanup_prompt(raw).subrange(before.len() as int, (before.len() + raw.len()) as int)
                == raw
            &&& cleanup_prompt(raw).skip((before.len() + raw.len()) as int) == after
        }),
{
}

} // verus!
