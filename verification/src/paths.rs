//! Where the models and the dictionary are.

use vstd::prelude::*;

verus! {

/// The first of what was asked for, what the environment says, and the
/// default.
pub open spec fn first_of(
    asked: Option<Seq<char>>,
    environment: Option<Seq<char>>,
    default: Seq<char>,
) -> Seq<char> {
    match (asked, environment) {
        (Some(path), _) => path,
        (None, Some(path)) => path,
        (None, None) => default,
    }
}

pub open spec fn text_if_any(text: Option<String>) -> Option<Seq<char>> {
    match text {
        Some(text) => Some(text@),
        None => None,
    }
}

fn choose_path(asked: Option<String>, environment: Option<String>, default: &str) -> (path: String)
    ensures
        path@ == first_of(text_if_any(asked), text_if_any(environment), default@),
{
    match asked {
        Some(path) => path,
        None => match environment {
            Some(path) => path,
            None => default.to_owned(),
        },
    }
}

/// The variable that [`model_path`] takes.
pub const MODEL_PATH_VARIABLE: &'static str = "DICTATION_MODEL_PATH";

pub const VAD_MODEL_PATH_VARIABLE: &'static str = "DICTATION_VAD_MODEL_PATH";

pub const CLEANUP_MODEL_PATH_VARIABLE: &'static str = "DICTATION_CLEANUP_MODEL_PATH";

pub const DICTIONARY_PATH_VARIABLE: &'static str = "DICTATION_DICTIONARY_PATH";

/// The speech model: the first argument, then the environment, then the
/// default.
pub fn model_path(argument: Option<String>, environment: Option<String>) -> (path: String)
    ensures
        path@ == first_of(
            text_if_any(argument),
            text_if_any(environment),
            "models/ggml-distil-small.en.bin"@,
        ),
{
    choose_path(argument, environment, "models/ggml-distil-small.en.bin")
}

/// The voice activity model: the environment, then the default.
pub fn vad_model_path(environment: Option<String>) -> (path: String)
    ensures
        path@ == first_of(None, text_if_any(environment), "models/silero_vad.onnx"@),
{
    choose_path(None, environment, "models/silero_vad.onnx")
}

/// The cleanup model: the environment, then the default.
pub fn cleanup_model_path(environment: Option<String>) -> (path: String)
    ensures
        path@ == first_of(
            None,
            text_if_any(environment),
            "models/qwen2.5-0.5b-instruct-q4_k_m.gguf"@,
        ),
{
    choose_path(None, environment, "models/qwen2.5-0.5b-instruct-q4_k_m.gguf")
}

/// The user's dictionary: the environment, then a file in the working
/// directory.
pub fn dictionary_path(environment: Option<String>) -> (path: String)
    ensures
        path@ == first_of(None, text_if_any(environment), "dictionary.txt"@),
{
    choose_path(None, environment, "dictionary.txt")
}

/// Whoever asks for a path gets it; else the environment decides, and else the
/// default.
pub proof fn law_the_first_path_counts(asked: Seq<char>, environment: Seq<char>, default: Seq<char>)
    ensures
        first_of(Some(asked), Some(environment), default) == asked,
        first_of(Some(asked), None, default) == asked,
        first_of(None, Some(environment), default) == environment,
        first_of(None, None, default) == default,
{
}

} // verus!
