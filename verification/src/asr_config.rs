//! How the speech model is run.

use vstd::prelude::*;

use crate::audio_ctx::{audio_ctx_for, context_frames};

verus! {

pub const ASR_SAMPLE_RATE_HZ: u32 = 16_000;

/// More threads than this made decoding slower.
pub const MAX_THREADS: usize = 8;

/// What to assume of a machine that does not tell.
pub const ASSUMED_PARALLELISM: usize = 4;

/// By how much the temperature rises when a decode looks bad, in hundredths:
/// three attempts at most, of which the first is greedy.
pub const DEFAULT_TEMPERATURE_INC_HUNDREDTHS: u32 = 40;

/// Half of `available`, between 1 and [`MAX_THREADS`].
pub open spec fn threads_for(available: int) -> int {
    let half = available / 2;
    if half < 1 {
        1
    } else if half > MAX_THREADS {
        MAX_THREADS as int
    } else {
        half
    }
}

/// How many threads to decode with, given how many the machine runs at once:
/// about one for each physical core.
pub fn default_thread_count(available: Option<usize>) -> (threads: i32)
    ensures
        threads == threads_for(
            match available {
                Some(n) => n as int,
                None => ASSUMED_PARALLELISM as int,
            },
        ),
        1 <= threads <= MAX_THREADS,
{
    let n: usize = match available {
        Some(n) => n,
        None => ASSUMED_PARALLELISM,
    };
    let half: usize = n / 2;
    if half < 1 {
        1
    } else if half > MAX_THREADS {
        8
    } else {
        half as i32
    }
}

/// Everything about how to transcribe, apart from the audio.
#[derive(Debug, Clone)]
pub struct AsrConfig {
    pub model_path: String,
    /// `None` lets the model detect the language.
    pub language: Option<String>,
    pub n_threads: i32,
    /// Biases decoding toward the names in it.
    pub initial_prompt: Option<String>,
    pub temperature_inc_hundredths: u32,
}

impl AsrConfig {
    /// English, with the default thread count for a machine of this
    /// parallelism, and no prompt.
    pub fn new(model_path: String, parallelism: Option<usize>) -> (config: Self)
        ensures
            config.model_path@ == model_path@,
            config.language matches Some(language) && language@ == "en"@,
            config.n_threads == threads_for(
                match parallelism {
                    Some(n) => n as int,
                    None => ASSUMED_PARALLELISM as int,
                },
            ),
            config.initial_prompt is None,
            config.temperature_inc_hundredths == DEFAULT_TEMPERATURE_INC_HUNDREDTHS,
    {
        AsrConfig {
            model_path,
            language: Some("en".to_owned()),
            n_threads: default_thread_count(parallelism),
            initial_prompt: None,
            temperature_inc_hundredths: DEFAULT_TEMPERATURE_INC_HUNDREDTHS,
        }
    }

    /// The settings for decoding `sample_count` samples.
    pub fn decode_params(&self, sample_count: usize) -> (params: DecodeParams)
        ensures
            params.best_of == 1,
            params.n_threads == self.n_threads,
            !params.translate,
            params.no_context,
            params.no_timestamps,
            params.suppress_blank,
            !params.single_segment,
            !params.print,
            params.audio_ctx == context_frames(sample_count as int, ASR_SAMPLE_RATE_HZ as int),
            params.temperature_hundredths == 0,
            params.temperature_inc_hundredths == self.temperature_inc_hundredths,
            same_text(params.language, self.language),
            same_text(params.initial_prompt, self.initial_prompt),
    {
        DecodeParams {
            best_of: 1,
            n_threads: self.n_threads,
            translate: false,
            no_context: true,
            no_timestamps: true,
            suppress_blank: true,
            single_segment: false,
            print: false,
            audio_ctx: audio_ctx_for(sample_count, ASR_SAMPLE_RATE_HZ),
            temperature_hundredths: 0,
            temperature_inc_hundredths: self.temperature_inc_hundredths,
            language: copy_text(&self.language),
            initial_prompt: copy_text(&self.initial_prompt),
        }
    }
}

/// Both texts are missing, or both are there and say the same.
pub open spec fn same_text(a: Option<String>, b: Option<String>) -> bool {
    match (a, b) {
        (Some(a), Some(b)) => a@ == b@,
        (None, None) => true,
        _ => false,
    }
}

fn copy_text(text: &Option<String>) -> (out: Option<String>)
    ensures
        same_text(out, *text),
{
    match text {
        Some(text) => Some(text.clone()),
        None => None,
    }
}

/// The settings of one decode: greedy, without earlier text, plain text only.
#[derive(Debug, Clone)]
pub struct DecodeParams {
    /// How many candidates greedy decoding keeps.
    pub best_of: i32,
    pub n_threads: i32,
    pub translate: bool,
    /// Earlier text is not fed back, which would start loops.
    pub no_context: bool,
    pub no_timestamps: bool,
    pub suppress_blank: bool,
    pub single_segment: bool,
    /// Whether the model prints anything itself.
    pub print: bool,
    pub audio_ctx: i32,
    pub temperature_hundredths: u32,
    pub temperature_inc_hundredths: u32,
    pub language: Option<String>,
    pub initial_prompt: Option<String>,
}

/// How many threads a machine decodes with: as many as half of what it runs at
/// once, rounded down, but one at least and eight at most.
pub proof fn law_how_many_threads(available: int)
    requires
        0 <= available,
    ensures
        1 <= threads_for(available) <= 8,
        2 <= available <= 17 ==> 2 * threads_for(available) <= available < 2 * threads_for(
            available,
        ) + 2,
        available < 2 ==> threads_for(available) == 1,
        available > 17 ==> threads_for(available) == 8,
{
}

/// Two texts are the same where both are missing, or where both are there and
/// hold the same characters.
pub proof fn law_when_texts_are_the_same(a: Option<String>, b: Option<String>)
    ensures
        a is Some && b is Some ==> (same_text(a, b) <==> a->0@ == b->0@),
        a is None && b is None ==> same_text(a, b),
        a is Some != b is Some ==> !same_text(a, b),
{
}

} // verus!
