//! Starting the engine: what is loaded in which order, what may be missing,
//! and what is said on the way.

use vstd::prelude::*;

use crate::decimal::{decimal, decimal_of};
use crate::dictionary::{build_initial_prompt, prompt_of};
use crate::hotkey::MultiHotkeyConfig;
use crate::key::{key_name, name_of};
use crate::resample::TARGET_SAMPLE_RATE_HZ;
use crate::words::texts;

verus! {

/// Why the engine could not start, with what the part in question said.
#[derive(Debug, Clone, PartialEq, Eq)]
pub enum EngineError {
    AsrModel(String),
    VadModel(String),
    TextInjector(String),
    MicrophoneCapture(String),
}

/// What an error says.
pub open spec fn error_text(error: EngineError) -> Seq<char> {
    match error {
        EngineError::AsrModel(cause) => "couldn't load ASR model: "@ + cause@,
        EngineError::VadModel(cause) => "couldn't load VAD model: "@ + cause@,
        EngineError::TextInjector(cause) => "couldn't initialize text injection: "@ + cause@,
        EngineError::MicrophoneCapture(cause) => "couldn't start microphone capture: "@ + cause@,
    }
}

impl EngineError {
    pub fn message(&self) -> (text: String)
        ensures
            text@ == error_text(*self),
    {
        match self {
            EngineError::AsrModel(cause) => labelled("couldn't load ASR model: ", cause.as_str()),
            EngineError::VadModel(cause) => labelled("couldn't load VAD model: ", cause.as_str()),
            EngineError::TextInjector(cause) => labelled(
                "couldn't initialize text injection: ",
                cause.as_str(),
            ),
            EngineError::MicrophoneCapture(cause) => labelled(
                "couldn't start microphone capture: ",
                cause.as_str(),
            ),
        }
    }
}

fn labelled(label: &str, text: &str) -> (line: String)
    ensures
        line@ == label@ + text@,
{
    let mut line = label.to_owned();
    line.append(text);
    line
}

/// The parts of the engine, in the order they are loaded.
#[derive(Debug, Clone, Copy, PartialEq, Eq, Structural)]
pub enum LoadStage {
    /// Nothing yet: it is known where everything is.
    Start,
    Dictionary,
    AsrModel,
    VadModel,
    CleanupModel,
    TextInjector,
    Microphone,
    Done,
}

/// The part that comes after `stage`.
pub open spec fn next_stage(stage: LoadStage) -> LoadStage {
    match stage {
        LoadStage::Start => LoadStage::Dictionary,
        LoadStage::Dictionary => LoadStage::AsrModel,
        LoadStage::AsrModel => LoadStage::VadModel,
        LoadStage::VadModel => LoadStage::CleanupModel,
        LoadStage::CleanupModel => LoadStage::TextInjector,
        LoadStage::TextInjector => LoadStage::Microphone,
        LoadStage::Microphone => LoadStage::Done,
        LoadStage::Done => LoadStage::Done,
    }
}

/// Whether the engine can do without this part: the dictionary and the cleanup
/// model are optional.
pub open spec fn is_optional(stage: LoadStage) -> bool {
    match stage {
        LoadStage::Start | LoadStage::Dictionary | LoadStage::CleanupModel | LoadStage::Done => true,
        _ => false,
    }
}

/// What comes after `stage`, which failed as `failure` says or did not. A part
/// that the engine cannot do without stops it.
pub fn after_stage(stage: LoadStage, failure: Option<String>) -> (next: Result<
    LoadStage,
    EngineError,
>)
    ensures
        next is Ok == (failure is None || is_optional(stage)),
        next matches Ok(stage_after) ==> stage_after == next_stage(stage),
        next matches Err(error) ==> (failure matches Some(cause) && match stage {
            LoadStage::AsrModel => error == EngineError::AsrModel(cause),
            LoadStage::VadModel => error == EngineError::VadModel(cause),
            LoadStage::TextInjector => error == EngineError::TextInjector(cause),
            LoadStage::Microphone => error == EngineError::MicrophoneCapture(cause),
            _ => false,
        }),
{
    match (stage, failure) {
        (LoadStage::AsrModel, Some(cause)) => Err(EngineError::AsrModel(cause)),
        (LoadStage::VadModel, Some(cause)) => Err(EngineError::VadModel(cause)),
        (LoadStage::TextInjector, Some(cause)) => Err(EngineError::TextInjector(cause)),
        (LoadStage::Microphone, Some(cause)) => Err(EngineError::MicrophoneCapture(cause)),
        (LoadStage::Start, _) => Ok(LoadStage::Dictionary),
        (LoadStage::Dictionary, _) => Ok(LoadStage::AsrModel),
        (LoadStage::AsrModel, None) => Ok(LoadStage::VadModel),
        (LoadStage::VadModel, None) => Ok(LoadStage::CleanupModel),
        (LoadStage::CleanupModel, _) => Ok(LoadStage::TextInjector),
        (LoadStage::TextInjector, None) => Ok(LoadStage::Microphone),
        (LoadStage::Microphone, None) => Ok(LoadStage::Done),
        (LoadStage::Done, _) => Ok(LoadStage::Done),
    }
}

pub open spec fn asr_line(path: Seq<char>) -> Seq<char> {
    "ASR model: "@ + path
}

pub open spec fn vad_line(path: Seq<char>) -> Seq<char> {
    "VAD model: "@ + path
}

/// What is said of the dictionary at `path`: how many terms it has, that it
/// has none, or that there is no such file.
pub open spec fn dictionary_line(path: Seq<char>, terms: Option<Seq<Seq<char>>>) -> Seq<char> {
    match terms {
        Some(terms) => if terms.len() > 0 {
            "User dictionary: "@ + decimal(terms.len()) + " term(s) loaded"@
        } else {
            "User dictionary: "@ + path + " is empty, no bias applied"@
        },
        None => "User dictionary: none found at "@ + path + " (optional; see README.md)"@,
    }
}

/// What is said of the dictionary at `path` with these terms, or without a
/// dictionary.
fn dictionary_text(path: &str, terms: &Option<Vec<String>>) -> (line: String)
    ensures
        line@ == dictionary_line(path@, terms_of(*terms)),
{
    match terms {
        Some(terms) => {
            let mut line = "User dictionary: ".to_owned();
            if terms.len() > 0 {
                line.append(decimal_of(terms.len() as u64).as_str());
                line.append(" term(s) loaded");
            } else {
                line.append(path);
                line.append(" is empty, no bias applied");
            }
            line
        },
        None => {
            let mut line = "User dictionary: none found at ".to_owned();
            line.append(path);
            line.append(" (optional; see README.md)");
            line
        },
    }
}

/// What is said of the cleanup model at `path`, which failed to load as
/// `failure` says or did not.
pub open spec fn cleanup_line(path: Seq<char>, failure: Option<Seq<char>>) -> Seq<char> {
    match failure {
        None => "Cleanup model: "@ + path,
        Some(cause) => "Cleanup pass disabled (couldn't load "@ + path + "): "@ + cause,
    }
}

fn cleanup_text(path: &str, failure: &Option<String>) -> (line: String)
    ensures
        line@ == cleanup_line(path@, cause_of(*failure)),
{
    match failure {
        None => labelled("Cleanup model: ", path),
        Some(cause) => {
            let mut line = "Cleanup pass disabled (couldn't load ".to_owned();
            line.append(path);
            line.append("): ");
            line.append(cause.as_str());
            line
        },
    }
}

/// What is said of the microphone.
pub open spec fn microphone_line(microphone: LiveMicrophone) -> Seq<char> {
    "Mic is live: "@ + microphone.name@ + " @ "@ + decimal(microphone.sample_rate_hz as nat)
        + "Hz/"@ + decimal(microphone.channels as nat) + "ch, resampled to "@ + decimal(
        TARGET_SAMPLE_RATE_HZ as nat,
    ) + "Hz mono."@
}

fn microphone_text(microphone: &LiveMicrophone) -> (line: String)
    ensures
        line@ == microphone_line(*microphone),
{
    let mut line = "Mic is live: ".to_owned();
    line.append(microphone.name.as_str());
    line.append(" @ ");
    line.append(decimal_of(microphone.sample_rate_hz as u64).as_str());
    line.append("Hz/");
    line.append(decimal_of(microphone.channels as u64).as_str());
    line.append("ch, resampled to ");
    line.append(decimal_of(TARGET_SAMPLE_RATE_HZ as u64).as_str());
    line.append("Hz mono.");
    line
}

/// What is said of the audio that is kept.
pub open spec fn buffer_line() -> Seq<char> {
    "Buffer is in-memory only (last ~30s, continuously overwritten) -- never written to disk."@
}

/// What is said of the push-to-talk keys.
pub open spec fn push_to_talk_line(hotkeys: MultiHotkeyConfig) -> Seq<char> {
    "Hold "@ + name_of(hotkeys.push_to_talk_keys.0) + " + "@ + name_of(
        hotkeys.push_to_talk_keys.1,
    ) + " together to dictate (push-to-talk); release either to insert at the cursor."@
}

fn push_to_talk_text(hotkeys: &MultiHotkeyConfig) -> (line: String)
    ensures
        line@ == push_to_talk_line(*hotkeys),
{
    let mut line = "Hold ".to_owned();
    line.append(key_name(hotkeys.push_to_talk_keys.0).as_str());
    line.append(" + ");
    line.append(key_name(hotkeys.push_to_talk_keys.1).as_str());
    line.append(" together to dictate (push-to-talk); release either to insert at the cursor.");
    line
}

/// What is said of the hands-free key.
pub open spec fn hands_free_line(hotkeys: MultiHotkeyConfig) -> Seq<char> {
    "Tap "@ + name_of(hotkeys.hands_free_toggle_key)
        + " to toggle hands-free mode (VAD silence commits each utterance)."@
}

fn hands_free_text(hotkeys: &MultiHotkeyConfig) -> (line: String)
    ensures
        line@ == hands_free_line(*hotkeys),
{
    let mut line = "Tap ".to_owned();
    line.append(key_name(hotkeys.hands_free_toggle_key).as_str());
    line.append(" to toggle hands-free mode (VAD silence commits each utterance).");
    line
}

/// Where the models and the dictionary are.
pub struct LoadPaths {
    pub asr_model: String,
    pub vad_model: String,
    pub cleanup_model: String,
    pub dictionary: String,
}

/// A microphone that is live.
pub struct LiveMicrophone {
    pub name: String,
    pub sample_rate_hz: u32,
    pub channels: u16,
}

/// What a stage of loading came to: what was loaded, or why it was not.
pub enum Outcome {
    Start,
    /// The terms of the dictionary, or `None` where it could not be read.
    Dictionary(Option<Vec<String>>),
    AsrModel(Option<String>),
    VadModel(Option<String>),
    CleanupModel(Option<String>),
    TextInjector(Option<String>),
    Microphone(Result<LiveMicrophone, String>),
}

pub open spec fn terms_of(terms: Option<Vec<String>>) -> Option<Seq<Seq<char>>> {
    match terms {
        Some(terms) => Some(texts(terms@)),
        None => None,
    }
}

pub open spec fn cause_of(failure: Option<String>) -> Option<Seq<char>> {
    match failure {
        Some(cause) => Some(cause@),
        None => None,
    }
}

/// The stage that came to `outcome`.
pub open spec fn stage_of(outcome: Outcome) -> LoadStage {
    match outcome {
        Outcome::Start => LoadStage::Start,
        Outcome::Dictionary(_) => LoadStage::Dictionary,
        Outcome::AsrModel(_) => LoadStage::AsrModel,
        Outcome::VadModel(_) => LoadStage::VadModel,
        Outcome::CleanupModel(_) => LoadStage::CleanupModel,
        Outcome::TextInjector(_) => LoadStage::TextInjector,
        Outcome::Microphone(_) => LoadStage::Microphone,
    }
}

/// Why the engine cannot start after `outcome`, if it cannot.
pub open spec fn fatal(outcome: Outcome) -> Option<EngineError> {
    match outcome {
        Outcome::AsrModel(Some(cause)) => Some(EngineError::AsrModel(cause)),
        Outcome::VadModel(Some(cause)) => Some(EngineError::VadModel(cause)),
        Outcome::TextInjector(Some(cause)) => Some(EngineError::TextInjector(cause)),
        Outcome::Microphone(Err(cause)) => Some(EngineError::MicrophoneCapture(cause)),
        _ => None,
    }
}

/// What is said once a stage has come to `outcome`: first which models are
/// used, then what became of the dictionary and of the cleanup model, and in
/// the end what the microphone is and which keys to use. A part that the engine
/// cannot do without says nothing, loaded or not.
pub open spec fn lines_said(
    paths: LoadPaths,
    hotkeys: MultiHotkeyConfig,
    outcome: Outcome,
) -> Seq<Seq<char>> {
    match outcome {
        Outcome::Start => seq![asr_line(paths.asr_model@), vad_line(paths.vad_model@)],
        Outcome::Dictionary(terms) => seq![
            dictionary_line(paths.dictionary@, terms_of(terms)),
        ],
        Outcome::CleanupModel(failure) => seq![
            cleanup_line(paths.cleanup_model@, cause_of(failure)),
        ],
        Outcome::Microphone(Ok(microphone)) => seq![
            microphone_line(microphone),
            buffer_line(),
            push_to_talk_line(hotkeys),
            hands_free_line(hotkeys),
        ],
        _ => seq![],
    }
}

impl Outcome {
    /// What to say, line by line.
    pub fn lines(&self, paths: &LoadPaths, hotkeys: &MultiHotkeyConfig) -> (lines: Vec<String>)
        ensures
            texts(lines@) == lines_said(*paths, *hotkeys, *self),
    {
        let mut lines: Vec<String> = Vec::new();
        match self {
            Outcome::Start => {
                lines.push(labelled("ASR model: ", paths.asr_model.as_str()));
                lines.push(labelled("VAD model: ", paths.vad_model.as_str()));
            },
            Outcome::Dictionary(terms) => {
                lines.push(dictionary_text(paths.dictionary.as_str(), terms));
            },
            Outcome::CleanupModel(failure) => {
                lines.push(cleanup_text(paths.cleanup_model.as_str(), failure));
            },
            Outcome::Microphone(Ok(microphone)) => {
                lines.push(microphone_text(microphone));
                lines.push(
                    "Buffer is in-memory only (last ~30s, continuously overwritten) -- never written to disk.".to_owned(),
                );
                lines.push(push_to_talk_text(hotkeys));
                lines.push(hands_free_text(hotkeys));
            },
            _ => {},
        }
        assert(texts(lines@) =~= lines_said(*paths, *hotkeys, *self));
        lines
    }

    /// The prompt that biases transcription toward the terms of a dictionary,
    /// where one was read and has any.
    pub fn initial_prompt(&self) -> (prompt: Option<String>)
        ensures
            prompt is Some == (self matches Outcome::Dictionary(Some(terms)) && terms@.len() > 0),
            prompt matches Some(prompt) ==> (self matches Outcome::Dictionary(Some(terms))
                && prompt@ == prompt_of(texts(terms@))),
    {
        match self {
            Outcome::Dictionary(Some(terms)) => build_initial_prompt(terms.as_slice()),
            _ => None,
        }
    }

    /// What to load next, or why the engine cannot start.
    pub fn next(self) -> (next: Result<LoadStage, EngineError>)
        ensures
            next == match fatal(self) {
                Some(error) => Err(error),
                None => Ok::<LoadStage, EngineError>(next_stage(stage_of(self))),
            },
    {
        match self {
            Outcome::Start => after_stage(LoadStage::Start, None),
            Outcome::Dictionary(_) => after_stage(LoadStage::Dictionary, None),
            Outcome::AsrModel(failure) => after_stage(LoadStage::AsrModel, failure),
            Outcome::VadModel(failure) => after_stage(LoadStage::VadModel, failure),
            Outcome::CleanupModel(failure) => after_stage(LoadStage::CleanupModel, failure),
            Outcome::TextInjector(failure) => after_stage(LoadStage::TextInjector, failure),
            Outcome::Microphone(live) => match live {
                Ok(_) => after_stage(LoadStage::Microphone, None),
                Err(cause) => after_stage(LoadStage::Microphone, Some(cause)),
            },
        }
    }
}

/// The stage that comes after `n` others.
pub open spec fn nth_stage(n: nat) -> LoadStage
    decreases n,
{
    if n == 0 {
        LoadStage::Start
    } else {
        next_stage(nth_stage((n - 1) as nat))
    }
}

/// `outcomes` are those of the stages in their order, and none but the last
/// stopped the engine.
pub open spec fn is_load(outcomes: Seq<Outcome>) -> bool {
    &&& forall|i: int|
        0 <= i < outcomes.len() ==> stage_of(#[trigger] outcomes[i]) == nth_stage(i as nat)
    &&& forall|i: int| 0 <= i < outcomes.len() - 1 ==> fatal(#[trigger] outcomes[i]) is None
}

/// All that is said on the way.
pub open spec fn all_said(
    paths: LoadPaths,
    hotkeys: MultiHotkeyConfig,
    outcomes: Seq<Outcome>,
) -> Seq<Seq<char>>
    decreases outcomes.len(),
{
    if outcomes.len() == 0 {
        seq![]
    } else {
        all_said(paths, hotkeys, outcomes.drop_last()) + lines_said(
            paths,
            hotkeys,
            outcomes.last(),
        )
    }
}

/// Loading ends, and of its parts only the dictionary and the cleanup model are
/// optional.
pub proof fn law_loading_ends(stage: LoadStage)
    ensures
        is_optional(stage) <==> stage != LoadStage::AsrModel && stage != LoadStage::VadModel
            && stage != LoadStage::TextInjector && stage != LoadStage::Microphone,
        next_stage(
            next_stage(next_stage(next_stage(next_stage(next_stage(next_stage(stage)))))),
        ) == LoadStage::Done,
{
}

/// An engine that starts has said eight lines and no other, in this order.
pub proof fn law_what_a_start_says(
    paths: LoadPaths,
    hotkeys: MultiHotkeyConfig,
    outcomes: Seq<Outcome>,
)
    requires
        is_load(outcomes),
        outcomes.len() == 7,
        fatal(outcomes.last()) is None,
    ensures
        outcomes[1] is Dictionary,
        outcomes[4] is CleanupModel,
        outcomes[6] matches Outcome::Microphone(Ok(_)),
        all_said(paths, hotkeys, outcomes) == seq![
            asr_line(paths.asr_model@),
            vad_line(paths.vad_model@),
            dictionary_line(paths.dictionary@, terms_of(outcomes[1]->Dictionary_0)),
            cleanup_line(paths.cleanup_model@, cause_of(outcomes[4]->CleanupModel_0)),
            microphone_line(outcomes[6]->Microphone_0->Ok_0),
            buffer_line(),
            push_to_talk_line(hotkeys),
            hands_free_line(hotkeys),
        ],
{
    reveal_with_fuel(nth_stage, 8);
    assert(forall|i: int| 0 <= i < 7 ==> stage_of(#[trigger] outcomes[i]) == nth_stage(i as nat));
    assert(stage_of(outcomes[0]) == LoadStage::Start);
    assert(stage_of(outcomes[1]) == LoadStage::Dictionary);
    assert(stage_of(outcomes[2]) == LoadStage::AsrModel);
    assert(stage_of(outcomes[3]) == LoadStage::VadModel);
    assert(stage_of(outcomes[4]) == LoadStage::CleanupModel);
    assert(stage_of(outcomes[5]) == LoadStage::TextInjector);
    assert(stage_of(outcomes[6]) == LoadStage::Microphone);
    lemma_said_step(paths, hotkeys, outcomes, 1);
    lemma_said_step(paths, hotkeys, outcomes, 2);
    lemma_said_step(paths, hotkeys, outcomes, 3);
    lemma_said_step(paths, hotkeys, outcomes, 4);
    lemma_said_step(paths, hotkeys, outcomes, 5);
    lemma_said_step(paths, hotkeys, outcomes, 6);
    lemma_said_step(paths, hotkeys, outcomes, 7);
    assert(outcomes.take(0).len() == 0);
    assert(outcomes.take(7) =~= outcomes);
}

proof fn lemma_said_step(
    paths: LoadPaths,
    hotkeys: MultiHotkeyConfig,
    outcomes: Seq<Outcome>,
    n: int,
)
    requires
        0 < n <= outcomes.len(),
    ensures
        all_said(paths, hotkeys, outcomes.take(n)) == all_said(
            paths,
            hotkeys,
            outcomes.take(n - 1),
        ) + lines_said(paths, hotkeys, outcomes[n - 1]),
{
    assert(outcomes.take(n).drop_last() =~= outcomes.take(n - 1));
}

/// A part that stops the engine says nothing itself: its error does.
pub proof fn law_what_stops_the_engine_says_nothing(
    paths: LoadPaths,
    hotkeys: MultiHotkeyConfig,
    outcomes: Seq<Outcome>,
)
    requires
        is_load(outcomes),
        outcomes.len() > 0,
        fatal(outcomes.last()) is Some,
    ensures
        !is_optional(stage_of(outcomes.last())),
        all_said(paths, hotkeys, outcomes) == all_said(paths, hotkeys, outcomes.drop_last()),
{
    assert(all_said(paths, hotkeys, outcomes) =~= all_said(paths, hotkeys, outcomes.drop_last()));
}

/// The order of loading, one part after the other.
pub proof fn law_the_order_of_loading()
    ensures
        nth_stage(0) == LoadStage::Start,
        nth_stage(1) == LoadStage::Dictionary,
        nth_stage(2) == LoadStage::AsrModel,
        nth_stage(3) == LoadStage::VadModel,
        nth_stage(4) == LoadStage::CleanupModel,
        nth_stage(5) == LoadStage::TextInjector,
        nth_stage(6) == LoadStage::Microphone,
        nth_stage(7) == LoadStage::Done,
        next_stage(LoadStage::Done) == LoadStage::Done,
{
    reveal_with_fuel(nth_stage, 8);
}

/// What stops the engine: that a model for speech or voice activity, the text
/// injector or the microphone failed, each for its own cause, and nothing else.
pub proof fn law_what_stops_the_engine(
    cause: String,
    terms: Option<Vec<String>>,
    failure: Option<String>,
    microphone: LiveMicrophone,
)
    ensures
        fatal(Outcome::AsrModel(Some(cause))) == Some(EngineError::AsrModel(cause)),
        fatal(Outcome::VadModel(Some(cause))) == Some(EngineError::VadModel(cause)),
        fatal(Outcome::TextInjector(Some(cause))) == Some(EngineError::TextInjector(cause)),
        fatal(Outcome::Microphone(Err(cause))) == Some(EngineError::MicrophoneCapture(cause)),
        fatal(Outcome::Start) is None,
        fatal(Outcome::Dictionary(terms)) is None,
        fatal(Outcome::CleanupModel(failure)) is None,
        fatal(Outcome::AsrModel(None)) is None,
        fatal(Outcome::VadModel(None)) is None,
        fatal(Outcome::TextInjector(None)) is None,
        fatal(Outcome::Microphone(Ok(microphone))) is None,
        error_text(EngineError::AsrModel(cause)) == "couldn't load ASR model: "@ + cause@,
        error_text(EngineError::VadModel(cause)) == "couldn't load VAD model: "@ + cause@,
        error_text(EngineError::TextInjector(cause)) == "couldn't initialize text injection: "@
            + cause@,
        error_text(EngineError::MicrophoneCapture(cause)) == "couldn't start microphone capture: "@
            + cause@,
{
}

/// What is said of each part: its path or its name, whole, and of the dictionary
/// how many terms it has.
pub proof fn law_what_is_said_of_each_part(
    path: Seq<char>,
    terms: Seq<Seq<char>>,
    cause: Seq<char>,
    microphone: LiveMicrophone,
    hotkeys: MultiHotkeyConfig,
)
    ensures
        asr_line(path) == "ASR model: "@ + path,
        vad_line(path) == "VAD model: "@ + path,
        terms.len() > 0 ==> dictionary_line(path, Some(terms)) == "User dictionary: "@ + decimal(
            terms.len(),
        ) + " term(s) loaded"@,
        terms.len() == 0 ==> dictionary_line(path, Some(terms)) == "User dictionary: "@ + path
            + " is empty, no bias applied"@,
        dictionary_line(path, None) == "User dictionary: none found at "@ + path
            + " (optional; see README.md)"@,
        cleanup_line(path, None) == "Cleanup model: "@ + path,
        cleanup_line(path, Some(cause)) == "Cleanup pass disabled (couldn't load "@ + path + "): "@
            + cause,
        microphone_line(microphone) == "Mic is live: "@ + microphone.name@ + " @ "@ + decimal(
            microphone.sample_rate_hz as nat,
        ) + "Hz/"@ + decimal(microphone.channels as nat) + "ch, resampled to "@ + decimal(16_000)
            + "Hz mono."@,
        push_to_talk_line(hotkeys) == "Hold "@ + name_of(hotkeys.push_to_talk_keys.0) + " + "@
            + name_of(hotkeys.push_to_talk_keys.1)
            + " together to dictate (push-to-talk); release either to insert at the cursor."@,
        hands_free_line(hotkeys) == "Tap "@ + name_of(hotkeys.hands_free_toggle_key)
            + " to toggle hands-free mode (VAD silence commits each utterance)."@,
{
}

} // verus!
