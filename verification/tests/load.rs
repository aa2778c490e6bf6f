use openvoice::asr_config::{default_thread_count, AsrConfig};
use openvoice::decimal::decimal_of;
use openvoice::hotkey::MultiHotkeyConfig;
use openvoice::key::{key_name, HotkeyKey};
use openvoice::load::{
    after_stage, EngineError, LiveMicrophone, LoadPaths, LoadStage, Outcome,
};
use openvoice::paths::{cleanup_model_path, dictionary_path, model_path, vad_model_path};

fn some(text: &str) -> Option<String> {
    Some(text.to_string())
}

#[test]
fn parts_are_loaded_in_order() {
    let mut stage = LoadStage::Start;
    let mut seen = vec![stage];
    while stage != LoadStage::Done {
        stage = after_stage(stage, None).unwrap();
        seen.push(stage);
    }
    assert_eq!(
        seen,
        vec![
            LoadStage::Start,
            LoadStage::Dictionary,
            LoadStage::AsrModel,
            LoadStage::VadModel,
            LoadStage::CleanupModel,
            LoadStage::TextInjector,
            LoadStage::Microphone,
            LoadStage::Done,
        ]
    );
}

#[test]
fn a_part_that_is_needed_stops_the_engine() {
    let failed = |stage| after_stage(stage, some("why")).unwrap_err();
    assert_eq!(failed(LoadStage::AsrModel), EngineError::AsrModel("why".to_string()));
    assert_eq!(failed(LoadStage::AsrModel).message(), "couldn't load ASR model: why");
    assert_eq!(failed(LoadStage::VadModel).message(), "couldn't load VAD model: why");
    assert_eq!(
        failed(LoadStage::TextInjector).message(),
        "couldn't initialize text injection: why"
    );
    assert_eq!(
        failed(LoadStage::Microphone).message(),
        "couldn't start microphone capture: why"
    );
}

#[test]
fn an_optional_part_may_be_missing() {
    assert_eq!(after_stage(LoadStage::Dictionary, some("why")), Ok(LoadStage::AsrModel));
    assert_eq!(after_stage(LoadStage::CleanupModel, some("why")), Ok(LoadStage::TextInjector));
}

#[test]
fn paths_come_from_the_argument_then_the_environment_then_the_default() {
    assert_eq!(model_path(some("a"), some("b")), "a");
    assert_eq!(model_path(None, some("b")), "b");
    assert_eq!(model_path(None, None), "models/ggml-distil-small.en.bin");
    assert_eq!(vad_model_path(some("v")), "v");
    assert_eq!(vad_model_path(None), "models/silero_vad.onnx");
    assert_eq!(cleanup_model_path(some("c")), "c");
    assert_eq!(cleanup_model_path(None), "models/qwen2.5-0.5b-instruct-q4_k_m.gguf");
    assert_eq!(dictionary_path(some("d")), "d");
    assert_eq!(dictionary_path(None), "dictionary.txt");
}

#[test]
fn threads_are_half_of_what_the_machine_has() {
    assert_eq!(default_thread_count(None), 2);
    assert_eq!(default_thread_count(Some(1)), 1);
    assert_eq!(default_thread_count(Some(6)), 3);
    assert_eq!(default_thread_count(Some(16)), 8);
    assert_eq!(default_thread_count(Some(usize::MAX)), 8);
}

#[test]
fn decoding_is_greedy_and_scoped_to_the_audio() {
    let mut config = AsrConfig::new("model.bin".to_string(), Some(8));
    assert_eq!(config.model_path, "model.bin");
    assert_eq!(config.n_threads, 4);
    config.initial_prompt = some("names");
    let params = config.decode_params(10 * 16_000);
    assert_eq!(params.best_of, 1);
    assert_eq!(params.n_threads, 4);
    assert_eq!(params.audio_ctx, 512);
    assert_eq!(params.temperature_hundredths, 0);
    assert_eq!(params.temperature_inc_hundredths, 40);
    assert_eq!(params.language, some("en"));
    assert_eq!(params.initial_prompt, some("names"));
    assert!(params.no_context && params.no_timestamps && params.suppress_blank);
    assert!(!params.translate && !params.single_segment && !params.print);
}

fn lines(outcome: &Outcome) -> Vec<String> {
    let paths = LoadPaths {
        asr_model: "a".to_string(),
        vad_model: "b".to_string(),
        cleanup_model: "m.gguf".to_string(),
        dictionary: "d.txt".to_string(),
    };
    outcome.lines(&paths, &MultiHotkeyConfig::default())
}

fn live() -> LiveMicrophone {
    LiveMicrophone { name: "Mic 1".to_string(), sample_rate_hz: 44_100, channels: 2 }
}

#[test]
fn what_is_loaded_is_said() {
    assert_eq!(lines(&Outcome::Start), vec!["ASR model: a", "VAD model: b"]);
    let terms: Vec<String> = (0..12).map(|i| format!("t{i}")).collect();
    let read = Outcome::Dictionary(Some(terms));
    assert!(read.initial_prompt().unwrap().starts_with("Vocabulary that may appear: t0, t1, "));
    assert_eq!(lines(&read), vec!["User dictionary: 12 term(s) loaded"]);
    let empty = Outcome::Dictionary(Some(Vec::new()));
    assert_eq!(empty.initial_prompt(), None);
    assert_eq!(lines(&empty), vec!["User dictionary: d.txt is empty, no bias applied"]);
    let missing = Outcome::Dictionary(None);
    assert_eq!(missing.initial_prompt(), None);
    assert_eq!(
        lines(&missing),
        vec!["User dictionary: none found at d.txt (optional; see README.md)"]
    );
    assert_eq!(lines(&Outcome::CleanupModel(None)), vec!["Cleanup model: m.gguf"]);
    assert_eq!(
        lines(&Outcome::CleanupModel(some("no such file"))),
        vec!["Cleanup pass disabled (couldn't load m.gguf): no such file"]
    );
    assert_eq!(
        lines(&Outcome::Microphone(Ok(live()))),
        vec![
            "Mic is live: Mic 1 @ 44100Hz/2ch, resampled to 16000Hz mono.",
            "Buffer is in-memory only (last ~30s, continuously overwritten) -- never written to \
             disk.",
            "Hold ControlLeft + ShiftLeft together to dictate (push-to-talk); release either to \
             insert at the cursor.",
            "Tap AltGr to toggle hands-free mode (VAD silence commits each utterance).",
        ]
    );
}

#[test]
fn a_part_that_is_needed_says_nothing() {
    for failure in [None, some("why")] {
        assert!(lines(&Outcome::AsrModel(failure.clone())).is_empty());
        assert!(lines(&Outcome::VadModel(failure.clone())).is_empty());
        assert!(lines(&Outcome::TextInjector(failure)).is_empty());
    }
    assert!(lines(&Outcome::Microphone(Err("why".to_string()))).is_empty());
}

#[test]
fn an_outcome_leads_to_the_next_stage_or_to_an_error() {
    assert_eq!(Outcome::Start.next(), Ok(LoadStage::Dictionary));
    assert_eq!(Outcome::Dictionary(None).next(), Ok(LoadStage::AsrModel));
    assert_eq!(Outcome::AsrModel(None).next(), Ok(LoadStage::VadModel));
    assert_eq!(
        Outcome::AsrModel(some("why")).next(),
        Err(EngineError::AsrModel("why".to_string()))
    );
    assert_eq!(
        Outcome::VadModel(some("why")).next(),
        Err(EngineError::VadModel("why".to_string()))
    );
    assert_eq!(Outcome::CleanupModel(some("why")).next(), Ok(LoadStage::TextInjector));
    assert_eq!(
        Outcome::TextInjector(some("why")).next(),
        Err(EngineError::TextInjector("why".to_string()))
    );
    assert_eq!(Outcome::Microphone(Ok(live())).next(), Ok(LoadStage::Done));
    assert_eq!(
        Outcome::Microphone(Err("why".to_string())).next(),
        Err(EngineError::MicrophoneCapture("why".to_string()))
    );
}

#[test]
fn a_start_says_eight_lines() {
    let outcomes = vec![
        Outcome::Start,
        Outcome::Dictionary(None),
        Outcome::AsrModel(None),
        Outcome::VadModel(None),
        Outcome::CleanupModel(some("none")),
        Outcome::TextInjector(None),
        Outcome::Microphone(Ok(live())),
    ];
    let said: Vec<String> = outcomes.iter().flat_map(lines).collect();
    assert_eq!(said.len(), 8);
    assert_eq!(said[0], "ASR model: a");
    assert_eq!(said[3], "Cleanup pass disabled (couldn't load m.gguf): none");
    assert!(said[7].starts_with("Tap AltGr "));
}

#[test]
fn keys_are_called_by_their_places() {
    for key in [HotkeyKey::AltGr, HotkeyKey::KeyV, HotkeyKey::Kp0, HotkeyKey::Unknown(173)] {
        assert_eq!(key_name(key), format!("{key:?}"));
    }
}

#[test]
fn numbers_are_written_in_decimal() {
    for n in [0, 7, 10, 99, 100, 16_000, u64::MAX] {
        assert_eq!(decimal_of(n), n.to_string());
    }
}
