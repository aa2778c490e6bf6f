use openvoice::endpoint::EndpointConfig;
use openvoice::engine::{absorb, choose_text, Action, Engine, Step};
use openvoice::hotkey::MultiHotkeyConfig;
use openvoice::key::HotkeyKey;
use openvoice::ring_buffer::RingBuffer;
use openvoice::status::{ControlEvent, PipelineStatus};

/// A sample of at least this is speech, in these tests.
const LOUD: u32 = 100;

fn engine(cleanup_loaded: bool) -> Engine<u32, u32> {
    Engine::new(
        "mic".to_string(),
        MultiHotkeyConfig::default(),
        EndpointConfig::with_threshold(LOUD),
        cleanup_loaded,
    )
}

/// Carries out every action until the engine waits: a frame is scored by its
/// first sample, a window is decoded as the engine was asked to hear it, and
/// insertion works. Returns what was reported, decoded and inserted.
struct Driver {
    statuses: Vec<PipelineStatus>,
    decoded: Vec<(u32, usize)>,
    cleaned: Vec<String>,
    inserted: Vec<String>,
    starts: usize,
    quit: bool,
    texts: Vec<Option<&'static str>>,
    clean_answer: Option<&'static str>,
    insert_error: Option<&'static str>,
}

fn driver(texts: &[Option<&'static str>]) -> Driver {
    Driver {
        statuses: Vec::new(),
        decoded: Vec::new(),
        cleaned: Vec::new(),
        inserted: Vec::new(),
        starts: 0,
        quit: false,
        texts: texts.iter().rev().copied().collect(),
        clean_answer: None,
        insert_error: None,
    }
}

impl Driver {
    fn drive(&mut self, engine: &mut Engine<u32, u32>, ring: &RingBuffer<u32>, first: Step<u32>) {
        let mut step = first;
        loop {
            self.statuses.extend(step.statuses);
            if step.session_started {
                self.starts += 1;
            }
            step = match step.action {
                Action::Wait => {
                    assert!(!engine.inserting());
                    return;
                }
                Action::Quit => {
                    self.quit = true;
                    return;
                }
                Action::Score(frame) => {
                    assert_eq!(frame.len(), 512);
                    engine.on_score(Some(frame[0]), ring)
                }
                Action::Decode(window) => {
                    self.decoded.push((window[0], window.len()));
                    let text = self.texts.pop().unwrap_or(None);
                    engine.on_decoded(text.map(|t| t.to_string()), ring)
                }
                Action::Clean(text) => {
                    self.cleaned.push(text);
                    engine.on_cleaned(self.clean_answer.map(|t| t.to_string()))
                }
                Action::Insert(text) => {
                    assert!(engine.inserting());
                    self.inserted.push(text);
                    engine.on_inserted(self.insert_error.map(|t| t.to_string()), ring)
                }
            };
        }
    }

    fn control(&mut self, engine: &mut Engine<u32, u32>, ring: &RingBuffer<u32>, e: ControlEvent) {
        let step = engine.on_control(e, ring);
        self.drive(engine, ring, step);
    }

    fn poll(&mut self, engine: &mut Engine<u32, u32>, ring: &RingBuffer<u32>) {
        let step = engine.on_poll(ring);
        self.drive(engine, ring, step);
    }
}

fn samples(ring: &mut RingBuffer<u32>, value: u32, count: usize) {
    ring.push(&vec![value; count]);
}

#[test]
fn an_engine_knows_its_setup() {
    let engine = engine(true);
    assert_eq!(engine.mic_name(), "mic");
    assert!(engine.cleanup_enabled());
    assert_eq!(engine.hotkey_config().hands_free_toggle_key, HotkeyKey::AltGr);
    assert!(!engine.session_open());
    assert!(engine.cleanup_active());
    assert!(!engine.speech_heard());
    assert_eq!(engine.transcript(), None);
    assert_eq!(
        engine.ready(),
        PipelineStatus::Ready { mic_name: "mic".to_string(), cleanup_enabled: true }
    );
}

#[test]
fn push_to_talk_decodes_the_tail_and_inserts_once() {
    let mut ring = RingBuffer::new(480_000);
    samples(&mut ring, 1, 10_000);
    let mut engine = engine(false);
    let mut d = driver(&[Some("um hello there")]);
    d.control(&mut engine, &ring, ControlEvent::PushToTalkPressed);
    assert!(engine.push_to_talk_active());
    assert_eq!(d.statuses, vec![PipelineStatus::Recording]);
    assert_eq!(d.starts, 1);
    samples(&mut ring, 200, 4_000);
    d.control(&mut engine, &ring, ControlEvent::PushToTalkReleased);
    assert!(!engine.session_open());
    assert_eq!(d.decoded, vec![(1, 12_000)]);
    assert_eq!(d.inserted, vec!["hello there".to_string()]);
    assert_eq!(
        d.statuses[1..],
        [
            PipelineStatus::Transcribing,
            PipelineStatus::Inserted("hello there".to_string())
        ]
    );
    assert!(d.cleaned.is_empty());
}

#[test]
fn windows_are_decoded_while_speaking_and_merged() {
    let mut ring = RingBuffer::new(480_000);
    let mut engine = engine(false);
    let mut d = driver(&[Some("one two three"), Some("three four"), Some(" "), Some("five")]);
    d.control(&mut engine, &ring, ControlEvent::PushToTalkPressed);
    samples(&mut ring, 200, 20_000);
    assert!(!engine.speech_heard());
    d.poll(&mut engine, &ring);
    assert!(engine.speech_heard());
    assert_eq!(engine.transcript(), Some("one two three"));
    assert_eq!(d.decoded, vec![(200, 19_200)]);
    samples(&mut ring, 201, 32_000);
    d.poll(&mut engine, &ring);
    d.poll(&mut engine, &ring);
    assert_eq!(d.decoded, vec![(200, 19_200), (200, 19_200), (201, 19_200)]);
    d.poll(&mut engine, &ring);
    assert_eq!(d.decoded.len(), 3);
    d.control(&mut engine, &ring, ControlEvent::PushToTalkReleased);
    assert_eq!(d.decoded[3], (201, 4_000));
    assert_eq!(d.inserted, vec!["one two three four five".to_string()]);
}

#[test]
fn silence_is_not_decoded_while_a_key_is_held() {
    let mut ring = RingBuffer::new(480_000);
    let mut engine = engine(false);
    let mut d = driver(&[None]);
    d.control(&mut engine, &ring, ControlEvent::PushToTalkPressed);
    samples(&mut ring, 1, 40_000);
    d.poll(&mut engine, &ring);
    assert!(d.decoded.is_empty());
    d.control(&mut engine, &ring, ControlEvent::PushToTalkReleased);
    assert_eq!(d.decoded, vec![(1, 40_000)]);
    assert_eq!(d.statuses.last(), Some(&PipelineStatus::HeardNothing));
    assert!(d.inserted.is_empty());
}

#[test]
fn silence_does_not_end_push_to_talk() {
    let mut ring = RingBuffer::new(480_000);
    let mut engine = engine(false);
    let mut d = driver(&[]);
    d.control(&mut engine, &ring, ControlEvent::PushToTalkPressed);
    samples(&mut ring, 200, 512 * 4);
    samples(&mut ring, 1, 512 * 4);
    d.poll(&mut engine, &ring);
    assert!(engine.push_to_talk_active());
    assert_eq!(d.statuses, vec![PipelineStatus::Recording]);
}

#[test]
fn hands_free_commits_on_silence_and_listens_on() {
    let mut ring = RingBuffer::new(480_000);
    let mut engine = engine(false);
    let mut d = driver(&[Some("first utterance"), Some("er")]);
    d.control(&mut engine, &ring, ControlEvent::HandsFreeTogglePressed);
    assert_eq!(d.statuses, vec![PipelineStatus::HandsFreeOn, PipelineStatus::Listening]);
    samples(&mut ring, 200, 512 * 4);
    samples(&mut ring, 1, 512 * 3);
    d.poll(&mut engine, &ring);
    assert_eq!(
        d.statuses[2..],
        [
            PipelineStatus::Transcribing,
            PipelineStatus::Inserted("first utterance".to_string()),
            PipelineStatus::Listening
        ]
    );
    assert!(engine.session_open() && !engine.push_to_talk_active());
    assert_eq!(d.starts, 2);
    d.control(&mut engine, &ring, ControlEvent::HandsFreeTogglePressed);
    assert_eq!(
        d.statuses[5..],
        [
            PipelineStatus::HandsFreeOff,
            PipelineStatus::Transcribing,
            PipelineStatus::HeardNothing
        ]
    );
    assert!(!engine.session_open());
    assert_eq!(d.inserted, vec!["first utterance".to_string()]);
}

#[test]
fn the_other_modes_key_is_ignored_while_a_session_is_open() {
    let ring = RingBuffer::new(480_000);
    let mut engine = engine(false);
    let mut d = driver(&[]);
    d.control(&mut engine, &ring, ControlEvent::PushToTalkPressed);
    d.control(&mut engine, &ring, ControlEvent::HandsFreeTogglePressed);
    d.control(&mut engine, &ring, ControlEvent::PushToTalkPressed);
    assert_eq!(d.statuses, vec![PipelineStatus::Recording]);
    d.control(&mut engine, &ring, ControlEvent::PushToTalkReleased);
    assert!(!engine.session_open());
    d.control(&mut engine, &ring, ControlEvent::PushToTalkReleased);
    assert_eq!(d.statuses.len(), 3);
    d.control(&mut engine, &ring, ControlEvent::HandsFreeTogglePressed);
    d.control(&mut engine, &ring, ControlEvent::PushToTalkPressed);
    d.control(&mut engine, &ring, ControlEvent::PushToTalkReleased);
    assert!(engine.session_open());
    assert_eq!(d.statuses.len(), 5);
}

#[test]
fn cleanup_is_used_where_it_is_loaded_and_on() {
    let mut ring = RingBuffer::new(480_000);
    let mut engine = engine(true);
    let mut d = driver(&[Some("so um this"), Some("that"), Some("there"), Some("other")]);
    let mut speak = |engine: &mut Engine<u32, u32>, d: &mut Driver| {
        d.control(engine, &ring, ControlEvent::PushToTalkPressed);
        samples(&mut ring, 200, 100);
        d.control(engine, &ring, ControlEvent::PushToTalkReleased);
    };
    d.clean_answer = Some("So, this.");
    speak(&mut engine, &mut d);
    d.clean_answer = Some(" \n");
    speak(&mut engine, &mut d);
    d.clean_answer = None;
    speak(&mut engine, &mut d);
    assert_eq!(d.cleaned, vec!["so this", "that", "there"]);
    assert_eq!(d.inserted, vec!["So, this.", "that", "there"]);
    let step = engine.on_control(ControlEvent::SetCleanupEnabled(false), &RingBuffer::new(1));
    assert!(step.statuses.is_empty());
    speak(&mut engine, &mut d);
    assert_eq!(d.cleaned.len(), 3);
    assert_eq!(d.inserted[3], "other");
}

#[test]
fn cleanup_stays_off_without_a_model() {
    let mut ring = RingBuffer::new(480_000);
    let mut engine = engine(false);
    let mut d = driver(&[Some("words")]);
    d.control(&mut engine, &ring, ControlEvent::SetCleanupEnabled(true));
    d.control(&mut engine, &ring, ControlEvent::PushToTalkPressed);
    samples(&mut ring, 200, 100);
    d.control(&mut engine, &ring, ControlEvent::PushToTalkReleased);
    assert!(d.cleaned.is_empty());
    assert_eq!(d.inserted, vec!["words"]);
}

#[test]
fn a_failed_insertion_is_a_warning() {
    let mut ring = RingBuffer::new(480_000);
    let mut engine = engine(false);
    let mut d = driver(&[Some("words")]);
    d.insert_error = Some("no keyboard");
    d.control(&mut engine, &ring, ControlEvent::PushToTalkPressed);
    samples(&mut ring, 200, 100);
    d.control(&mut engine, &ring, ControlEvent::PushToTalkReleased);
    assert_eq!(
        d.statuses.last(),
        Some(&PipelineStatus::Warning("couldn't insert text: no keyboard".to_string()))
    );
}

#[test]
fn nothing_recorded_is_nothing_heard() {
    let ring = RingBuffer::new(480_000);
    let mut engine = engine(true);
    let mut d = driver(&[]);
    d.control(&mut engine, &ring, ControlEvent::PushToTalkPressed);
    d.control(&mut engine, &ring, ControlEvent::PushToTalkReleased);
    assert!(d.decoded.is_empty());
    assert_eq!(
        d.statuses,
        vec![
            PipelineStatus::Recording,
            PipelineStatus::Transcribing,
            PipelineStatus::HeardNothing
        ]
    );
}

#[test]
fn frames_that_cannot_be_scored_are_passed_over() {
    let mut ring = RingBuffer::new(480_000);
    let mut engine = engine(false);
    let _ = engine.on_control(ControlEvent::HandsFreeTogglePressed, &ring);
    samples(&mut ring, 200, 512 * 2);
    let mut step = engine.on_poll(&ring);
    let mut scored = 0;
    while let Action::Score(_) = step.action {
        scored += 1;
        step = engine.on_score(None, &ring);
    }
    assert_eq!(scored, 2);
    assert!(matches!(step.action, Action::Wait));
    assert!(matches!(engine.on_poll(&ring).action, Action::Wait));
}

#[test]
fn a_poll_without_a_session_does_nothing_and_quit_quits() {
    let ring = RingBuffer::new(480_000);
    let mut engine = engine(false);
    let mut d = driver(&[]);
    d.poll(&mut engine, &ring);
    assert!(d.statuses.is_empty() && !d.quit);
    d.control(&mut engine, &ring, ControlEvent::Quit);
    assert!(d.statuses.is_empty() && d.quit);
}

#[test]
fn only_text_that_is_not_blank_is_absorbed_or_chosen() {
    assert_eq!(absorb("a b", &Some("b c".to_string())), "a b c");
    assert_eq!(absorb("a b", &Some(" \t".to_string())), "a b");
    assert_eq!(absorb("a b", &None), "a b");
    assert_eq!(choose_text("raw".to_string(), Some("clean".to_string())), "clean");
    assert_eq!(choose_text("raw".to_string(), Some(" ".to_string())), "raw");
    assert_eq!(choose_text("raw".to_string(), None), "raw");
}
