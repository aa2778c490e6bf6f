//! The dictation engine: push-to-talk and hands-free sessions, streaming
//! transcription while the user talks, and one insertion when they stop.
//!
//! The engine decides. Whoever drives it carries out the [`Action`] of each
//! [`Step`] and hands the outcome back.

use vstd::prelude::*;
use vstd::std_specs::cmp::PartialOrdSpec;

use crate::disfluency::strip_disfluencies;
use crate::endpoint::{at_rest, reaches, EndpointConfig, EndpointEvent, Endpointer};
use crate::framing::{next_frame_range, FRAME_SAMPLES};
use crate::hotkey::MultiHotkeyConfig;
use crate::machine::{
    absorbed, chosen, cleaned, committing, concluded, controlled, decoded, finished, frame_scored,
    inserted, listened, machine_wf, opened, polled,
    push_to_talk_open, scoring, session_wf, Deed, Machine, Move, Phase,
};
use crate::merge::{merge_overlap, merged};
use crate::ring_buffer::RingBuffer;
use crate::session::{Session, SessionMode, PRE_ROLL_SAMPLES};
use crate::slices::copy_of;
use crate::status::{statuses, ControlEvent, PipelineStatus, Status};
use crate::window::{WindowPolicy, DEFAULT_STRIDE_SAMPLES, DEFAULT_WINDOW_SAMPLES};
use crate::words::{all_space, is_blank};

verus! {

/// How often an open session is polled for new audio.
pub const POLL_INTERVAL_MILLIS: u64 = 100;

enum Stage<T> {
    Waiting,
    Scoring { audio: Vec<T>, last_event: Option<EndpointEvent> },
    Decoding { speech_ended: bool },
    Closing { committed: String, resume: bool },
    Cleaning { spoken: String, resume: bool },
    Inserting { text: String, resume: bool },
}

impl<T> View for Stage<T> {
    type V = Phase<T>;

    closed spec fn view(&self) -> Phase<T> {
        match *self {
            Stage::Waiting => Phase::Waiting,
            Stage::Scoring { audio, last_event } => Phase::Scoring { audio: audio@, last_event },
            Stage::Decoding { speech_ended } => Phase::Decoding { speech_ended },
            Stage::Closing { committed, resume } => Phase::Closing {
                committed: committed@,
                resume,
            },
            Stage::Cleaning { spoken, resume } => Phase::Cleaning { spoken: spoken@, resume },
            Stage::Inserting { text, resume } => Phase::Inserting { text: text@, resume },
        }
    }
}

/// What the driver of an engine is to do next.
pub enum Action<T> {
    /// Wait for a control event; while a session is open, no longer than the
    /// poll interval, and then poll.
    Wait,
    /// Score one frame with the voice activity model.
    Score(Vec<T>),
    /// Transcribe a window.
    Decode(Vec<T>),
    /// Clean up an utterance, within the deadline.
    Clean(String),
    /// Insert text at the cursor.
    Insert(String),
    /// Stop.
    Quit,
}

impl<T> View for Action<T> {
    type V = Deed<T>;

    open spec fn view(&self) -> Deed<T> {
        match *self {
            Action::Wait => Deed::Wait,
            Action::Score(frame) => Deed::Score(frame@),
            Action::Decode(window) => Deed::Decode(window@),
            Action::Clean(text) => Deed::Clean(text@),
            Action::Insert(text) => Deed::Insert(text@),
            Action::Quit => Deed::Quit,
        }
    }
}

/// One move of an engine.
pub struct Step<T> {
    /// What to report, in order.
    pub statuses: Vec<PipelineStatus>,
    /// Whether a session started: the voice activity model forgets what it
    /// heard.
    pub session_started: bool,
    pub action: Action<T>,
}

pub struct Engine<T, P> {
    hotkey_config: MultiHotkeyConfig,
    mic_name: String,
    /// Whether a cleanup model was loaded.
    cleanup_loaded: bool,
    /// Whether it may be used.
    cleanup_runtime_enabled: bool,
    window_policy: WindowPolicy,
    endpointer: Endpointer<P>,
    session: Option<Session<T>>,
    stage: Stage<T>,
}

/// The transcript of the utterance under way.
pub open spec fn transcript_of<T, P>(machine: Machine<T, P>) -> Option<Seq<char>> {
    match (machine.session, machine.phase) {
        (Some(session), _) => Some(session.committed),
        (None, Phase::Closing { committed, .. }) => Some(committed),
        _ => None,
    }
}

/// `step` and the machine it left are the move `to`.
pub open spec fn is_move<T, P>(machine: Machine<T, P>, step: Step<T>, to: Move<T, P>) -> bool {
    &&& machine == to.machine
    &&& statuses(step.statuses@) == to.reported
    &&& step.session_started == to.session_started
    &&& step.action@ == to.deed
}

/// The audio of a session from `ring` can be counted, with a window and a frame
/// to spare.
pub open spec fn countable<T>(ring: RingBuffer<T>) -> bool {
    &&& ring.wf()
    &&& PRE_ROLL_SAMPLES + ring.cap() + DEFAULT_WINDOW_SAMPLES + FRAME_SAMPLES <= usize::MAX
}

impl<T, P> View for Engine<T, P> {
    type V = Machine<T, P>;

    closed spec fn view(&self) -> Machine<T, P> {
        Machine {
            cleanup_loaded: self.cleanup_loaded,
            cleanup_on: self.cleanup_runtime_enabled,
            policy: self.window_policy,
            config: self.endpointer.configured(),
            at: self.endpointer@,
            session: match self.session {
                Some(session) => Some(session@),
                None => None,
            },
            phase: self.stage@,
        }
    }
}

proof fn lemma_reported(list: Seq<PipelineStatus>, status: PipelineStatus)
    ensures
        statuses(list.push(status)) == statuses(list).push(status@),
{
    assert(statuses(list.push(status)) =~= statuses(list).push(status@));
}

proof fn lemma_nothing_reported()
    ensures
        statuses(Seq::<PipelineStatus>::empty()) == Seq::<Status>::empty(),
{
    assert(statuses(Seq::<PipelineStatus>::empty()) =~= Seq::<Status>::empty());
}

/// A step that reports nothing and waits.
fn quiet<T>() -> (step: Step<T>)
    ensures
        statuses(step.statuses@) == Seq::<Status>::empty(),
        !step.session_started,
        step.action@ == Deed::<T>::Wait,
{
    proof {
        lemma_nothing_reported();
    }
    Step { statuses: Vec::new(), session_started: false, action: Action::Wait }
}

impl<T, P> Engine<T, P> {
    pub closed spec fn wf(self) -> bool {
        &&& self.endpointer.wf()
        &&& machine_wf(self@)
    }

    /// A well-formed engine is a well-formed machine.
    pub proof fn lemma_wf(self)
        requires
            self.wf(),
        ensures
            machine_wf(self@),
    {
    }

    pub closed spec fn hotkeys(self) -> MultiHotkeyConfig {
        self.hotkey_config
    }

    pub closed spec fn microphone(self) -> Seq<char> {
        self.mic_name@
    }

    /// An engine that waits, with the microphone live and no session open.
    pub fn new(
        mic_name: String,
        hotkey_config: MultiHotkeyConfig,
        endpoint_config: EndpointConfig<P>,
        cleanup_loaded: bool,
    ) -> (engine: Self)
        ensures
            engine.wf(),
            engine.hotkeys() == hotkey_config,
            engine.microphone() == mic_name@,
            engine@.cleanup_loaded == cleanup_loaded,
            engine@.cleanup_on == cleanup_loaded,
            engine@.config == endpoint_config,
            engine@.at == at_rest(),
            engine@.session is None,
            engine@.phase is Waiting,
            engine@.policy.window_samples == DEFAULT_WINDOW_SAMPLES,
            engine@.policy.stride_samples == DEFAULT_STRIDE_SAMPLES,
    {
        Engine {
            hotkey_config,
            mic_name,
            cleanup_loaded,
            cleanup_runtime_enabled: cleanup_loaded,
            window_policy: WindowPolicy::default_16k(),
            endpointer: Endpointer::new(endpoint_config),
            session: None,
            stage: Stage::Waiting,
        }
    }

    pub fn hotkey_config(&self) -> (config: MultiHotkeyConfig)
        ensures
            config == self.hotkeys(),
    {
        self.hotkey_config
    }

    pub fn mic_name(&self) -> (name: &str)
        ensures
            name@ == self.microphone(),
    {
        self.mic_name.as_str()
    }

    /// Whether a cleanup model was loaded.
    pub fn cleanup_enabled(&self) -> (enabled: bool)
        ensures
            enabled == self@.cleanup_loaded,
    {
        self.cleanup_loaded
    }

    /// What to report before anything else.
    pub fn ready(&self) -> (status: PipelineStatus)
        ensures
            status@ == (Status::Ready {
                mic_name: self.microphone(),
                cleanup_enabled: self@.cleanup_loaded,
            }),
    {
        PipelineStatus::Ready {
            mic_name: self.mic_name.clone(),
            cleanup_enabled: self.cleanup_loaded,
        }
    }

    /// Whether a session is open, of either mode.
    pub fn session_open(&self) -> (open: bool)
        ensures
            open == (self@.session is Some),
    {
        self.session.is_some()
    }

    /// Whether a push-to-talk session is open.
    pub fn push_to_talk_active(&self) -> (active: bool)
        ensures
            active == push_to_talk_open(self@),
    {
        match &self.session {
            Some(session) => session.mode == SessionMode::PushToTalk,
            None => false,
        }
    }

    /// Whether an insertion is under way: hotkeys are not listened to until it
    /// is over.
    pub fn inserting(&self) -> (inserting: bool)
        ensures
            inserting == (self@.phase is Inserting),
    {
        match &self.stage {
            Stage::Inserting { .. } => true,
            _ => false,
        }
    }

    /// Whether the cleanup model may be used.
    pub fn cleanup_active(&self) -> (active: bool)
        ensures
            active == self@.cleanup_on,
    {
        self.cleanup_runtime_enabled
    }

    /// Whether speech was confirmed in the session that is open.
    pub fn speech_heard(&self) -> (heard: bool)
        ensures
            heard == (self@.session matches Some(session) && session.heard),
    {
        match &self.session {
            Some(session) => session.heard_speech,
            None => false,
        }
    }

    /// The transcript of the utterance so far, from the start of its session to
    /// when its last window is decoded.
    pub fn transcript(&self) -> (text: Option<&str>)
        ensures
            text is Some == transcript_of(self@) is Some,
            text matches Some(text) ==> transcript_of(self@) == Some(text@),
    {
        match &self.session {
            Some(session) => Some(session.committed.as_str()),
            None => match &self.stage {
                Stage::Closing { committed, .. } => Some(committed.as_str()),
                _ => None,
            },
        }
    }

    /// What never changes after the start.
    pub open spec fn same_setup(self, other: Self) -> bool {
        &&& self.hotkeys() == other.hotkeys()
        &&& self.microphone() == other.microphone()
    }
}

impl<T: Copy, P> Engine<T, P> {
    fn open_session(
        &mut self,
        ring: &RingBuffer<T>,
        mode: SessionMode,
        reported: Vec<PipelineStatus>,
    ) -> (step: Step<T>)
        requires
            old(self).wf(),
            ring.wf(),
        ensures
            final(self).wf(),
            final(self).same_setup(*old(self)),
            is_move(
                final(self)@,
                step,
                opened(old(self)@, *ring, mode, statuses(reported@)),
            ),
    {
        self.endpointer.reset();
        self.session = Some(Session::start(ring, mode));
        self.stage = Stage::Waiting;
        let status = match mode {
            SessionMode::PushToTalk => PipelineStatus::Recording,
            SessionMode::HandsFree => PipelineStatus::Listening,
        };
        let mut list = reported;
        proof {
            lemma_reported(list@, status);
        }
        list.push(status);
        Step { statuses: list, session_started: true, action: Action::Wait }
    }

    fn conclude(&mut self, ring: &RingBuffer<T>, resume: bool, reported: Vec<PipelineStatus>) -> (step:
        Step<T>)
        requires
            old(self).wf(),
            ring.wf(),
        ensures
            final(self).wf(),
            final(self).same_setup(*old(self)),
            is_move(
                final(self)@,
                step,
                concluded(old(self)@, *ring, resume, statuses(reported@)),
            ),
    {
        self.stage = Stage::Waiting;
        if resume {
            self.open_session(ring, SessionMode::HandsFree, reported)
        } else {
            Step { statuses: reported, session_started: false, action: Action::Wait }
        }
    }

    /// Picks what becomes of a whole transcript.
    fn finish_utterance(
        &mut self,
        ring: &RingBuffer<T>,
        committed: &str,
        resume: bool,
        reported: Vec<PipelineStatus>,
    ) -> (step: Step<T>)
        requires
            old(self).wf(),
            old(self)@.session is None,
            ring.wf(),
        ensures
            final(self).wf(),
            final(self).same_setup(*old(self)),
            is_move(
                final(self)@,
                step,
                finished(old(self)@, *ring, committed@, resume, statuses(reported@)),
            ),
    {
        let spoken = strip_disfluencies(committed);
        let mut list = reported;
        if is_blank(spoken.as_str()) {
            proof {
                lemma_reported(list@, PipelineStatus::HeardNothing);
            }
            list.push(PipelineStatus::HeardNothing);
            return self.conclude(ring, resume, list);
        }
        let text = spoken.clone();
        let action = if self.cleanup_runtime_enabled {
            self.stage = Stage::Cleaning { spoken, resume };
            Action::Clean(text)
        } else {
            self.stage = Stage::Inserting { text: spoken, resume };
            Action::Insert(text)
        };
        Step { statuses: list, session_started: false, action }
    }

    /// Ends a session, however it came to end.
    fn commit_utterance(
        &mut self,
        ring: &RingBuffer<T>,
        session: Session<T>,
        resume: bool,
        reported: Vec<PipelineStatus>,
    ) -> (step: Step<T>)
        requires
            old(self).wf(),
            old(self)@.phase is Waiting,
            session_wf(session@, old(self)@.policy),
            countable(*ring),
        ensures
            final(self).wf(),
            final(self).same_setup(*old(self)),
            is_move(
                final(self)@,
                step,
                committing(old(self)@, *ring, session@, resume, statuses(reported@)),
            ),
    {
        self.session = None;
        let mut list = reported;
        proof {
            lemma_reported(list@, PipelineStatus::Transcribing);
        }
        list.push(PipelineStatus::Transcribing);
        let audio = session.session_audio(ring);
        match self.window_policy.final_window(audio.len(), session.windows_decoded) {
            Some((start, end)) => {
                let tail = copy_of(&audio, start, end);
                self.stage = Stage::Closing { committed: session.committed, resume };
                Step { statuses: list, session_started: false, action: Action::Decode(tail) }
            },
            None => self.finish_utterance(ring, session.committed.as_str(), resume, list),
        }
    }

    /// Takes in a control event while nothing is under way.
    pub fn on_control(&mut self, event: ControlEvent, ring: &RingBuffer<T>) -> (step: Step<T>)
        requires
            old(self).wf(),
            old(self)@.phase is Waiting,
            countable(*ring),
        ensures
            final(self).wf(),
            final(self).same_setup(*old(self)),
            is_move(final(self)@, step, controlled(old(self)@, *ring, event)),
    {
        match event {
            ControlEvent::PushToTalkPressed => {
                if self.session_open() {
                    return quiet();
                }
                proof {
                    lemma_nothing_reported();
                }
                self.open_session(ring, SessionMode::PushToTalk, Vec::new())
            },
            ControlEvent::PushToTalkReleased => match self.session.take() {
                Some(session) => if session.mode == SessionMode::PushToTalk {
                    proof {
                        lemma_nothing_reported();
                    }
                    self.commit_utterance(ring, session, false, Vec::new())
                } else {
                    self.session = Some(session);
                    quiet()
                },
                None => quiet(),
            },
            ControlEvent::HandsFreeTogglePressed => match self.session.take() {
                Some(session) => if session.mode == SessionMode::HandsFree {
                    let mut list: Vec<PipelineStatus> = Vec::new();
                    list.push(PipelineStatus::HandsFreeOff);
                    assert(statuses(list@) =~= seq![Status::HandsFreeOff]);
                    self.commit_utterance(ring, session, false, list)
                } else {
                    self.session = Some(session);
                    quiet()
                },
                None => {
                    let mut list: Vec<PipelineStatus> = Vec::new();
                    list.push(PipelineStatus::HandsFreeOn);
                    assert(statuses(list@) =~= seq![Status::HandsFreeOn]);
                    self.open_session(ring, SessionMode::HandsFree, list)
                },
            },
            ControlEvent::SetCleanupEnabled(enabled) => {
                self.cleanup_runtime_enabled = enabled && self.cleanup_loaded;
                quiet()
            },
            ControlEvent::Quit => {
                let mut step = quiet();
                step.action = Action::Quit;
                step
            },
        }
    }

    /// Goes on after the audio of a poll.
    fn after_listening(&mut self, ring: &RingBuffer<T>, speech_ended: bool) -> (step: Step<T>)
        requires
            old(self).wf(),
            old(self)@.phase is Waiting,
            countable(*ring),
        ensures
            final(self).wf(),
            final(self).same_setup(*old(self)),
            is_move(final(self)@, step, listened(old(self)@, *ring, speech_ended)),
    {
        match self.session.take() {
            Some(session) => if speech_ended && session.mode == SessionMode::HandsFree {
                proof {
                    lemma_nothing_reported();
                }
                self.commit_utterance(ring, session, true, Vec::new())
            } else {
                self.session = Some(session);
                quiet()
            },
            None => quiet(),
        }
    }

    /// Goes on with the frames of `audio`.
    fn score_next(
        &mut self,
        ring: &RingBuffer<T>,
        audio: Vec<T>,
        last_event: Option<EndpointEvent>,
    ) -> (step: Step<T>)
        requires
            old(self).wf(),
            old(self)@.phase is Waiting,
            old(self)@.session is Some,
            audio@.len() + DEFAULT_WINDOW_SAMPLES + FRAME_SAMPLES <= usize::MAX,
            countable(*ring),
        ensures
            final(self).wf(),
            final(self).same_setup(*old(self)),
            is_move(
                final(self)@,
                step,
                scoring(old(self)@, *ring, old(self)@.session->0, audio@, last_event),
            ),
    {
        let (fed, heard, windows): (usize, bool, usize) = match &self.session {
            Some(session) => (
                session.vad_fed_samples,
                session.heard_speech,
                session.windows_decoded,
            ),
            None => (0, false, 0),
        };
        if let Some((start, end)) = next_frame_range(fed, audio.len()) {
            let frame = copy_of(&audio, start, end);
            self.stage = Stage::Scoring { audio, last_event };
            let mut step = quiet();
            step.action = Action::Score(frame);
            return step;
        }
        let speech_ended = match last_event {
            Some(EndpointEvent::SpeechEnd) => true,
            _ => false,
        };
        if heard {
            if let Some((start, end)) = self.window_policy.next_window(audio.len(), windows) {
                let window = copy_of(&audio, start, end);
                self.stage = Stage::Decoding { speech_ended };
                let mut step = quiet();
                step.action = Action::Decode(window);
                return step;
            }
        }
        self.after_listening(ring, speech_ended)
    }

    /// Takes in that the poll interval has passed: looks at the audio that has
    /// arrived.
    pub fn on_poll(&mut self, ring: &RingBuffer<T>) -> (step: Step<T>)
        requires
            old(self).wf(),
            old(self)@.phase is Waiting,
            countable(*ring),
        ensures
            final(self).wf(),
            final(self).same_setup(*old(self)),
            is_move(final(self)@, step, polled(old(self)@, *ring)),
    {
        let audio = match &self.session {
            Some(session) => session.session_audio(ring),
            None => {
                return quiet();
            },
        };
        proof {
            ring.lemma_wf();
        }
        self.score_next(ring, audio, None)
    }

    /// Takes in whether the frame was speech, or `None` where it could not be
    /// scored.
    pub fn on_frame(&mut self, speech: Option<bool>, ring: &RingBuffer<T>) -> (step: Step<T>)
        requires
            old(self).wf(),
            old(self)@.phase is Scoring,
            countable(*ring),
        ensures
            final(self).wf(),
            final(self).same_setup(*old(self)),
            is_move(final(self)@, step, frame_scored(old(self)@, *ring, speech)),
    {
        let mut stage = Stage::Waiting;
        core::mem::swap(&mut stage, &mut self.stage);
        match stage {
            Stage::Scoring { audio, last_event } => {
                let event = match speech {
                    Some(speech) => self.endpointer.push_frame(speech),
                    None => None,
                };
                let started = match event {
                    Some(EndpointEvent::SpeechStart) => true,
                    _ => false,
                };
                if let Some(session) = &mut self.session {
                    session.vad_fed_samples = session.vad_fed_samples + FRAME_SAMPLES;
                    session.heard_speech = session.heard_speech || started;
                }
                let latest = if event.is_some() {
                    event
                } else {
                    last_event
                };
                self.score_next(ring, audio, latest)
            },
            _ => quiet(),
        }
    }

    /// Takes in the text of a decoded window, or `None` where it could not be
    /// decoded.
    pub fn on_decoded(&mut self, text: Option<String>, ring: &RingBuffer<T>) -> (step: Step<T>)
        requires
            old(self).wf(),
            old(self)@.phase is Decoding || old(self)@.phase is Closing,
            countable(*ring),
        ensures
            final(self).wf(),
            final(self).same_setup(*old(self)),
            is_move(
                final(self)@,
                step,
                decoded(
                    old(self)@,
                    *ring,
                    match text {
                        Some(text) => Some(text@),
                        None => None,
                    },
                ),
            ),
    {
        let mut stage = Stage::Waiting;
        core::mem::swap(&mut stage, &mut self.stage);
        match stage {
            Stage::Decoding { speech_ended } => {
                if let Some(session) = &mut self.session {
                    session.committed = absorb(session.committed.as_str(), &text);
                    session.windows_decoded = session.windows_decoded + 1;
                }
                self.after_listening(ring, speech_ended)
            },
            Stage::Closing { committed, resume } => {
                let whole = absorb(committed.as_str(), &text);
                proof {
                    lemma_nothing_reported();
                }
                self.finish_utterance(ring, whole.as_str(), resume, Vec::new())
            },
            _ => quiet(),
        }
    }

    /// Takes in the cleaned text, or `None` where there was none in time.
    pub fn on_cleaned(&mut self, answer: Option<String>) -> (step: Step<T>)
        requires
            old(self).wf(),
            old(self)@.phase is Cleaning,
        ensures
            final(self).wf(),
            final(self).same_setup(*old(self)),
            is_move(
                final(self)@,
                step,
                cleaned(
                    old(self)@,
                    match answer {
                        Some(text) => Some(text@),
                        None => None,
                    },
                ),
            ),
    {
        let mut stage = Stage::Waiting;
        core::mem::swap(&mut stage, &mut self.stage);
        match stage {
            Stage::Cleaning { spoken, resume } => {
                let text = choose_text(spoken, answer);
                let mut step = quiet();
                step.action = Action::Insert(text.clone());
                self.stage = Stage::Inserting { text, resume };
                step
            },
            _ => quiet(),
        }
    }

    /// Takes in the outcome of the insertion: `None`, or what went wrong.
    pub fn on_inserted(&mut self, error: Option<String>, ring: &RingBuffer<T>) -> (step: Step<T>)
        requires
            old(self).wf(),
            old(self)@.phase is Inserting,
            countable(*ring),
        ensures
            final(self).wf(),
            final(self).same_setup(*old(self)),
            is_move(
                final(self)@,
                step,
                inserted(
                    old(self)@,
                    *ring,
                    match error {
                        Some(error) => Some(error@),
                        None => None,
                    },
                ),
            ),
    {
        let mut stage = Stage::Waiting;
        core::mem::swap(&mut stage, &mut self.stage);
        match stage {
            Stage::Inserting { text, resume } => {
                let status = match error {
                    None => PipelineStatus::Inserted(text),
                    Some(error) => {
                        let mut warning = "couldn't insert text: ".to_owned();
                        warning.append(error.as_str());
                        PipelineStatus::Warning(warning)
                    },
                };
                let mut list: Vec<PipelineStatus> = Vec::new();
                list.push(status);
                assert(statuses(list@) =~= seq![status@]);
                self.conclude(ring, resume, list)
            },
            _ => quiet(),
        }
    }
}

impl<T: Copy, P: PartialOrd + Copy> Engine<T, P> {
    /// Takes in the probability that the frame was speech, or `None` where it
    /// could not be scored.
    pub fn on_score(&mut self, probability: Option<P>, ring: &RingBuffer<T>) -> (step: Step<T>)
        requires
            old(self).wf(),
            old(self)@.phase is Scoring,
            countable(*ring),
        ensures
            final(self).wf(),
            final(self).same_setup(*old(self)),
            exists|speech: Option<bool>|
                speech is Some == probability is Some && is_move(
                    final(self)@,
                    step,
                    #[trigger] frame_scored(old(self)@, *ring, speech),
                ),
            P::obeys_partial_cmp_spec() ==> is_move(
                final(self)@,
                step,
                frame_scored(
                    old(self)@,
                    *ring,
                    match probability {
                        Some(p) => Some(reaches(p, old(self)@.config.speech_threshold)),
                        None => None,
                    },
                ),
            ),
    {
        let speech = match probability {
            Some(p) => Some(self.endpointer.is_speech(p)),
            None => None,
        };
        self.on_frame(speech, ring)
    }
}

/// A transcript with one more window.
pub fn absorb(committed: &str, text: &Option<String>) -> (whole: String)
    ensures
        *text is None || all_space((*text)->0@) ==> whole@ == committed@,
        *text is Some && !all_space((*text)->0@) ==> whole@ == merged(committed@, (*text)->0@),
        whole@ == absorbed(
            committed@,
            match *text {
                Some(text) => Some(text@),
                None => None,
            },
        ),
{
    match text {
        Some(text) => if is_blank(text.as_str()) {
            committed.to_owned()
        } else {
            merge_overlap(committed, text.as_str())
        },
        None => committed.to_owned(),
    }
}

/// The one string to insert.
pub fn choose_text(spoken: String, answer: Option<String>) -> (text: String)
    ensures
        answer matches Some(cleaned) && !all_space(cleaned@) ==> text@ == answer->0@,
        answer is None || all_space(answer->0@) ==> text@ == spoken@,
        text@ == chosen(
            spoken@,
            match answer {
                Some(text) => Some(text@),
                None => None,
            },
        ),
{
    match answer {
        Some(text) => if is_blank(text.as_str()) {
            spoken
        } else {
            text
        },
        None => spoken,
    }
}

/// A step is a move of the machine in every respect: where the machine stands,
/// what is reported, whether a session started, and what is to be done.
pub proof fn law_a_step_is_a_move<T, P>(machine: Machine<T, P>, step: Step<T>, to: Move<T, P>)
    ensures
        is_move(machine, step, to) <==> {
            &&& machine == to.machine
            &&& statuses(step.statuses@) == to.reported
            &&& step.session_started == to.session_started
            &&& step.action@ == to.deed
        },
{
}

/// An action asks for what its machine wants done, with the same audio or text.
pub proof fn law_an_action_asks_for_the_deed<T>(samples: Vec<T>, text: String)
    ensures
        Action::<T>::Wait@ == Deed::<T>::Wait,
        Action::Score(samples)@ == Deed::Score(samples@),
        Action::Decode(samples)@ == Deed::Decode(samples@),
        Action::<T>::Clean(text)@ == Deed::<T>::Clean(text@),
        Action::<T>::Insert(text)@ == Deed::<T>::Insert(text@),
        Action::<T>::Quit@ == Deed::<T>::Quit,
{
}

/// The transcript of the utterance under way is that of its session, or that of
/// the session whose last window is being decoded.
pub proof fn law_whose_transcript_it_is<T, P>(m: Machine<T, P>)
    ensures
        m.session is Some ==> transcript_of(m) == Some(m.session->0.committed),
        m.session is None && m.phase is Closing ==> transcript_of(m) == Some(
            m.phase->Closing_committed,
        ),
        m.session is None && !(m.phase is Closing) ==> transcript_of(m) is None,
        push_to_talk_open(m) <==> m.session is Some && m.session->0.mode == SessionMode::PushToTalk,
        POLL_INTERVAL_MILLIS == 100,
{
}

} // verus!
