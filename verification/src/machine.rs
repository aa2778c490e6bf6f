//! The pipeline as a state machine: what it does next, and reports, on a
//! control event, on a poll, and on each answer of the models and of the
//! insertion.

use vstd::prelude::*;

use crate::disfluency::stripped;
use crate::endpoint::{at_rest, stepped, EndpointConfig, EndpointEvent, Endpointing};
use crate::framing::FRAME_SAMPLES;
use crate::merge::merged;
use crate::ring_buffer::RingBuffer;
use crate::session::{recorded, started, Recording, SessionMode, PRE_ROLL_SAMPLES};
use crate::status::{ControlEvent, Status};
use crate::window::{WindowPolicy, DEFAULT_STRIDE_SAMPLES, DEFAULT_WINDOW_SAMPLES};
use crate::words::all_space;

verus! {

/// What the pipeline is in the middle of.
pub ghost enum Phase<T> {
    /// Nothing: it waits for a control event, or for the next poll.
    Waiting,
    /// The frames of `audio` are given to the voice activity model one by one.
    Scoring { audio: Seq<T>, last_event: Option<EndpointEvent> },
    /// A full window is decoded while the session goes on.
    Decoding { speech_ended: bool },
    /// The session is over, and its trailing window is decoded.
    Closing { committed: Seq<char>, resume: bool },
    /// The utterance is cleaned up.
    Cleaning { spoken: Seq<char>, resume: bool },
    /// The final text is inserted.
    Inserting { text: Seq<char>, resume: bool },
}

/// What is to be done outside before the pipeline goes on.
pub ghost enum Deed<T> {
    Wait,
    Score(Seq<T>),
    Decode(Seq<T>),
    Clean(Seq<char>),
    Insert(Seq<char>),
    Quit,
}

pub ghost struct Machine<T, P> {
    pub cleanup_loaded: bool,
    pub cleanup_on: bool,
    pub policy: WindowPolicy,
    pub config: EndpointConfig<P>,
    pub at: Endpointing,
    pub session: Option<Recording<T>>,
    pub phase: Phase<T>,
}

/// A machine after a move, with what it reported on the way, whether a session
/// was started, and what it wants done.
pub ghost struct Move<T, P> {
    pub machine: Machine<T, P>,
    pub reported: Seq<Status>,
    pub session_started: bool,
    pub deed: Deed<T>,
}

/// A session whose next frame and next window can be counted.
pub open spec fn session_wf<T>(session: Recording<T>, policy: WindowPolicy) -> bool {
    &&& 0 <= session.fed
    &&& session.fed + FRAME_SAMPLES <= usize::MAX
    &&& 0 <= session.windows
    &&& policy.end_of(session.windows) <= usize::MAX
    &&& session.preroll.len() <= PRE_ROLL_SAMPLES
}

/// What holds of a machine between any two moves: cleanup is on only where a
/// model is loaded, and a session is open exactly as long as its audio is
/// listened to.
pub open spec fn machine_wf<T, P>(m: Machine<T, P>) -> bool {
    &&& m.policy.window_samples == DEFAULT_WINDOW_SAMPLES
    &&& m.policy.stride_samples == DEFAULT_STRIDE_SAMPLES
    &&& m.cleanup_on ==> m.cleanup_loaded
    &&& m.session matches Some(session) ==> session_wf(session, m.policy)
    &&& match m.phase {
        Phase::Waiting => true,
        Phase::Scoring { audio, .. } => {
            &&& m.session matches Some(session) && session.fed + FRAME_SAMPLES <= audio.len()
            &&& audio.len() + DEFAULT_WINDOW_SAMPLES + FRAME_SAMPLES <= usize::MAX
        },
        Phase::Decoding { .. } => m.session matches Some(session) && session.windows + 1
            <= usize::MAX && m.policy.end_of(session.windows + 1) <= usize::MAX,
        Phase::Closing { .. } => m.session is None,
        Phase::Cleaning { spoken, .. } => m.session is None && m.cleanup_on && !all_space(spoken),
        Phase::Inserting { text, .. } => m.session is None && !all_space(text),
    }
}

/// A push-to-talk session is open.
pub open spec fn push_to_talk_open<T, P>(m: Machine<T, P>) -> bool {
    m.session matches Some(session) && session.mode == SessionMode::PushToTalk
}

/// Nothing happens.
pub open spec fn unmoved<T, P>(m: Machine<T, P>) -> Move<T, P> {
    Move { machine: m, reported: seq![], session_started: false, deed: Deed::Wait }
}

/// A session of `mode` starts, after `reported`: the endpointer forgets what it
/// heard, and the new session is reported.
pub open spec fn opened<T, P>(
    m: Machine<T, P>,
    ring: RingBuffer<T>,
    mode: SessionMode,
    reported: Seq<Status>,
) -> Move<T, P> {
    Move {
        machine: Machine {
            at: at_rest(),
            session: Some(started(ring, mode)),
            phase: Phase::Waiting,
            ..m
        },
        reported: reported.push(
            match mode {
                SessionMode::PushToTalk => Status::Recording,
                SessionMode::HandsFree => Status::Listening,
            },
        ),
        session_started: true,
        deed: Deed::Wait,
    }
}

/// An utterance is dealt with: hands-free listens on, push-to-talk does not.
pub open spec fn concluded<T, P>(
    m: Machine<T, P>,
    ring: RingBuffer<T>,
    resume: bool,
    reported: Seq<Status>,
) -> Move<T, P> {
    let rested = Machine { phase: Phase::Waiting, ..m };
    if resume {
        opened(rested, ring, SessionMode::HandsFree, reported)
    } else {
        Move { machine: rested, reported, session_started: false, deed: Deed::Wait }
    }
}

/// The whole transcript of an utterance is there. Where nothing is left of it
/// without disfluencies, nothing was heard. Otherwise it is cleaned up, where
/// that is on, or inserted.
pub open spec fn finished<T, P>(
    m: Machine<T, P>,
    ring: RingBuffer<T>,
    committed: Seq<char>,
    resume: bool,
    reported: Seq<Status>,
) -> Move<T, P> {
    let spoken = stripped(committed);
    if all_space(spoken) {
        concluded(m, ring, resume, reported.push(Status::HeardNothing))
    } else if m.cleanup_on {
        Move {
            machine: Machine { phase: Phase::Cleaning { spoken, resume }, ..m },
            reported,
            session_started: false,
            deed: Deed::Clean(spoken),
        }
    } else {
        Move {
            machine: Machine { phase: Phase::Inserting { text: spoken, resume }, ..m },
            reported,
            session_started: false,
            deed: Deed::Insert(spoken),
        }
    }
}

/// A session ends: its trailing window, if any audio is left, is decoded.
pub open spec fn committing<T, P>(
    m: Machine<T, P>,
    ring: RingBuffer<T>,
    session: Recording<T>,
    resume: bool,
    reported: Seq<Status>,
) -> Move<T, P> {
    let closed = Machine { session: None, ..m };
    let audio = recorded(ring, session);
    let start = m.policy.start_of(session.windows);
    let transcribing = reported.push(Status::Transcribing);
    if start < audio.len() {
        Move {
            machine: Machine {
                phase: Phase::Closing { committed: session.committed, resume },
                ..closed
            },
            reported: transcribing,
            session_started: false,
            deed: Deed::Decode(audio.subrange(start, audio.len() as int)),
        }
    } else {
        finished(closed, ring, session.committed, resume, transcribing)
    }
}

/// What a control event does. While a session is open, the other mode's key is
/// ignored.
pub open spec fn controlled<T, P>(
    m: Machine<T, P>,
    ring: RingBuffer<T>,
    event: ControlEvent,
) -> Move<T, P> {
    match (event, m.session) {
        (ControlEvent::PushToTalkPressed, None) => opened(
            m,
            ring,
            SessionMode::PushToTalk,
            seq![],
        ),
        (ControlEvent::PushToTalkReleased, Some(session)) => if session.mode
            == SessionMode::PushToTalk {
            committing(m, ring, session, false, seq![])
        } else {
            unmoved(m)
        },
        (ControlEvent::HandsFreeTogglePressed, None) => opened(
            m,
            ring,
            SessionMode::HandsFree,
            seq![Status::HandsFreeOn],
        ),
        (ControlEvent::HandsFreeTogglePressed, Some(session)) => if session.mode
            == SessionMode::HandsFree {
            committing(m, ring, session, false, seq![Status::HandsFreeOff])
        } else {
            unmoved(m)
        },
        (ControlEvent::SetCleanupEnabled(enabled), _) => unmoved(
            Machine { cleanup_on: enabled && m.cleanup_loaded, ..m },
        ),
        (ControlEvent::Quit, _) => Move { deed: Deed::Quit, ..unmoved(m) },
        _ => unmoved(m),
    }
}

/// The audio of this poll is dealt with. A hands-free session in which speech
/// ended is committed, and followed by another.
pub open spec fn listened<T, P>(
    m: Machine<T, P>,
    ring: RingBuffer<T>,
    speech_ended: bool,
) -> Move<T, P> {
    let rested = Machine { phase: Phase::Waiting, ..m };
    match m.session {
        Some(session) => if speech_ended && session.mode == SessionMode::HandsFree {
            committing(rested, ring, session, true, seq![])
        } else {
            unmoved(rested)
        },
        None => unmoved(rested),
    }
}

/// Every frame of `audio` has been scored. Once speech was heard, the next full
/// window is decoded when it is there.
pub open spec fn scored<T, P>(
    m: Machine<T, P>,
    ring: RingBuffer<T>,
    session: Recording<T>,
    audio: Seq<T>,
    last_event: Option<EndpointEvent>,
) -> Move<T, P> {
    let speech_ended = last_event == Some(EndpointEvent::SpeechEnd);
    let end = m.policy.end_of(session.windows);
    if session.heard && end <= audio.len() {
        Move {
            machine: Machine { phase: Phase::Decoding { speech_ended }, ..m },
            reported: seq![],
            session_started: false,
            deed: Deed::Decode(audio.subrange(m.policy.start_of(session.windows), end)),
        }
    } else {
        listened(m, ring, speech_ended)
    }
}

/// The next frame of `audio` is scored, if a whole one is there.
pub open spec fn scoring<T, P>(
    m: Machine<T, P>,
    ring: RingBuffer<T>,
    session: Recording<T>,
    audio: Seq<T>,
    last_event: Option<EndpointEvent>,
) -> Move<T, P> {
    if session.fed + FRAME_SAMPLES <= audio.len() {
        Move {
            machine: Machine { phase: Phase::Scoring { audio, last_event }, ..m },
            reported: seq![],
            session_started: false,
            deed: Deed::Score(audio.subrange(session.fed, session.fed + FRAME_SAMPLES)),
        }
    } else {
        scored(m, ring, session, audio, last_event)
    }
}

/// What a poll does: the audio that has arrived is scored from where the last
/// poll left off.
pub open spec fn polled<T, P>(m: Machine<T, P>, ring: RingBuffer<T>) -> Move<T, P> {
    match m.session {
        Some(session) => scoring(m, ring, session, recorded(ring, session), None),
        None => unmoved(m),
    }
}

/// What the score of one frame does: whether it was speech, or `None` where it
/// could not be scored.
pub open spec fn frame_scored<T, P>(
    m: Machine<T, P>,
    ring: RingBuffer<T>,
    speech: Option<bool>,
) -> Move<T, P> {
    match (m.phase, m.session) {
        (Phase::Scoring { audio, last_event }, Some(session)) => {
            let (at, event) = match speech {
                Some(speech) => stepped(m.config, m.at, speech),
                None => (m.at, None),
            };
            let next = Recording {
                fed: session.fed + FRAME_SAMPLES,
                heard: session.heard || event == Some(EndpointEvent::SpeechStart),
                ..session
            };
            scoring(
                Machine { at, session: Some(next), ..m },
                ring,
                next,
                audio,
                if event is Some {
                    event
                } else {
                    last_event
                },
            )
        },
        _ => unmoved(m),
    }
}

/// A transcript with one more window: text that is not blank is merged in.
pub open spec fn absorbed(committed: Seq<char>, decoded: Option<Seq<char>>) -> Seq<char> {
    match decoded {
        Some(text) => if all_space(text) {
            committed
        } else {
            merged(committed, text)
        },
        None => committed,
    }
}

/// What a decoded window does: its text, or `None` where it could not be
/// decoded.
pub open spec fn decoded<T, P>(
    m: Machine<T, P>,
    ring: RingBuffer<T>,
    text: Option<Seq<char>>,
) -> Move<T, P> {
    match (m.phase, m.session) {
        (Phase::Decoding { speech_ended }, Some(session)) => {
            let next = Recording {
                windows: session.windows + 1,
                committed: absorbed(session.committed, text),
                ..session
            };
            listened(Machine { session: Some(next), ..m }, ring, speech_ended)
        },
        (Phase::Closing { committed, resume }, _) => finished(
            m,
            ring,
            absorbed(committed, text),
            resume,
            seq![],
        ),
        _ => unmoved(m),
    }
}

/// The one string that is inserted: the cleaned text, where there is one in
/// time and it is not blank, and otherwise what was said.
pub open spec fn chosen(spoken: Seq<char>, cleaned: Option<Seq<char>>) -> Seq<char> {
    match cleaned {
        Some(text) => if all_space(text) {
            spoken
        } else {
            text
        },
        None => spoken,
    }
}

/// What the answer of the cleanup does: its text, or `None` where it had none in
/// time.
pub open spec fn cleaned<T, P>(m: Machine<T, P>, answer: Option<Seq<char>>) -> Move<T, P> {
    match m.phase {
        Phase::Cleaning { spoken, resume } => {
            let text = chosen(spoken, answer);
            Move {
                machine: Machine { phase: Phase::Inserting { text, resume }, ..m },
                reported: seq![],
                session_started: false,
                deed: Deed::Insert(text),
            }
        },
        _ => unmoved(m),
    }
}

/// The report of an insertion.
pub open spec fn insertion_report(text: Seq<char>, error: Option<Seq<char>>) -> Status {
    match error {
        None => Status::Inserted(text),
        Some(error) => Status::Warning(insert_warning() + error),
    }
}

/// How the warning of a failed insertion begins.
pub open spec fn insert_warning() -> Seq<char> {
    "couldn't insert text: "@
}

/// What the outcome of an insertion does: `None`, or the error.
pub open spec fn inserted<T, P>(
    m: Machine<T, P>,
    ring: RingBuffer<T>,
    error: Option<Seq<char>>,
) -> Move<T, P> {
    match m.phase {
        Phase::Inserting { text, resume } => concluded(
            m,
            ring,
            resume,
            seq![insertion_report(text, error)],
        ),
        _ => unmoved(m),
    }
}

} // verus!
