//! One recording, from however it started to however it ends.

use std::time::Duration;

use vstd::prelude::*;

use crate::ring_buffer::{after_push, kept_since, last_n, Mark, RingBuffer};
use crate::resample::TARGET_SAMPLE_RATE_HZ;
use crate::sample_time::{rounded_samples, span_nanos, span_of_millis};
use crate::slices::append_copies;

verus! {

/// A session begins this long before its key went down.
pub const PRE_ROLL_MILLIS: u64 = 500;

/// The same at the rate the engine works at.
pub const PRE_ROLL_SAMPLES: usize = 8000;

pub fn pre_roll_duration() -> (span: Duration)
    ensures
        span_nanos(span) == PRE_ROLL_MILLIS * 1_000_000,
{
    span_of_millis(PRE_ROLL_MILLIS)
}

/// What ends a session, a key release or silence, and what comes after it.
#[derive(Debug, Clone, Copy, PartialEq, Eq, Structural)]
pub enum SessionMode {
    PushToTalk,
    HandsFree,
}

pub struct Session<T> {
    pub(crate) mode: SessionMode,
    pub(crate) mark: Mark,
    /// Audio from just before `mark`.
    pub(crate) preroll: Vec<T>,
    /// How many full windows have been decoded.
    pub(crate) windows_decoded: usize,
    /// The transcript so far, merged across window overlaps.
    pub(crate) committed: String,
    /// How many samples, from the start of the pre-roll, the voice activity
    /// model has been given.
    pub(crate) vad_fed_samples: usize,
    /// Whether speech was confirmed in this session.
    pub(crate) heard_speech: bool,
}

/// A session in terms of what was recorded.
pub ghost struct Recording<T> {
    pub mode: SessionMode,
    /// How many samples had been captured when it started.
    pub mark: int,
    pub preroll: Seq<T>,
    pub windows: int,
    pub committed: Seq<char>,
    pub fed: int,
    pub heard: bool,
}

/// A session of `mode` that starts now, with the microphone at `ring`.
pub open spec fn started<T>(ring: RingBuffer<T>, mode: SessionMode) -> Recording<T> {
    Recording {
        mode,
        mark: ring.total(),
        preroll: last_n(ring@, PRE_ROLL_SAMPLES as int),
        windows: 0,
        committed: seq![],
        fed: 0,
        heard: false,
    }
}

/// Everything captured for a session so far: the pre-roll and what has come in
/// since.
pub open spec fn recorded<T>(ring: RingBuffer<T>, recording: Recording<T>) -> Seq<T> {
    recording.preroll + ring.since(recording.mark)
}

impl<T> View for Session<T> {
    type V = Recording<T>;

    open(crate) spec fn view(&self) -> Recording<T> {
        Recording {
            mode: self.mode,
            mark: self.mark.at(),
            preroll: self.preroll@,
            windows: self.windows_decoded as int,
            committed: self.committed@,
            fed: self.vad_fed_samples as int,
            heard: self.heard_speech,
        }
    }
}

proof fn lemma_pre_roll_samples()
    ensures
        rounded_samples(16_000, 500_000_000) == PRE_ROLL_SAMPLES,
{
    assert(rounded_samples(16_000, 500_000_000) == 8000) by (nonlinear_arith);
}

impl<T: Copy> Session<T> {
    /// Starts a session. The pre-roll is the audio that ends at the mark.
    pub fn start(ring: &RingBuffer<T>, mode: SessionMode) -> (session: Self)
        requires
            ring.wf(),
        ensures
            session@ == started(*ring, mode),
    {
        proof {
            lemma_pre_roll_samples();
        }
        Session {
            mode,
            mark: ring.mark(),
            preroll: ring.read_last_duration(TARGET_SAMPLE_RATE_HZ, pre_roll_duration()),
            windows_decoded: 0,
            committed: String::new(),
            vad_fed_samples: 0,
            heard_speech: false,
        }
    }

    /// The audio of the session so far.
    pub fn session_audio(&self, ring: &RingBuffer<T>) -> (audio: Vec<T>)
        requires
            ring.wf(),
        ensures
            audio@ == recorded(*ring, self@),
    {
        let mut audio: Vec<T> = Vec::new();
        append_copies(&mut audio, self.preroll.as_slice());
        let since = ring.read_since(self.mark);
        append_copies(&mut audio, since.as_slice());
        assert(audio@ =~= self.preroll@ + since@);
        audio
    }
}

/// A session's audio is one unbroken stretch: with `kept` in a buffer of
/// `capacity` when it starts, and `spoken` captured after that, it is the end
/// of what was captured, from the pre-roll on, with no gap and no overlap.
pub proof fn law_session_audio_is_unbroken<T>(
    kept: Seq<T>,
    total: int,
    spoken: Seq<T>,
    capacity: int,
)
    requires
        kept.len() <= capacity,
        0 < capacity,
        spoken.len() <= capacity,
    ensures
        ({
            let preroll = last_n(kept, PRE_ROLL_SAMPLES as int);
            let since = kept_since(
                after_push(kept, spoken, capacity),
                total + spoken.len(),
                total,
            );
            preroll + since == last_n(kept + spoken, (preroll.len() + spoken.len()) as int)
        }),
{
    let preroll = last_n(kept, PRE_ROLL_SAMPLES as int);
    let since = kept_since(after_push(kept, spoken, capacity), total + spoken.len(), total);
    assert(since =~= spoken);
    assert(preroll + since =~= last_n(kept + spoken, (preroll.len() + spoken.len()) as int));
}

/// What a session starts with: its mark now, the half second of audio before it,
/// as far as there is any, and nothing else.
pub proof fn law_what_a_session_starts_with<T>(ring: RingBuffer<T>, mode: SessionMode)
    ensures
        ({
            let session = started(ring, mode);
            let kept = ring@.len() as int;
            &&& session.mode == mode
            &&& session.mark == ring.total()
            &&& session.preroll.len() == if kept < 8000 {
                kept
            } else {
                8000
            }
            &&& forall|i: int|
                0 <= i < session.preroll.len() ==> #[trigger] session.preroll[i] == ring@[kept
                    - session.preroll.len() + i]
            &&& session.windows == 0 && session.fed == 0
            &&& session.committed.len() == 0 && !session.heard
        }),
{
}

/// What a session has recorded: the audio before it, then what came in since its
/// mark, each in order.
pub proof fn law_what_a_session_has_recorded<T>(ring: RingBuffer<T>, recording: Recording<T>)
    ensures
        ({
            let audio = recorded(ring, recording);
            let before = recording.preroll.len() as int;
            let since = kept_since(ring@, ring.total(), recording.mark);
            &&& audio.len() == before + since.len()
            &&& forall|i: int| 0 <= i < before ==> #[trigger] audio[i] == recording.preroll[i]
            &&& forall|i: int|
                before <= i < audio.len() ==> #[trigger] audio[i] == since[i - before]
        }),
{
}

} // verus!
