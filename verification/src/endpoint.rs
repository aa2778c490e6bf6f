//! Endpointing: turns a stream of per-frame speech probabilities into
//! confirmed starts and ends of speech.
//!
//! One frame that flickers across the threshold neither starts nor ends an
//! utterance. A run of consecutive frames does.

use core::cmp::Ordering;

use vstd::prelude::*;
use vstd::std_specs::cmp::PartialOrdSpec;

verus! {

#[derive(Debug, Clone, Copy, PartialEq, Eq, Structural)]
pub enum EndpointEvent {
    /// Enough consecutive speech frames to confirm an utterance.
    SpeechStart,
    /// Enough consecutive silent frames to confirm its end.
    SpeechEnd,
}

pub const DEFAULT_START_FRAMES: u32 = 3;

pub const DEFAULT_END_FRAMES: u32 = 3;

#[derive(Debug, Clone, Copy)]
pub struct EndpointConfig<P> {
    /// A frame whose probability reaches this counts as speech.
    pub speech_threshold: P,
    /// Consecutive speech frames that confirm a start.
    pub start_frames: u32,
    /// Consecutive silent frames that confirm an end.
    pub end_frames: u32,
}

impl<P> EndpointConfig<P> {
    /// Three frames on either edge, at the given threshold.
    pub fn with_threshold(speech_threshold: P) -> (config: Self)
        ensures
            config.speech_threshold == speech_threshold,
            config.start_frames == DEFAULT_START_FRAMES,
            config.end_frames == DEFAULT_END_FRAMES,
    {
        EndpointConfig {
            speech_threshold,
            start_frames: DEFAULT_START_FRAMES,
            end_frames: DEFAULT_END_FRAMES,
        }
    }

    /// How many frames it takes to leave speech, or silence.
    pub open spec fn needed(self, in_speech: bool) -> int {
        if in_speech {
            self.end_frames as int
        } else {
            self.start_frames as int
        }
    }
}

#[derive(Debug, Clone, Copy, PartialEq, Eq, Structural)]
enum State {
    Silence,
    /// `count` consecutive speech frames, and no start confirmed yet.
    MaybeSpeechStart { count: u32 },
    Speech,
    /// `count` consecutive silent frames since confirmed speech, and no end
    /// confirmed yet.
    MaybeSpeechEnd { count: u32 },
}

/// Where an endpointer stands: inside or outside confirmed speech, and how
/// many frames in a row have spoken against it.
pub ghost struct Endpointing {
    pub in_speech: bool,
    pub against: int,
}

pub open spec fn at_rest() -> Endpointing {
    Endpointing { in_speech: false, against: 0 }
}

/// One frame further: a frame that agrees with where the endpointer stands
/// ends the run against it; one that does not extends the run, which when long
/// enough flips it and is an event.
pub open spec fn stepped<P>(
    config: EndpointConfig<P>,
    at: Endpointing,
    speech: bool,
) -> (Endpointing, Option<EndpointEvent>) {
    if speech == at.in_speech {
        (Endpointing { in_speech: at.in_speech, against: 0 }, None)
    } else if at.against + 1 >= config.needed(at.in_speech) {
        (
            Endpointing { in_speech: speech, against: 0 },
            Some(
                if speech {
                    EndpointEvent::SpeechStart
                } else {
                    EndpointEvent::SpeechEnd
                },
            ),
        )
    } else {
        (Endpointing { in_speech: at.in_speech, against: at.against + 1 }, None)
    }
}

/// Whether `probability` reaches `threshold`.
pub open spec fn reaches<P: PartialOrd>(probability: P, threshold: P) -> bool {
    match probability.partial_cmp_spec(&threshold) {
        Some(Ordering::Greater) => true,
        Some(Ordering::Equal) => true,
        _ => false,
    }
}

pub struct Endpointer<P> {
    config: EndpointConfig<P>,
    state: State,
}

impl<P> View for Endpointer<P> {
    type V = Endpointing;

    closed spec fn view(&self) -> Endpointing {
        match self.state {
            State::Silence => Endpointing { in_speech: false, against: 0 },
            State::MaybeSpeechStart { count } => Endpointing {
                in_speech: false,
                against: count as int,
            },
            State::Speech => Endpointing { in_speech: true, against: 0 },
            State::MaybeSpeechEnd { count } => Endpointing {
                in_speech: true,
                against: count as int,
            },
        }
    }
}

impl<P> Endpointer<P> {
    pub closed spec fn configured(self) -> EndpointConfig<P> {
        self.config
    }

    /// A run that is still under way is too short to confirm anything.
    pub open spec fn wf(self) -> bool {
        let at = self@;
        at.against == 0 || 0 < at.against < self.configured().needed(at.in_speech)
    }

    pub fn new(config: EndpointConfig<P>) -> (endpointer: Self)
        ensures
            endpointer.wf(),
            endpointer.configured() == config,
            endpointer@ == at_rest(),
    {
        Endpointer { config, state: State::Silence }
    }

    /// Whether a start was confirmed and no end yet.
    pub fn in_speech(&self) -> (inside: bool)
        ensures
            inside == self@.in_speech,
    {
        match self.state {
            State::Speech => true,
            State::MaybeSpeechEnd { .. } => true,
            _ => false,
        }
    }

    /// Back to the initial silent state, so that a run left over from one
    /// recording does not count in the next.
    pub fn reset(&mut self)
        ensures
            final(self).wf(),
            final(self).configured() == old(self).configured(),
            final(self)@ == at_rest(),
    {
        self.state = State::Silence;
    }

    /// Takes in whether one frame was speech. Returns an event on confirmed
    /// transitions only.
    pub fn push_frame(&mut self, speech: bool) -> (event: Option<EndpointEvent>)
        requires
            old(self).wf(),
        ensures
            final(self).wf(),
            final(self).configured() == old(self).configured(),
            (final(self)@, event) == stepped(old(self).configured(), old(self)@, speech),
    {
        let next = match self.state {
            State::Silence => if speech {
                State::MaybeSpeechStart { count: 1 }
            } else {
                State::Silence
            },
            State::MaybeSpeechStart { count } => if speech {
                State::MaybeSpeechStart { count: count + 1 }
            } else {
                State::Silence
            },
            State::Speech => if speech {
                State::Speech
            } else {
                State::MaybeSpeechEnd { count: 1 }
            },
            State::MaybeSpeechEnd { count } => if speech {
                State::Speech
            } else {
                State::MaybeSpeechEnd { count: count + 1 }
            },
        };
        match next {
            State::MaybeSpeechStart { count } if count >= self.config.start_frames => {
                self.state = State::Speech;
                Some(EndpointEvent::SpeechStart)
            },
            State::MaybeSpeechEnd { count } if count >= self.config.end_frames => {
                self.state = State::Silence;
                Some(EndpointEvent::SpeechEnd)
            },
            _ => {
                self.state = next;
                None
            },
        }
    }
}

impl<P: PartialOrd + Copy> Endpointer<P> {
    /// Whether a frame of this probability counts as speech.
    pub fn is_speech(&self, probability: P) -> (speech: bool)
        ensures
            P::obeys_partial_cmp_spec() ==> speech == reaches(
                probability,
                self.configured().speech_threshold,
            ),
    {
        probability >= self.config.speech_threshold
    }

    /// Takes in one frame's speech probability. Returns an event on confirmed
    /// transitions only.
    pub fn push_probability(&mut self, probability: P) -> (event: Option<EndpointEvent>)
        requires
            old(self).wf(),
        ensures
            final(self).wf(),
            final(self).configured() == old(self).configured(),
            exists|speech: bool|
                (final(self)@, event) == #[trigger] stepped(
                    old(self).configured(),
                    old(self)@,
                    speech,
                ),
            P::obeys_partial_cmp_spec() ==> (final(self)@, event) == stepped(
                old(self).configured(),
                old(self)@,
                reaches(probability, old(self).configured().speech_threshold),
            ),
    {
        let speech = self.is_speech(probability);
        self.push_frame(speech)
    }
}

/// Where an endpointer that was reset stands after `frames`.
pub open spec fn after_frames<P>(config: EndpointConfig<P>, frames: Seq<bool>) -> Endpointing
    decreases frames.len(),
{
    if frames.len() == 0 {
        at_rest()
    } else {
        stepped(config, after_frames(config, frames.drop_last()), frames.last()).0
    }
}

/// The event, if any, that an endpointer that was reset reports at frame `i`.
pub open spec fn event_at<P>(config: EndpointConfig<P>, frames: Seq<bool>, i: int) -> Option<
    EndpointEvent,
> {
    stepped(config, after_frames(config, frames.take(i)), frames[i]).1
}

proof fn lemma_one_more<P>(config: EndpointConfig<P>, frames: Seq<bool>, i: int)
    requires
        0 <= i < frames.len(),
    ensures
        after_frames(config, frames.take(i + 1)) == stepped(
            config,
            after_frames(config, frames.take(i)),
            frames[i],
        ).0,
{
    assert(frames.take(i + 1).drop_last() =~= frames.take(i));
}

proof fn lemma_run_so_far<P>(config: EndpointConfig<P>, frames: Seq<bool>, i: int)
    requires
        0 <= i <= frames.len(),
    ensures
        ({
            let at = after_frames(config, frames.take(i));
            &&& 0 <= at.against <= i
            &&& forall|k: int| i - at.against <= k < i ==> #[trigger] frames[k] != at.in_speech
            &&& at.against == 0 || at.against < config.needed(at.in_speech)
        }),
    decreases i,
{
    if i > 0 {
        lemma_run_so_far(config, frames, i - 1);
        lemma_one_more(config, frames, i - 1);
    }
}

/// Debouncing: a start is reported only at the end of `start_frames` speech
/// frames in a row, and an end only at the end of `end_frames` silent ones.
pub proof fn law_events_need_a_full_run<P>(config: EndpointConfig<P>, frames: Seq<bool>, i: int)
    requires
        0 <= i < frames.len(),
        event_at(config, frames, i) is Some,
    ensures
        event_at(config, frames, i) == Some(EndpointEvent::SpeechStart) ==> config.start_frames <= i
            + 1 && forall|k: int| i + 1 - config.start_frames <= k <= i ==> #[trigger] frames[k],
        event_at(config, frames, i) == Some(EndpointEvent::SpeechEnd) ==> config.end_frames <= i + 1
            && forall|k: int| i + 1 - config.end_frames <= k <= i ==> !#[trigger] frames[k],
{
    lemma_run_so_far(config, frames, i);
}

proof fn lemma_run_grows<P>(config: EndpointConfig<P>, frames: Seq<bool>, from: int, n: int)
    requires
        0 <= from,
        0 <= n,
        from + n <= frames.len(),
        after_frames(config, frames.take(from)).against == 0,
        n < config.needed(after_frames(config, frames.take(from)).in_speech),
        forall|k: int|
            from <= k < from + n ==> #[trigger] frames[k] != after_frames(
                config,
                frames.take(from),
            ).in_speech,
    ensures
        after_frames(config, frames.take(from + n)) == (Endpointing {
            in_speech: after_frames(config, frames.take(from)).in_speech,
            against: n,
        }),
    decreases n,
{
    if n > 0 {
        lemma_run_grows(config, frames, from, n - 1);
        lemma_one_more(config, frames, from + n - 1);
    }
}

/// A full run of frames against where the endpointer stands is reported at its
/// last frame, and not before.
pub proof fn law_a_full_run_is_confirmed<P>(
    config: EndpointConfig<P>,
    frames: Seq<bool>,
    from: int,
)
    requires
        0 <= from,
        after_frames(config, frames.take(from)).against == 0,
        ({
            let inside = after_frames(config, frames.take(from)).in_speech;
            &&& 1 <= config.needed(inside)
            &&& from + config.needed(inside) <= frames.len()
            &&& forall|k: int|
                from <= k < from + config.needed(inside) ==> #[trigger] frames[k] != inside
        }),
    ensures
        ({
            let inside = after_frames(config, frames.take(from)).in_speech;
            let last = from + config.needed(inside) - 1;
            &&& event_at(config, frames, last) == Some(
                if inside {
                    EndpointEvent::SpeechEnd
                } else {
                    EndpointEvent::SpeechStart
                },
            )
            &&& forall|k: int| from <= k < last ==> #[trigger] event_at(config, frames, k) is None
        }),
{
    let inside = after_frames(config, frames.take(from)).in_speech;
    let last = from + config.needed(inside) - 1;
    lemma_run_grows(config, frames, from, last - from);
    assert(frames[last] != inside);
    assert forall|k: int| from <= k < last implies #[trigger] event_at(config, frames, k) is None by {
        lemma_run_grows(config, frames, from, k - from);
    }
}

/// No event came at the frames from `since` on, before frame `i`, and one came
/// just before them, or nothing did.
pub open spec fn quiet_since<P>(
    config: EndpointConfig<P>,
    frames: Seq<bool>,
    since: int,
    i: int,
) -> bool {
    &&& 0 <= since <= i < frames.len()
    &&& since == 0 || event_at(config, frames, since - 1) is Some
    &&& forall|k: int| since <= k < i ==> #[trigger] event_at(config, frames, k) is None
}

/// The run that is counted is the longest one that ends before frame `i` and
/// began after the last event.
proof fn lemma_run_since<P>(config: EndpointConfig<P>, frames: Seq<bool>, since: int, i: int)
    requires
        quiet_since(config, frames, since, i),
    ensures
        ({
            let at = after_frames(config, frames.take(i));
            &&& 0 <= at.against <= i - since
            &&& forall|k: int| i - at.against <= k < i ==> #[trigger] frames[k] != at.in_speech
            &&& at.against < i - since ==> frames[i - 1 - at.against] == at.in_speech
        }),
    decreases i - since,
{
    if i == since {
        if since > 0 {
            lemma_one_more(config, frames, since - 1);
        } else {
            assert(frames.take(0).len() == 0);
        }
    } else {
        lemma_run_since(config, frames, since, i - 1);
        lemma_one_more(config, frames, i - 1);
        assert(event_at(config, frames, i - 1) is None);
    }
}

/// What an event is: there is one at frame `i` exactly where, since the last
/// event or the reset, as many frames have come as it takes, and the last that
/// many, this one among them, all speak against where the endpointer stands. A
/// run that one other frame cuts short starts over.
pub proof fn law_an_event_is_a_full_run<P>(
    config: EndpointConfig<P>,
    frames: Seq<bool>,
    since: int,
    i: int,
)
    requires
        quiet_since(config, frames, since, i),
    ensures
        ({
            let inside = after_frames(config, frames.take(i)).in_speech;
            let needed = if config.needed(inside) < 1 {
                1
            } else {
                config.needed(inside)
            };
            event_at(config, frames, i) is Some <==> {
                &&& needed <= i + 1 - since
                &&& forall|k: int| i + 1 - needed <= k <= i ==> #[trigger] frames[k] != inside
            }
        }),
{
    lemma_run_since(config, frames, since, i);
    lemma_run_so_far(config, frames, i);
    let at = after_frames(config, frames.take(i));
    let inside = at.in_speech;
    let needed = if config.needed(inside) < 1 {
        1
    } else {
        config.needed(inside)
    };
    if event_at(config, frames, i) is None {
        if frames[i] != inside && needed <= i + 1 - since {
            assert(frames[i - 1 - at.against] == inside);
        }
    } else {
        assert forall|k: int| i + 1 - needed <= k <= i implies #[trigger] frames[k] != inside by {
            assert(at.against + 1 >= needed);
        }
    }
}

/// A dip shorter than a full run changes nothing: no event is reported, and
/// the first frame that agrees again wipes it out.
pub proof fn law_a_short_dip_changes_nothing<P>(
    config: EndpointConfig<P>,
    frames: Seq<bool>,
    from: int,
    n: int,
)
    requires
        0 <= from,
        0 <= n,
        from + n < frames.len(),
        after_frames(config, frames.take(from)).against == 0,
        n < config.needed(after_frames(config, frames.take(from)).in_speech),
        forall|k: int|
            from <= k < from + n ==> #[trigger] frames[k] != after_frames(
                config,
                frames.take(from),
            ).in_speech,
        frames[from + n] == after_frames(config, frames.take(from)).in_speech,
    ensures
        after_frames(config, frames.take(from + n + 1)) == after_frames(config, frames.take(from)),
        forall|k: int|
            from <= k <= from + n ==> #[trigger] event_at(config, frames, k) is None,
{
    lemma_run_grows(config, frames, from, n);
    lemma_one_more(config, frames, from + n);
    assert forall|k: int| from <= k <= from + n implies #[trigger] event_at(
        config,
        frames,
        k,
    ) is None by {
        lemma_run_grows(config, frames, from, k - from);
    }
}

proof fn lemma_stays<P>(config: EndpointConfig<P>, frames: Seq<bool>, from: int, to: int)
    requires
        0 <= from <= to <= frames.len(),
        forall|k: int| from <= k < to ==> #[trigger] event_at(config, frames, k) is None,
    ensures
        after_frames(config, frames.take(to)).in_speech == after_frames(
            config,
            frames.take(from),
        ).in_speech,
    decreases to - from,
{
    if from < to {
        lemma_stays(config, frames, from, to - 1);
        lemma_one_more(config, frames, to - 1);
        assert(event_at(config, frames, to - 1) is None);
    }
}

/// Starts and ends take turns: of two events with none between them one is a
/// start and the other an end.
pub proof fn law_events_take_turns<P>(
    config: EndpointConfig<P>,
    frames: Seq<bool>,
    first: int,
    second: int,
)
    requires
        0 <= first < second < frames.len(),
        event_at(config, frames, first) is Some,
        event_at(config, frames, second) is Some,
        forall|k: int| first < k < second ==> #[trigger] event_at(config, frames, k) is None,
    ensures
        event_at(config, frames, first) != event_at(config, frames, second),
{
    lemma_one_more(config, frames, first);
    lemma_stays(config, frames, first + 1, second);
}

/// The first event after a reset is a start.
pub proof fn law_the_first_event_is_a_start<P>(
    config: EndpointConfig<P>,
    frames: Seq<bool>,
    first: int,
)
    requires
        0 <= first < frames.len(),
        event_at(config, frames, first) is Some,
        forall|k: int| 0 <= k < first ==> #[trigger] event_at(config, frames, k) is None,
    ensures
        event_at(config, frames, first) == Some(EndpointEvent::SpeechStart),
{
    assert(frames.take(0).len() == 0);
    lemma_stays(config, frames, 0, first);
}

/// Being in speech is what the events say: it is so exactly where the last event
/// was a start, and nothing has happened since a reset without one.
pub proof fn law_speech_is_what_the_events_say<P>(
    config: EndpointConfig<P>,
    frames: Seq<bool>,
    since: int,
    i: int,
)
    requires
        quiet_since(config, frames, since, i),
    ensures
        after_frames(config, frames.take(i)).in_speech <==> since > 0 && event_at(
            config,
            frames,
            since - 1,
        ) == Some(EndpointEvent::SpeechStart),
{
    lemma_stays(config, frames, since, i);
    if since > 0 {
        lemma_one_more(config, frames, since - 1);
    } else {
        assert(frames.take(0).len() == 0);
    }
}

/// One frame: where it agrees with where the endpointer stands the run against
/// it is over; otherwise the run is one longer, and with as many frames as it
/// takes, `start_frames` of speech or `end_frames` of silence, it is an event
/// and the endpointer stands on the other side.
pub proof fn law_what_one_frame_does<P>(config: EndpointConfig<P>, at: Endpointing, speech: bool)
    requires
        at.against >= 0,
    ensures
        ({
            let (to, event) = stepped(config, at, speech);
            let confirmed = if speech {
                at.against + 1 >= config.start_frames
            } else {
                at.against + 1 >= config.end_frames
            };
            &&& speech == at.in_speech ==> to.in_speech == at.in_speech && to.against == 0 && event
                is None
            &&& speech != at.in_speech && !confirmed ==> to.in_speech == at.in_speech && to.against
                == at.against + 1 && event is None
            &&& speech != at.in_speech && confirmed ==> to.in_speech == speech && to.against == 0
                && event is Some
            &&& event is Some ==> (event == Some(EndpointEvent::SpeechStart)) == speech
        }),
        !at_rest().in_speech,
        at_rest().against == 0,
{
}

/// A probability reaches the threshold where it is at least as large.
pub proof fn law_reaching_is_being_at_least(probability: u32, threshold: u32)
    ensures
        reaches(probability, threshold) <==> probability >= threshold,
{
}

/// By default it takes three frames on either edge.
pub proof fn law_how_many_frames_it_takes<P>(config: EndpointConfig<P>)
    ensures
        DEFAULT_START_FRAMES == 3,
        DEFAULT_END_FRAMES == 3,
        config.needed(false) == config.start_frames,
        config.needed(true) == config.end_frames,
{
}

} // verus!
