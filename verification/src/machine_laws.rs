//! What holds of the pipeline whatever happens.

use vstd::prelude::*;

use crate::disfluency::stripped;
use crate::framing::FRAME_SAMPLES;
use crate::key::EventType;
use crate::listener::Heard;
use crate::machine::{
    chosen, cleaned, committing, controlled, decoded, finished, frame_scored, inserted,
    insertion_report, listened, machine_wf, polled, push_to_talk_open, unmoved, Deed, Machine, Move,
    Phase,
};
use crate::ring_buffer::RingBuffer;
use crate::session::{recorded, started, Recording, SessionMode};
use crate::status::{watchdog_control, ControlEvent, Status};
use crate::words::all_space;

verus! {

/// The two modes exclude each other: while a session of either is open, the
/// other mode's key does nothing at all, and nor does pressing again.
pub proof fn law_modes_exclude_each_other<T, P>(
    m: Machine<T, P>,
    ring: RingBuffer<T>,
    session: Recording<T>,
)
    requires
        m.session == Some(session),
    ensures
        controlled(m, ring, ControlEvent::PushToTalkPressed) == unmoved(m),
        session.mode == SessionMode::PushToTalk ==> controlled(
            m,
            ring,
            ControlEvent::HandsFreeTogglePressed,
        ) == unmoved(m),
        session.mode == SessionMode::HandsFree ==> controlled(
            m,
            ring,
            ControlEvent::PushToTalkReleased,
        ) == unmoved(m),
{
}

/// A release that no press came before does nothing.
pub proof fn law_a_stray_release_does_nothing<T, P>(m: Machine<T, P>, ring: RingBuffer<T>)
    requires
        m.session is None,
    ensures
        controlled(m, ring, ControlEvent::PushToTalkReleased) == unmoved(m),
{
}

/// What a move asks for is what its machine then waits for.
pub open spec fn awaited<T, P>(to: Move<T, P>) -> bool {
    match to.machine.phase {
        Phase::Waiting => to.deed is Wait || to.deed is Quit,
        Phase::Scoring { .. } => to.deed is Score && to.deed->Score_0.len() == FRAME_SAMPLES,
        Phase::Decoding { .. } => to.deed is Decode,
        Phase::Closing { .. } => to.deed is Decode && to.deed->Decode_0.len() > 0,
        Phase::Cleaning { spoken, .. } => to.deed == Deed::<T>::Clean(spoken),
        Phase::Inserting { text, .. } => to.deed == Deed::<T>::Insert(text),
    }
}

/// Each answer finds the pipeline waiting for it: a control event or a poll
/// while it waits, and otherwise the outcome of what it asked for last.
pub proof fn law_moves_ask_for_what_they_await<T, P>(
    m: Machine<T, P>,
    ring: RingBuffer<T>,
    event: ControlEvent,
    speech: Option<bool>,
    text: Option<Seq<char>>,
)
    requires
        machine_wf(m),
    ensures
        m.phase is Waiting ==> awaited(controlled(m, ring, event)),
        m.phase is Waiting ==> awaited(polled(m, ring)),
        m.phase is Scoring ==> awaited(frame_scored(m, ring, speech)),
        m.phase is Decoding || m.phase is Closing ==> awaited(decoded(m, ring, text)),
        m.phase is Cleaning ==> awaited(cleaned(m, text)),
        m.phase is Inserting ==> awaited(inserted(m, ring, text)),
{
}

/// An insertion is under way from the move that asks for it on, and while it
/// is, the pipeline is told nothing by the keys: neither by the listener,
/// whatever event comes in, nor by the watchdog, whatever the keys look like.
pub proof fn law_an_insertion_is_not_disturbed<T, P>(
    to: Move<T, P>,
    heard: Heard,
    event: EventType,
    both_keys_down: bool,
)
    requires
        awaited(to),
        machine_wf(to.machine),
    ensures
        to.deed is Insert <==> to.machine.phase is Inserting,
        to.deed is Insert ==> {
            let inserting = to.machine.phase is Inserting;
            &&& heard.told(event, inserting) is None
            &&& heard.after(event, inserting) == heard
            &&& watchdog_control(push_to_talk_open(to.machine), both_keys_down) is None
        },
{
}

/// One string is inserted, once, and never revised: cleaning up leads straight
/// to an insertion, of the cleaned text or of what was said, and an insertion
/// leads straight to its report, with nothing left to insert.
pub proof fn law_one_string_is_inserted_once<T, P>(
    m: Machine<T, P>,
    ring: RingBuffer<T>,
    answer: Option<Seq<char>>,
    error: Option<Seq<char>>,
)
    ensures
        m.phase matches Phase::Cleaning { spoken, resume } ==> {
            let text = cleaned(m, answer).deed->Insert_0;
            &&& cleaned(m, answer).deed is Insert
            &&& text == spoken || Some(text) == answer
            &&& cleaned(m, answer).machine.phase == (Phase::<T>::Inserting { text, resume })
            &&& cleaned(m, answer).reported.len() == 0
        },
        m.phase matches Phase::Inserting { text, resume } ==> {
            let after = inserted(m, ring, error);
            &&& after.deed is Wait
            &&& after.machine.phase is Waiting
            &&& after.reported[0] == insertion_report(text, error)
            &&& after.reported.len() == if resume {
                2int
            } else {
                1int
            }
        },
{
}

/// What is reported of a whole transcript from when it is there to when it is
/// dealt with, where the cleanup answers `answer` and the insertion ends with
/// `error`.
pub open spec fn utterance_reports<T, P>(
    m: Machine<T, P>,
    ring: RingBuffer<T>,
    committed: Seq<char>,
    resume: bool,
    answer: Option<Seq<char>>,
    error: Option<Seq<char>>,
) -> Seq<Status> {
    let first = finished(m, ring, committed, resume, seq![]);
    match first.machine.phase {
        Phase::Cleaning { .. } => first.reported + cleaned(first.machine, answer).reported
            + inserted(cleaned(first.machine, answer).machine, ring, error).reported,
        Phase::Inserting { .. } => first.reported + inserted(first.machine, ring, error).reported,
        _ => first.reported,
    }
}

/// An utterance has one outcome. Where nothing is left of it without
/// disfluencies, nothing was heard. Otherwise one text is inserted, the cleaned
/// one or the one that was said, and its insertion is reported. After that
/// hands-free listens on.
pub proof fn law_an_utterance_has_one_outcome<T, P>(
    m: Machine<T, P>,
    ring: RingBuffer<T>,
    committed: Seq<char>,
    resume: bool,
    answer: Option<Seq<char>>,
    error: Option<Seq<char>>,
)
    ensures
        ({
            let spoken = stripped(committed);
            let text = if m.cleanup_on {
                chosen(spoken, answer)
            } else {
                spoken
            };
            let outcome = if all_space(spoken) {
                Status::HeardNothing
            } else {
                insertion_report(text, error)
            };
            utterance_reports(m, ring, committed, resume, answer, error) == if resume {
                seq![outcome, Status::Listening]
            } else {
                seq![outcome]
            }
        }),
{
    let spoken = stripped(committed);
    let text = if m.cleanup_on {
        chosen(spoken, answer)
    } else {
        spoken
    };
    let outcome = if all_space(spoken) {
        Status::HeardNothing
    } else {
        insertion_report(text, error)
    };
    assert(utterance_reports(m, ring, committed, resume, answer, error) =~= if resume {
        seq![outcome, Status::Listening]
    } else {
        seq![outcome]
    });
}

/// Nothing blank is ever inserted, and an utterance of nothing but
/// disfluencies is reported as nothing heard.
pub proof fn law_nothing_blank_is_inserted<T, P>(
    m: Machine<T, P>,
    ring: RingBuffer<T>,
    committed: Seq<char>,
    resume: bool,
    reported: Seq<Status>,
    answer: Option<Seq<char>>,
)
    requires
        machine_wf(m),
    ensures
        finished(m, ring, committed, resume, reported).deed matches Deed::Insert(text)
            ==> !all_space(text),
        cleaned(m, answer).deed matches Deed::Insert(text) ==> !all_space(text),
        all_space(stripped(committed)) ==> {
            let after = finished(m, ring, committed, resume, reported);
            &&& after.deed is Wait
            &&& after.reported[reported.len() as int] == Status::HeardNothing
        },
{
}

/// Where cleanup is off no text is handed to it: what was said is inserted as
/// it is. It is never on without a model.
pub proof fn law_cleanup_can_be_switched_off<T, P>(
    m: Machine<T, P>,
    ring: RingBuffer<T>,
    committed: Seq<char>,
    resume: bool,
    enabled: bool,
)
    ensures
        !m.cleanup_on && !all_space(stripped(committed)) ==> finished(
            m,
            ring,
            committed,
            resume,
            seq![],
        ).deed == Deed::<T>::Insert(stripped(committed)),
        controlled(
            m,
            ring,
            ControlEvent::SetCleanupEnabled(enabled),
        ).machine.cleanup_on == (enabled && m.cleanup_loaded),
{
}

/// Silence does not end a push-to-talk session; only its release does.
pub proof fn law_push_to_talk_ignores_silence<T, P>(
    m: Machine<T, P>,
    ring: RingBuffer<T>,
    session: Recording<T>,
    speech_ended: bool,
)
    requires
        m.session == Some(session),
        session.mode == SessionMode::PushToTalk,
    ensures
        listened(m, ring, speech_ended).machine.session == Some(session),
        listened(m, ring, speech_ended).deed is Wait,
        listened(m, ring, speech_ended).reported.len() == 0,
{
}

/// Silence ends a hands-free utterance, and once it is dealt with, whatever
/// came of it, hands-free listens on with a fresh session.
pub proof fn law_hands_free_listens_on<T, P>(
    m: Machine<T, P>,
    ring: RingBuffer<T>,
    session: Recording<T>,
    committed: Seq<char>,
    error: Option<Seq<char>>,
)
    requires
        session.mode == SessionMode::HandsFree,
    ensures
        m.session == Some(session) ==> listened(m, ring, true) == committing(
            Machine { phase: Phase::Waiting, ..m },
            ring,
            session,
            true,
            seq![],
        ),
        m.phase matches Phase::Inserting { text, resume: true } ==> {
            let after = inserted(m, ring, error);
            &&& after.machine.session == Some(started(ring, SessionMode::HandsFree))
            &&& after.reported.last() == Status::Listening
            &&& after.session_started
        },
        all_space(stripped(committed)) ==> {
            let after = finished(m, ring, committed, true, seq![]);
            &&& after.machine.session == Some(started(ring, SessionMode::HandsFree))
            &&& after.reported == seq![Status::HeardNothing, Status::Listening]
            &&& after.session_started
        },
{
    if all_space(stripped(committed)) {
        assert(finished(m, ring, committed, true, seq![]).reported =~= seq![
            Status::HeardNothing,
            Status::Listening,
        ]);
    }
}

/// The end of a session is reported, and hands over every sample that no full
/// window has covered: from where the next window would have started to the
/// end of the audio.
pub proof fn law_the_trailing_audio_is_decoded<T, P>(
    m: Machine<T, P>,
    ring: RingBuffer<T>,
    session: Recording<T>,
    resume: bool,
    reported: Seq<Status>,
)
    requires
        machine_wf(m),
        m.session == Some(session),
    ensures
        ({
            let after = committing(m, ring, session, resume, reported);
            let audio = recorded(ring, session);
            let start = m.policy.start_of(session.windows);
            &&& after.reported[reported.len() as int] == Status::Transcribing
            &&& start < audio.len() ==> after.deed == Deed::<T>::Decode(
                audio.subrange(start, audio.len() as int),
            )
            &&& start < audio.len() ==> after.machine.session is None
        }),
{
}

/// Nothing is decoded before speech is confirmed, while a session goes on.
pub proof fn law_silence_is_not_decoded<T, P>(
    m: Machine<T, P>,
    ring: RingBuffer<T>,
    session: Recording<T>,
)
    requires
        machine_wf(m),
        m.session == Some(session),
        m.phase is Waiting,
        !session.heard,
    ensures
        !(polled(m, ring).deed is Decode),
{
}

/// Frames are scored one after the other, without gaps or overlap: the frame
/// that is asked for after one answer begins where the last one ended.
pub proof fn law_frames_follow_one_another<T, P>(
    m: Machine<T, P>,
    ring: RingBuffer<T>,
    session: Recording<T>,
    speech: Option<bool>,
)
    requires
        m.session == Some(session),
        m.phase is Scoring,
    ensures
        ({
            let after = frame_scored(m, ring, speech);
            let from = session.fed + FRAME_SAMPLES;
            &&& after.deed matches Deed::Score(frame) ==> frame == m.phase->audio.subrange(
                from,
                from + FRAME_SAMPLES,
            ) && after.machine.session is Some && after.machine.session->0.fed == from
            &&& !(after.deed is Score) ==> m.phase->audio.len() < from + FRAME_SAMPLES
        }),
{
}

} // verus!
