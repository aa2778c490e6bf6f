//! The pipeline move by move: what each event leads to, said of the state before
//! and after it.

use vstd::prelude::*;

use crate::disfluency::stripped;
use crate::endpoint::{stepped, EndpointEvent, Endpointing};
use crate::machine::{
    absorbed, cleaned, committing, controlled, decoded, finished, frame_scored, inserted, listened,
    machine_wf, opened, polled, unmoved, Deed, Machine, Phase,
};
use crate::merge::merged;
use crate::ring_buffer::RingBuffer;
use crate::session::{recorded, Recording, SessionMode};
use crate::status::{ControlEvent, Status};
use crate::words::all_space;

verus! {

/// Where nothing is to happen nothing does.
pub proof fn law_an_idle_move<T, P>(m: Machine<T, P>)
    ensures
        unmoved(m).machine == m,
        unmoved(m).reported.len() == 0,
        !unmoved(m).session_started,
        unmoved(m).deed is Wait,
{
}

/// A session starts afresh: with the half second of audio before it, nothing
/// scored, decoded or heard, and an endpointer that has forgotten what came
/// before.
pub proof fn law_a_session_starts_afresh<T, P>(
    m: Machine<T, P>,
    ring: RingBuffer<T>,
    mode: SessionMode,
    reported: Seq<Status>,
)
    ensures
        ({
            let to = opened(m, ring, mode, reported);
            let session = to.machine.session->0;
            let kept = ring@.len() as int;
            &&& to.machine.session is Some
            &&& session.mode == mode
            &&& session.mark == ring.total()
            &&& session.preroll.len() == if kept < 8000 {
                kept
            } else {
                8000
            }
            &&& forall|i: int|
                0 <= i < session.preroll.len() ==> #[trigger] session.preroll[i] == ring@[kept
                    - session.preroll.len() + i]
            &&& session.windows == 0
            &&& session.committed.len() == 0
            &&& session.fed == 0
            &&& !session.heard
            &&& to.machine == (Machine {
                session: Some(session),
                at: Endpointing { in_speech: false, against: 0 },
                phase: Phase::Waiting,
                ..m
            })
            &&& to.session_started
            &&& to.deed is Wait
            &&& to.reported.len() == reported.len() + 1
            &&& to.reported.take(reported.len() as int) == reported
            &&& mode == SessionMode::PushToTalk ==> to.reported.last() == Status::Recording
            &&& mode == SessionMode::HandsFree ==> to.reported.last() == Status::Listening
        }),
{
    assert(opened(m, ring, mode, reported).reported.take(reported.len() as int) =~= reported);
}

/// What becomes of a whole transcript. Where only disfluencies were said nothing
/// was heard, and hands-free listens on. Otherwise what was said without them is
/// cleaned up, where that is on, or else inserted.
pub proof fn law_what_becomes_of_a_transcript<T, P>(
    m: Machine<T, P>,
    ring: RingBuffer<T>,
    committed: Seq<char>,
    resume: bool,
    reported: Seq<Status>,
)
    ensures
        ({
            let to = finished(m, ring, committed, resume, reported);
            let said = stripped(committed);
            &&& all_space(said) && resume ==> to == opened(
                Machine { phase: Phase::Waiting, ..m },
                ring,
                SessionMode::HandsFree,
                reported.push(Status::HeardNothing),
            )
            &&& all_space(said) && !resume ==> {
                &&& to.machine == (Machine { phase: Phase::Waiting, ..m })
                &&& to.reported == reported.push(Status::HeardNothing)
                &&& !to.session_started
                &&& to.deed is Wait
            }
            &&& !all_space(said) ==> {
                &&& to.reported == reported
                &&& !to.session_started
                &&& m.cleanup_on ==> to.deed == Deed::<T>::Clean(said) && to.machine == (Machine {
                    phase: Phase::Cleaning { spoken: said, resume },
                    ..m
                })
                &&& !m.cleanup_on ==> to.deed == Deed::<T>::Insert(said) && to.machine == (Machine {
                    phase: Phase::Inserting { text: said, resume },
                    ..m
                })
            }
        }),
{
}

/// What the end of a session leads to: its audio from where the next window
/// would start is decoded, all of it, and where there is none left the
/// transcript is done.
pub proof fn law_what_the_end_of_a_session_leads_to<T, P>(
    m: Machine<T, P>,
    ring: RingBuffer<T>,
    session: Recording<T>,
    resume: bool,
    reported: Seq<Status>,
)
    ensures
        ({
            let to = committing(m, ring, session, resume, reported);
            let audio = recorded(ring, session);
            let start = session.windows * m.policy.stride_samples;
            &&& start < audio.len() ==> {
                &&& to.deed == Deed::<T>::Decode(audio.subrange(start, audio.len() as int))
                &&& to.machine == (Machine {
                    session: None,
                    phase: Phase::Closing { committed: session.committed, resume },
                    ..m
                })
                &&& to.reported == reported.push(Status::Transcribing)
                &&& !to.session_started
            }
            &&& start >= audio.len() ==> to == finished(
                Machine { session: None, ..m },
                ring,
                session.committed,
                resume,
                reported.push(Status::Transcribing),
            )
        }),
{
}

/// What each control event does. A key of one mode opens a session where none is
/// open, and ends one of its own mode; the other mode's session it leaves
/// alone. Cleanup can be switched on where there is a model, and quitting does
/// just that.
pub proof fn law_what_controls_do<T, P>(
    m: Machine<T, P>,
    ring: RingBuffer<T>,
    session: Recording<T>,
    enabled: bool,
)
    ensures
        m.session is None ==> {
            &&& controlled(m, ring, ControlEvent::PushToTalkPressed) == opened(
                m,
                ring,
                SessionMode::PushToTalk,
                seq![],
            )
            &&& controlled(m, ring, ControlEvent::PushToTalkReleased) == unmoved(m)
            &&& controlled(m, ring, ControlEvent::HandsFreeTogglePressed) == opened(
                m,
                ring,
                SessionMode::HandsFree,
                seq![Status::HandsFreeOn],
            )
        },
        m.session == Some(session) && session.mode == SessionMode::PushToTalk ==> {
            &&& controlled(m, ring, ControlEvent::PushToTalkPressed) == unmoved(m)
            &&& controlled(m, ring, ControlEvent::PushToTalkReleased) == committing(
                m,
                ring,
                session,
                false,
                seq![],
            )
            &&& controlled(m, ring, ControlEvent::HandsFreeTogglePressed) == unmoved(m)
        },
        m.session == Some(session) && session.mode == SessionMode::HandsFree ==> {
            &&& controlled(m, ring, ControlEvent::PushToTalkPressed) == unmoved(m)
            &&& controlled(m, ring, ControlEvent::PushToTalkReleased) == unmoved(m)
            &&& controlled(m, ring, ControlEvent::HandsFreeTogglePressed) == committing(
                m,
                ring,
                session,
                false,
                seq![Status::HandsFreeOff],
            )
        },
        ({
            let to = controlled(m, ring, ControlEvent::SetCleanupEnabled(enabled));
            &&& to.machine == (Machine { cleanup_on: enabled && m.cleanup_loaded, ..m })
            &&& to.reported.len() == 0
            &&& !to.session_started
            &&& to.deed is Wait
        }),
        ({
            let to = controlled(m, ring, ControlEvent::Quit);
            &&& to.machine == m
            &&& to.reported.len() == 0
            &&& !to.session_started
            &&& to.deed is Quit
        }),
{
}

/// What a poll does with the audio that has come in: it asks for the score of the
/// next whole frame. Where there is none it asks for the next whole window to be
/// decoded, once speech was heard, and otherwise for nothing.
pub proof fn law_what_a_poll_does<T, P>(
    m: Machine<T, P>,
    ring: RingBuffer<T>,
    session: Recording<T>,
)
    requires
        m.phase is Waiting,
    ensures
        m.session is None ==> polled(m, ring) == unmoved(m),
        m.session == Some(session) ==> {
            let to = polled(m, ring);
            let audio = recorded(ring, session);
            let start = session.windows * m.policy.stride_samples;
            let end = start + m.policy.window_samples;
            let frame_waits = session.fed + 512 <= audio.len();
            let window_waits = session.heard && end <= audio.len();
            &&& to.reported.len() == 0
            &&& !to.session_started
            &&& frame_waits ==> {
                &&& to.deed == Deed::<T>::Score(audio.subrange(session.fed, session.fed + 512))
                &&& to.machine == (Machine {
                    phase: Phase::Scoring { audio, last_event: None },
                    ..m
                })
            }
            &&& !frame_waits && window_waits ==> {
                &&& to.deed == Deed::<T>::Decode(audio.subrange(start, end))
                &&& to.machine == (Machine { phase: Phase::Decoding { speech_ended: false }, ..m })
            }
            &&& !frame_waits && !window_waits ==> to.deed is Wait && to.machine == m
        },
{
}

/// What the score of a frame does. The endpointer takes it in, where there is
/// one; a start of speech is remembered for the session. Then the next whole
/// frame of the same audio is scored. After the last one a window is decoded as
/// on a poll, and without one the audio has been listened to, with what the
/// endpointer reported last in it.
pub proof fn law_what_a_score_does<T, P>(
    m: Machine<T, P>,
    ring: RingBuffer<T>,
    session: Recording<T>,
    speech: Option<bool>,
)
    requires
        m.phase is Scoring,
        m.session == Some(session),
    ensures
        ({
            let to = frame_scored(m, ring, speech);
            let audio = m.phase->audio;
            let (at, event) = match speech {
                Some(spoken) => stepped(m.config, m.at, spoken),
                None => (m.at, None),
            };
            let latest = if event is None {
                m.phase->last_event
            } else {
                event
            };
            let fed = session.fed + 512;
            let heard = session.heard || event == Some(EndpointEvent::SpeechStart);
            let next = Recording { fed, heard, ..session };
            let start = session.windows * m.policy.stride_samples;
            let end = start + m.policy.window_samples;
            let ended = latest == Some(EndpointEvent::SpeechEnd);
            let after = Machine { at, session: Some(next), ..m };
            &&& fed + 512 <= audio.len() ==> {
                &&& to.deed == Deed::<T>::Score(audio.subrange(fed, fed + 512))
                &&& to.machine == (Machine {
                    phase: Phase::Scoring { audio, last_event: latest },
                    ..after
                })
                &&& to.reported.len() == 0
                &&& !to.session_started
            }
            &&& fed + 512 > audio.len() && heard && end <= audio.len() ==> {
                &&& to.deed == Deed::<T>::Decode(audio.subrange(start, end))
                &&& to.machine == (Machine { phase: Phase::Decoding { speech_ended: ended }, ..after })
                &&& to.reported.len() == 0
                &&& !to.session_started
            }
            &&& fed + 512 > audio.len() && !(heard && end <= audio.len()) ==> to == listened(
                after,
                ring,
                ended,
            )
        }),
{
}

/// What follows once audio has been listened to: where speech has ended in it a
/// hands-free session ends, and another follows; any other session goes on.
pub proof fn law_what_follows_listening<T, P>(
    m: Machine<T, P>,
    ring: RingBuffer<T>,
    session: Recording<T>,
    ended: bool,
)
    requires
        m.session == Some(session),
    ensures
        ({
            let to = listened(m, ring, ended);
            let rested = Machine { phase: Phase::Waiting, ..m };
            &&& ended && session.mode == SessionMode::HandsFree ==> to == committing(
                rested,
                ring,
                session,
                true,
                seq![],
            )
            &&& !(ended && session.mode == SessionMode::HandsFree) ==> {
                &&& to.machine == rested
                &&& to.reported.len() == 0
                &&& !to.session_started
                &&& to.deed is Wait
            }
        }),
{
}

/// What a decoded window adds to a transcript: its text, merged in, unless there
/// is none or it is blank.
pub proof fn law_what_a_window_adds(committed: Seq<char>, text: Seq<char>)
    ensures
        absorbed(committed, None) == committed,
        all_space(text) ==> absorbed(committed, Some(text)) == committed,
        !all_space(text) ==> absorbed(committed, Some(text)) == merged(committed, text),
{
}

/// What the text of a window does while the session goes on: it is added to the
/// transcript, and the window counts as decoded whether or not it had any.
pub proof fn law_what_a_window_does<T, P>(
    m: Machine<T, P>,
    ring: RingBuffer<T>,
    session: Recording<T>,
    text: Option<Seq<char>>,
)
    requires
        m.phase is Decoding,
        m.session == Some(session),
    ensures
        decoded(m, ring, text) == listened(
            Machine {
                session: Some(
                    Recording {
                        windows: session.windows + 1,
                        committed: absorbed(session.committed, text),
                        ..session
                    },
                ),
                ..m
            },
            ring,
            m.phase->speech_ended,
        ),
{
}

/// What the text of the trailing window does: it completes the transcript.
pub proof fn law_what_the_trailing_window_does<T, P>(
    m: Machine<T, P>,
    ring: RingBuffer<T>,
    text: Option<Seq<char>>,
)
    requires
        m.phase is Closing,
    ensures
        decoded(m, ring, text) == finished(
            m,
            ring,
            absorbed(m.phase->Closing_committed, text),
            m.phase->Closing_resume,
            seq![],
        ),
{
}

/// What the cleanup's answer does: every answer that is not blank is the text
/// that is inserted, however long or short, and what was said is inserted only
/// where there is no answer or a blank one.
pub proof fn law_what_an_answer_does<T, P>(m: Machine<T, P>, answer: Option<Seq<char>>)
    requires
        m.phase is Cleaning,
    ensures
        ({
            let to = cleaned(m, answer);
            let said = m.phase->spoken;
            let resume = m.phase->Cleaning_resume;
            &&& to.reported.len() == 0
            &&& !to.session_started
            &&& answer is Some && !all_space(answer->0) ==> {
                &&& to.deed == Deed::<T>::Insert(answer->0)
                &&& to.machine == (Machine {
                    phase: Phase::Inserting { text: answer->0, resume },
                    ..m
                })
            }
            &&& answer is None || all_space(answer->0) ==> {
                &&& to.deed == Deed::<T>::Insert(said)
                &&& to.machine == (Machine { phase: Phase::Inserting { text: said, resume }, ..m })
            }
        }),
{
}

/// What the outcome of an insertion does: the text that was inserted is
/// reported, or the error in a warning. Then hands-free listens on, and after
/// push-to-talk there is nothing left to do.
pub proof fn law_what_an_outcome_does<T, P>(
    m: Machine<T, P>,
    ring: RingBuffer<T>,
    error: Option<Seq<char>>,
)
    requires
        m.phase is Inserting,
    ensures
        ({
            let to = inserted(m, ring, error);
            let report = match error {
                None => Status::Inserted(m.phase->text),
                Some(cause) => Status::Warning("couldn't insert text: "@ + cause),
            };
            let rested = Machine { phase: Phase::Waiting, ..m };
            &&& m.phase->Inserting_resume ==> to == opened(
                rested,
                ring,
                SessionMode::HandsFree,
                seq![report],
            )
            &&& !m.phase->Inserting_resume ==> {
                &&& to.machine == rested
                &&& to.reported == seq![report]
                &&& !to.session_started
                &&& to.deed is Wait
            }
        }),
{
}

/// What holds between any two moves, in plain words: cleanup is on only with a
/// model, no session is open while its last window is decoded or its text
/// cleaned up or inserted, and nothing blank is cleaned up or inserted.
pub proof fn law_what_always_holds<T, P>(m: Machine<T, P>)
    requires
        machine_wf(m),
    ensures
        m.cleanup_on ==> m.cleanup_loaded,
        m.phase is Closing || m.phase is Cleaning || m.phase is Inserting ==> m.session is None,
        m.phase is Scoring || m.phase is Decoding ==> m.session is Some,
        m.phase is Cleaning ==> m.cleanup_on && !all_space(m.phase->spoken),
        m.phase is Inserting ==> !all_space(m.phase->text),
{
}

} // verus!
