//! What the pipeline reports, and what it is told to do.

use vstd::prelude::*;

use crate::decimal::{decimal, decimal_of};
use crate::hotkey::{HotkeyEvent, HotkeySlot};
use crate::session::PRE_ROLL_MILLIS;

verus! {

/// A change of state, for a window or a tray icon to show.
#[derive(Debug, Clone, PartialEq)]
pub enum PipelineStatus {
    /// Everything is loaded and the microphone is live; nothing is recorded.
    Ready { mic_name: String, cleanup_enabled: bool },
    Recording,
    /// Hands-free is on and waits for speech.
    Listening,
    Transcribing,
    Inserted(String),
    HeardNothing,
    HandsFreeOn,
    HandsFreeOff,
    Warning(String),
}

/// A status with its text as characters.
pub ghost enum Status {
    Ready { mic_name: Seq<char>, cleanup_enabled: bool },
    Recording,
    Listening,
    Transcribing,
    Inserted(Seq<char>),
    HeardNothing,
    HandsFreeOn,
    HandsFreeOff,
    Warning(Seq<char>),
}

impl View for PipelineStatus {
    type V = Status;

    open spec fn view(&self) -> Status {
        match *self {
            PipelineStatus::Ready { mic_name, cleanup_enabled } => Status::Ready {
                mic_name: mic_name@,
                cleanup_enabled,
            },
            PipelineStatus::Recording => Status::Recording,
            PipelineStatus::Listening => Status::Listening,
            PipelineStatus::Transcribing => Status::Transcribing,
            PipelineStatus::Inserted(text) => Status::Inserted(text@),
            PipelineStatus::HeardNothing => Status::HeardNothing,
            PipelineStatus::HandsFreeOn => Status::HandsFreeOn,
            PipelineStatus::HandsFreeOff => Status::HandsFreeOff,
            PipelineStatus::Warning(text) => Status::Warning(text@),
        }
    }
}

pub open spec fn statuses(list: Seq<PipelineStatus>) -> Seq<Status> {
    list.map_values(|status: PipelineStatus| status@)
}

/// A line for the console.
#[derive(Debug, Clone, PartialEq, Eq)]
pub struct ConsoleLine {
    /// Whether it belongs among the errors.
    pub warning: bool,
    pub text: String,
}

/// How a session that just began is announced: `label`, and how far back it
/// reaches.
pub open spec fn with_pre_roll(label: Seq<char>) -> Seq<char> {
    label + " (with "@ + decimal(PRE_ROLL_MILLIS as nat) + "ms pre-roll)"@
}

/// What a console shows of `status`, which came right after `previous`, and
/// whether it is a warning. That a text is inserted is said before it is. Where
/// hands-free listens on after an utterance, the pre-roll goes without saying.
pub open spec fn console_text(previous: Option<Status>, status: Status) -> Option<
    (bool, Seq<char>),
> {
    match status {
        Status::Ready { .. } | Status::Transcribing | Status::Inserted(_) => None,
        Status::Recording => Some((false, with_pre_roll("Recording..."@))),
        Status::Listening => Some(
            (
                false,
                if previous == Some(Status::HandsFreeOn) {
                    with_pre_roll("Listening..."@)
                } else {
                    "Listening..."@
                },
            ),
        ),
        Status::HeardNothing => Some((false, "(heard nothing)"@)),
        Status::HandsFreeOn => Some(
            (false, "Hands-free mode: ON (VAD silence commits each utterance)"@),
        ),
        Status::HandsFreeOff => Some((false, "Hands-free mode: OFF"@)),
        Status::Warning(text) => Some((true, "warning: "@ + text)),
    }
}

fn announced(label: &str) -> (text: String)
    ensures
        text@ == with_pre_roll(label@),
{
    let mut text = label.to_owned();
    text.append(" (with ");
    text.append(decimal_of(PRE_ROLL_MILLIS).as_str());
    text.append("ms pre-roll)");
    text
}

fn plain(text: String) -> (line: Option<ConsoleLine>)
    ensures
        line == Some(ConsoleLine { warning: false, text }),
{
    Some(ConsoleLine { warning: false, text })
}

/// What to print for `status`, which came right after `previous`, if anything.
pub fn console_line(previous: Option<&PipelineStatus>, status: &PipelineStatus) -> (line: Option<
    ConsoleLine,
>)
    ensures
        console_text(
            match previous {
                Some(previous) => Some(previous@),
                None => None,
            },
            status@,
        ) == match line {
            Some(line) => Some((line.warning, line.text@)),
            None => None,
        },
{
    match status {
        PipelineStatus::Ready { .. }
        | PipelineStatus::Transcribing
        | PipelineStatus::Inserted(_) => None,
        PipelineStatus::Recording => plain(announced("Recording...")),
        PipelineStatus::Listening => match previous {
            Some(PipelineStatus::HandsFreeOn) => plain(announced("Listening...")),
            _ => plain("Listening...".to_owned()),
        },
        PipelineStatus::HeardNothing => plain("(heard nothing)".to_owned()),
        PipelineStatus::HandsFreeOn => plain(
            "Hands-free mode: ON (VAD silence commits each utterance)".to_owned(),
        ),
        PipelineStatus::HandsFreeOff => plain("Hands-free mode: OFF".to_owned()),
        PipelineStatus::Warning(message) => {
            let mut text = "warning: ".to_owned();
            text.append(message.as_str());
            Some(ConsoleLine { warning: true, text })
        },
    }
}

/// What the hotkeys, or a button in their place, tell the pipeline.
#[derive(Debug, Clone, Copy, PartialEq, Eq, Structural)]
pub enum ControlEvent {
    PushToTalkPressed,
    PushToTalkReleased,
    /// The press of a toggle: its release is never forwarded.
    HandsFreeTogglePressed,
    /// Whether the cleanup model may be used from the next utterance on.
    SetCleanupEnabled(bool),
    /// Ends the pipeline.
    Quit,
}

pub open spec fn control_of(slot: HotkeySlot, event: HotkeyEvent) -> Option<ControlEvent> {
    match (slot, event) {
        (HotkeySlot::PushToTalk, HotkeyEvent::Pressed) => Some(ControlEvent::PushToTalkPressed),
        (HotkeySlot::PushToTalk, HotkeyEvent::Released) => Some(ControlEvent::PushToTalkReleased),
        (HotkeySlot::HandsFreeToggle, HotkeyEvent::Pressed) => Some(
            ControlEvent::HandsFreeTogglePressed,
        ),
        (HotkeySlot::HandsFreeToggle, HotkeyEvent::Released) => None,
    }
}

/// What a hotkey's transition tells the pipeline.
pub fn control_event(slot: HotkeySlot, event: HotkeyEvent) -> (control: Option<ControlEvent>)
    ensures
        control == control_of(slot, event),
{
    match (slot, event) {
        (HotkeySlot::PushToTalk, HotkeyEvent::Pressed) => Some(ControlEvent::PushToTalkPressed),
        (HotkeySlot::PushToTalk, HotkeyEvent::Released) => Some(ControlEvent::PushToTalkReleased),
        (HotkeySlot::HandsFreeToggle, HotkeyEvent::Pressed) => Some(
            ControlEvent::HandsFreeTogglePressed,
        ),
        (HotkeySlot::HandsFreeToggle, HotkeyEvent::Released) => None,
    }
}

/// How often the watchdog looks at the keys themselves.
pub const PTT_WATCHDOG_INTERVAL_MILLIS: u64 = 150;

/// What the watchdog tells the pipeline: to release push-to-talk when a
/// session is open and the keys are not both held, and nothing otherwise. It
/// never makes up a press.
pub open spec fn watchdog_control(ptt_active: bool, both_keys_down: bool) -> Option<ControlEvent> {
    if ptt_active && !both_keys_down {
        Some(ControlEvent::PushToTalkReleased)
    } else {
        None
    }
}

/// What the watchdog tells the pipeline.
pub fn watchdog_event(ptt_active: bool, both_keys_down: bool) -> (control: Option<ControlEvent>)
    ensures
        control == watchdog_control(ptt_active, both_keys_down),
{
    if ptt_active && !both_keys_down {
        Some(ControlEvent::PushToTalkReleased)
    } else {
        None
    }
}

/// What hotkeys tell the pipeline: both edges of push-to-talk, and only the press
/// of the toggle.
pub proof fn law_what_hotkeys_tell(slot: HotkeySlot, event: HotkeyEvent)
    ensures
        control_of(slot, event) == Some(ControlEvent::PushToTalkPressed) <==> slot
            == HotkeySlot::PushToTalk && event == HotkeyEvent::Pressed,
        control_of(slot, event) == Some(ControlEvent::PushToTalkReleased) <==> slot
            == HotkeySlot::PushToTalk && event == HotkeyEvent::Released,
        control_of(slot, event) == Some(ControlEvent::HandsFreeTogglePressed) <==> slot
            == HotkeySlot::HandsFreeToggle && event == HotkeyEvent::Pressed,
        control_of(slot, event) is None <==> slot == HotkeySlot::HandsFreeToggle && event
            == HotkeyEvent::Released,
{
}

/// The watchdog only ever forces a release, and only of a session whose keys are
/// not both held.
pub proof fn law_the_watchdog_only_releases(ptt_active: bool, both_keys_down: bool)
    ensures
        watchdog_control(ptt_active, both_keys_down) is Some <==> ptt_active && !both_keys_down,
        watchdog_control(ptt_active, both_keys_down) matches Some(control) ==> control
            == ControlEvent::PushToTalkReleased,
{
}

/// What a console shows: a warning whole, after its label, and among the errors;
/// nothing of what is said elsewhere; and the pre-roll of a session that a key
/// began.
pub proof fn law_what_a_console_shows(
    previous: Option<Status>,
    text: Seq<char>,
    mic_name: Seq<char>,
    on: bool,
)
    ensures
        console_text(previous, Status::Warning(text)) == Some((true, "warning: "@ + text)),
        console_text(previous, Status::Inserted(text)) is None,
        console_text(previous, Status::Transcribing) is None,
        console_text(previous, Status::Ready { mic_name, cleanup_enabled: on }) is None,
        console_text(previous, Status::Recording) == Some(
            (false, "Recording..."@ + " (with "@ + seq!['5', '0', '0'] + "ms pre-roll)"@),
        ),
        previous == Some(Status::HandsFreeOn) ==> console_text(previous, Status::Listening) == Some(
            (false, "Listening..."@ + " (with "@ + seq!['5', '0', '0'] + "ms pre-roll)"@),
        ),
        previous != Some(Status::HandsFreeOn) ==> console_text(previous, Status::Listening) == Some(
            (false, "Listening..."@),
        ),
        console_text(previous, Status::HeardNothing) == Some((false, "(heard nothing)"@)),
        console_text(previous, Status::HandsFreeOff) == Some((false, "Hands-free mode: OFF"@)),
        console_text(previous, Status::HandsFreeOn) == Some(
            (false, "Hands-free mode: ON (VAD silence commits each utterance)"@),
        ),
{
    reveal_with_fuel(decimal, 4);
    assert(decimal(500) =~= seq!['5', '0', '0']);
}

/// A status means the same to whoever proves something of it: its text is the
/// text that it holds, and a list of statuses is the list of their meanings.
pub proof fn law_what_a_status_means(
    text: String,
    cleanup_enabled: bool,
    list: Seq<PipelineStatus>,
    i: int,
)
    ensures
        (PipelineStatus::Ready { mic_name: text, cleanup_enabled })@ == (Status::Ready {
            mic_name: text@,
            cleanup_enabled,
        }),
        PipelineStatus::Recording@ == Status::Recording,
        PipelineStatus::Listening@ == Status::Listening,
        PipelineStatus::Transcribing@ == Status::Transcribing,
        PipelineStatus::Inserted(text)@ == Status::Inserted(text@),
        PipelineStatus::HeardNothing@ == Status::HeardNothing,
        PipelineStatus::HandsFreeOn@ == Status::HandsFreeOn,
        PipelineStatus::HandsFreeOff@ == Status::HandsFreeOff,
        PipelineStatus::Warning(text)@ == Status::Warning(text@),
        statuses(list).len() == list.len(),
        0 <= i < list.len() ==> statuses(list)[i] == list[i]@,
{
}

/// The watchdog looks often enough that a lost release is not felt.
pub proof fn law_how_often_the_watchdog_looks()
    ensures
        PTT_WATCHDOG_INTERVAL_MILLIS == 150,
{
}

} // verus!
