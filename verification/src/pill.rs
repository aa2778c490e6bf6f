//! What the floating pill shows, and what its menu does.

use vstd::prelude::*;

use crate::chars::{chars_of, text_of};
use crate::hotkey::MultiHotkeyConfig;
use crate::icon::{LAVENDER, MUSTARD, RUST, SAGE, TERRACOTTA};
use crate::key::{key_name, name_of};
use crate::status::{ControlEvent, PipelineStatus, Status};

verus! {

/// How long an insertion or a warning stays visible.
pub const FLASH_MILLIS: u64 = 1800;

/// How often the pill looks for news.
pub const REPAINT_MILLIS: u64 = 100;

/// How often it is redrawn while its bars move.
pub const ANIMATION_REPAINT_MILLIS: u64 = 50;

/// The longest text that the pill shows whole.
pub const LABEL_CHARS: usize = 60;

/// What stands for the rest of a text.
pub const ELLIPSIS: char = '\u{2026}';

enum Display {
    Hidden,
    Recording,
    Listening,
    Transcribing,
    Inserted { text: String, shown_at: u64 },
    Warning { text: String, shown_at: u64 },
}

/// What a pill shows.
pub ghost enum Shown {
    Hidden,
    Recording,
    Listening,
    Transcribing,
    Inserted { text: Seq<char>, since: int },
    Warning { text: Seq<char>, since: int },
}

impl View for Display {
    type V = Shown;

    closed spec fn view(&self) -> Shown {
        match *self {
            Display::Hidden => Shown::Hidden,
            Display::Recording => Shown::Recording,
            Display::Listening => Shown::Listening,
            Display::Transcribing => Shown::Transcribing,
            Display::Inserted { text, shown_at } => Shown::Inserted {
                text: text@,
                since: shown_at as int,
            },
            Display::Warning { text, shown_at } => Shown::Warning {
                text: text@,
                since: shown_at as int,
            },
        }
    }
}

/// The pill, without its window. Times are milliseconds on a clock that does
/// not go back.
pub struct Pill {
    display: Display,
    hands_free_on: bool,
    cleanup_model_loaded: bool,
    cleanup_enabled: bool,
    show_settings: bool,
}

pub ghost struct PillState {
    pub shown: Shown,
    pub hands_free: bool,
    pub cleanup_loaded: bool,
    pub cleanup_on: bool,
    pub settings: bool,
}

impl View for Pill {
    type V = PillState;

    closed spec fn view(&self) -> PillState {
        PillState {
            shown: self.display@,
            hands_free: self.hands_free_on,
            cleanup_loaded: self.cleanup_model_loaded,
            cleanup_on: self.cleanup_enabled,
            settings: self.show_settings,
        }
    }
}

/// A pill that is told of `status` at `now`.
pub open spec fn told(pill: PillState, status: Status, now: int) -> PillState {
    match status {
        Status::Ready { cleanup_enabled, .. } => PillState {
            cleanup_loaded: cleanup_enabled,
            cleanup_on: cleanup_enabled,
            shown: Shown::Hidden,
            ..pill
        },
        Status::Recording => PillState { shown: Shown::Recording, ..pill },
        Status::Listening => PillState { shown: Shown::Listening, ..pill },
        Status::Transcribing => PillState { shown: Shown::Transcribing, ..pill },
        Status::Inserted(text) => PillState { shown: Shown::Inserted { text, since: now }, ..pill },
        Status::HeardNothing => PillState { shown: Shown::Hidden, ..pill },
        Status::HandsFreeOn => PillState { hands_free: true, ..pill },
        Status::HandsFreeOff => PillState { hands_free: false, shown: Shown::Hidden, ..pill },
        Status::Warning(text) => PillState { shown: Shown::Warning { text, since: now }, ..pill },
    }
}

/// Since when a pill has shown something that passes.
pub open spec fn flashing_since(shown: Shown) -> Option<int> {
    match shown {
        Shown::Inserted { since, .. } => Some(since),
        Shown::Warning { since, .. } => Some(since),
        _ => None,
    }
}

/// A pill at `now`: what passes has passed after a while, and gives way to
/// listening, where hands-free is on, or to nothing.
pub open spec fn expired(pill: PillState, now: int) -> PillState {
    match flashing_since(pill.shown) {
        Some(since) => if now - since >= FLASH_MILLIS {
            PillState {
                shown: if pill.hands_free {
                    Shown::Listening
                } else {
                    Shown::Hidden
                },
                ..pill
            }
        } else {
            pill
        },
        None => pill,
    }
}

/// `s`, or its beginning and an ellipsis where it is longer than `max`.
pub open spec fn shortened(s: Seq<char>, max: int) -> Seq<char> {
    if s.len() <= max {
        s
    } else if max <= 0 {
        seq![ELLIPSIS]
    } else {
        s.take(max - 1).push(ELLIPSIS)
    }
}

/// `s`, cut to `max_chars` characters with an ellipsis for the last.
pub fn truncate(s: &str, max_chars: usize) -> (out: String)
    ensures
        out@ == shortened(s@, max_chars as int),
        max_chars > 0 ==> out@.len() <= max_chars,
{
    let cs = chars_of(s);
    if cs.len() <= max_chars {
        return s.to_owned();
    }
    let kept: usize = if max_chars > 0 {
        max_chars - 1
    } else {
        0
    };
    let mut out = text_of(&cs, 0, kept);
    out.push(ELLIPSIS);
    proof {
        assert(out@ =~= shortened(s@, max_chars as int));
    }
    out
}

/// How a visible pill looks.
pub struct Face {
    pub color: [u8; 4],
    pub label: String,
    /// Whether the level bars move.
    pub animate: bool,
}

/// What a pill says while the microphone is in use, whichever key is behind it.
pub open spec fn listening_label() -> Seq<char> {
    "Listening\u{2026}"@
}

pub open spec fn cleaning_label() -> Seq<char> {
    "Cleaning up\u{2026}"@
}

/// The colour, the label and the motion of what is shown.
pub open spec fn face_of(shown: Shown) -> Option<([u8; 4], Seq<char>, bool)> {
    match shown {
        Shown::Hidden => None,
        Shown::Recording => Some((TERRACOTTA, listening_label(), true)),
        Shown::Listening => Some((LAVENDER, listening_label(), true)),
        Shown::Transcribing => Some((MUSTARD, cleaning_label(), false)),
        Shown::Inserted { text, .. } => Some((SAGE, shortened(text, LABEL_CHARS as int), false)),
        Shown::Warning { text, .. } => Some((RUST, shortened(text, LABEL_CHARS as int), false)),
    }
}

/// What the tray's menu offers.
#[derive(Debug, Clone, Copy, PartialEq, Eq, Structural)]
pub enum MenuChoice {
    HandsFree,
    Settings,
    Quit,
}

impl Pill {
    /// A hidden pill.
    pub fn new() -> (pill: Self)
        ensures
            pill@ == (PillState {
                shown: Shown::Hidden,
                hands_free: false,
                cleanup_loaded: false,
                cleanup_on: false,
                settings: false,
            }),
    {
        Pill {
            display: Display::Hidden,
            hands_free_on: false,
            cleanup_model_loaded: false,
            cleanup_enabled: false,
            show_settings: false,
        }
    }

    /// Takes in a status at `now`.
    pub fn apply_status(&mut self, status: PipelineStatus, now: u64)
        ensures
            final(self)@ == told(old(self)@, status@, now as int),
    {
        match status {
            PipelineStatus::Ready { cleanup_enabled, .. } => {
                self.cleanup_model_loaded = cleanup_enabled;
                self.cleanup_enabled = cleanup_enabled;
                self.display = Display::Hidden;
            },
            PipelineStatus::Recording => {
                self.display = Display::Recording;
            },
            PipelineStatus::Listening => {
                self.display = Display::Listening;
            },
            PipelineStatus::Transcribing => {
                self.display = Display::Transcribing;
            },
            PipelineStatus::Inserted(text) => {
                self.display = Display::Inserted { text, shown_at: now };
            },
            PipelineStatus::HeardNothing => {
                self.display = Display::Hidden;
            },
            PipelineStatus::HandsFreeOn => {
                self.hands_free_on = true;
            },
            PipelineStatus::HandsFreeOff => {
                self.hands_free_on = false;
                self.display = Display::Hidden;
            },
            PipelineStatus::Warning(text) => {
                self.display = Display::Warning { text, shown_at: now };
            },
        }
    }

    /// Hides what has been shown for long enough.
    pub fn expire_flash(&mut self, now: u64)
        ensures
            final(self)@ == expired(old(self)@, now as int),
    {
        let over = match &self.display {
            Display::Inserted { shown_at, .. } => now >= *shown_at && now - *shown_at
                >= FLASH_MILLIS,
            Display::Warning { shown_at, .. } => now >= *shown_at && now - *shown_at
                >= FLASH_MILLIS,
            _ => false,
        };
        if over {
            self.display =
            if self.hands_free_on {
                Display::Listening
            } else {
                Display::Hidden
            };
        }
    }

    /// How the pill looks, or `None` while it is hidden.
    pub fn face(&self) -> (face: Option<Face>)
        ensures
            face is Some == face_of(self@.shown) is Some,
            face matches Some(face) ==> face_of(self@.shown) == Some(
                (face.color, face.label@, face.animate),
            ),
    {
        match &self.display {
            Display::Hidden => None,
            Display::Recording => Some(
                Face {
                    color: TERRACOTTA,
                    label: "Listening\u{2026}".to_owned(),
                    animate: true,
                },
            ),
            Display::Listening => Some(
                Face {
                    color: LAVENDER,
                    label: "Listening\u{2026}".to_owned(),
                    animate: true,
                },
            ),
            Display::Transcribing => Some(
                Face {
                    color: MUSTARD,
                    label: "Cleaning up\u{2026}".to_owned(),
                    animate: false,
                },
            ),
            Display::Inserted { text, .. } => Some(
                Face { color: SAGE, label: truncate(text.as_str(), LABEL_CHARS), animate: false },
            ),
            Display::Warning { text, .. } => Some(
                Face { color: RUST, label: truncate(text.as_str(), LABEL_CHARS), animate: false },
            ),
        }
    }

    /// Takes in a choice from the menu. Settings are shown; the others are what
    /// the pipeline is to be told, as a hotkey would.
    pub fn on_menu(&mut self, choice: MenuChoice) -> (control: Option<ControlEvent>)
        ensures
            final(self)@ == (PillState {
                settings: old(self)@.settings || choice == MenuChoice::Settings,
                ..old(self)@
            }),
            control == match choice {
                MenuChoice::HandsFree => Some(ControlEvent::HandsFreeTogglePressed),
                MenuChoice::Settings => None,
                MenuChoice::Quit => Some(ControlEvent::Quit),
            },
    {
        match choice {
            MenuChoice::HandsFree => Some(ControlEvent::HandsFreeTogglePressed),
            MenuChoice::Settings => {
                self.show_settings = true;
                None
            },
            MenuChoice::Quit => Some(ControlEvent::Quit),
        }
    }

    pub fn settings_shown(&self) -> (shown: bool)
        ensures
            shown == self@.settings,
    {
        self.show_settings
    }

    pub fn close_settings(&mut self)
        ensures
            final(self)@ == (PillState { settings: false, ..old(self)@ }),
    {
        self.show_settings = false;
    }

    /// Whether there is a cleanup model to switch on or off.
    pub fn cleanup_switchable(&self) -> (switchable: bool)
        ensures
            switchable == self@.cleanup_loaded,
    {
        self.cleanup_model_loaded
    }

    pub fn cleanup_enabled(&self) -> (enabled: bool)
        ensures
            enabled == self@.cleanup_on,
    {
        self.cleanup_enabled
    }

    /// Takes in that the settings' box for cleanup was ticked or cleared.
    pub fn set_cleanup_enabled(&mut self, enabled: bool) -> (control: ControlEvent)
        ensures
            final(self)@ == (PillState { cleanup_on: enabled, ..old(self)@ }),
            control == ControlEvent::SetCleanupEnabled(enabled),
    {
        self.cleanup_enabled = enabled;
        ControlEvent::SetCleanupEnabled(enabled)
    }
}

/// What the settings say of the microphone and of the keys.
pub struct SettingsLabels {
    pub microphone: String,
    pub push_to_talk: String,
    pub hands_free: String,
}

/// What the settings say of the microphone called `mic_name` and of `hotkeys`.
pub fn settings_labels(mic_name: &str, hotkeys: &MultiHotkeyConfig) -> (labels: SettingsLabels)
    ensures
        labels.microphone@ == "Microphone: "@ + mic_name@,
        labels.push_to_talk@ == "Push-to-talk: hold "@ + name_of(hotkeys.push_to_talk_keys.0)
            + " + "@ + name_of(hotkeys.push_to_talk_keys.1),
        labels.hands_free@ == "Hands-free: tap "@ + name_of(hotkeys.hands_free_toggle_key)
            + " to toggle"@,
{
    let mut microphone = "Microphone: ".to_owned();
    microphone.append(mic_name);
    let mut push_to_talk = "Push-to-talk: hold ".to_owned();
    push_to_talk.append(key_name(hotkeys.push_to_talk_keys.0).as_str());
    push_to_talk.append(" + ");
    push_to_talk.append(key_name(hotkeys.push_to_talk_keys.1).as_str());
    let mut hands_free = "Hands-free: tap ".to_owned();
    hands_free.append(key_name(hotkeys.hands_free_toggle_key).as_str());
    hands_free.append(" to toggle");
    SettingsLabels { microphone, push_to_talk, hands_free }
}

/// When to draw next: sooner while the bars move.
pub fn repaint_millis(animate: bool) -> (millis: u64)
    ensures
        millis == if animate {
            ANIMATION_REPAINT_MILLIS
        } else {
            REPAINT_MILLIS
        },
{
    if animate {
        ANIMATION_REPAINT_MILLIS
    } else {
        REPAINT_MILLIS
    }
}

/// Where the microphone is in use the pill is visible and says so, with moving
/// bars, in a colour that tells a held key from hands-free.
pub proof fn law_a_live_microphone_shows(pill: PillState, now: int)
    ensures
        face_of(told(pill, Status::Recording, now).shown) matches Some((color, label, animate))
            && color == TERRACOTTA && label == listening_label() && animate,
        face_of(told(pill, Status::Listening, now).shown) matches Some((color, label, animate))
            && color == LAVENDER && label == listening_label() && animate,
        TERRACOTTA != LAVENDER,
{
    assert(TERRACOTTA@[0] != LAVENDER@[0]);
}

/// An insertion or a warning is shown for a while, and then the pill goes back
/// to listening or hides.
pub proof fn law_a_flash_passes(pill: PillState, text: Seq<char>, now: int, later: int)
    requires
        now <= later,
    ensures
        ({
            let flashed = told(pill, Status::Inserted(text), now);
            &&& later < now + FLASH_MILLIS ==> expired(flashed, later) == flashed
            &&& later >= now + FLASH_MILLIS ==> expired(flashed, later).shown
                == if pill.hands_free {
                Shown::Listening
            } else {
                Shown::Hidden
            }
        }),
        ({
            let warned = told(pill, Status::Warning(text), now);
            &&& later < now + FLASH_MILLIS ==> expired(warned, later) == warned
            &&& later >= now + FLASH_MILLIS ==> expired(warned, later).shown
                == if pill.hands_free {
                Shown::Listening
            } else {
                Shown::Hidden
            }
        }),
{
}

/// What of a text is shown: all of it where it is short enough, and otherwise
/// its beginning with an ellipsis for the rest, as long as may be.
pub proof fn law_what_of_a_text_is_shown(s: Seq<char>, max: int)
    requires
        0 < max,
    ensures
        s.len() <= max ==> shortened(s, max) == s,
        s.len() > max ==> {
            let out = shortened(s, max);
            &&& out.len() == max
            &&& out[max - 1] == '\u{2026}'
            &&& forall|i: int| 0 <= i < max - 1 ==> #[trigger] out[i] == s[i]
        },
{
}

/// What a status changes of a pill: what it shows, and of a report that it is
/// ready or that hands-free goes on or off, what that says.
pub proof fn law_what_a_status_changes(
    pill: PillState,
    text: Seq<char>,
    mic_name: Seq<char>,
    on: bool,
    now: int,
)
    ensures
        told(pill, Status::Ready { mic_name, cleanup_enabled: on }, now) == (PillState {
            shown: Shown::Hidden,
            cleanup_loaded: on,
            cleanup_on: on,
            ..pill
        }),
        told(pill, Status::Recording, now) == (PillState { shown: Shown::Recording, ..pill }),
        told(pill, Status::Listening, now) == (PillState { shown: Shown::Listening, ..pill }),
        told(pill, Status::Transcribing, now) == (PillState { shown: Shown::Transcribing, ..pill }),
        told(pill, Status::Inserted(text), now) == (PillState {
            shown: Shown::Inserted { text, since: now },
            ..pill
        }),
        told(pill, Status::Warning(text), now) == (PillState {
            shown: Shown::Warning { text, since: now },
            ..pill
        }),
        told(pill, Status::HeardNothing, now) == (PillState { shown: Shown::Hidden, ..pill }),
        told(pill, Status::HandsFreeOn, now) == (PillState { hands_free: true, ..pill }),
        told(pill, Status::HandsFreeOff, now) == (PillState {
            hands_free: false,
            shown: Shown::Hidden,
            ..pill
        }),
{
}

/// What time changes of a pill: nothing but an insertion or a warning that has
/// been shown for 1.8 s, and of that only what is shown.
pub proof fn law_what_time_changes(pill: PillState, now: int)
    ensures
        !(pill.shown is Inserted) && !(pill.shown is Warning) ==> expired(pill, now) == pill,
        pill.shown is Inserted ==> expired(pill, now) == if now - pill.shown->Inserted_since < 1800 {
            pill
        } else {
            PillState {
                shown: if pill.hands_free {
                    Shown::Listening
                } else {
                    Shown::Hidden
                },
                ..pill
            }
        },
        pill.shown is Warning ==> expired(pill, now) == if now - pill.shown->Warning_since < 1800 {
            pill
        } else {
            PillState {
                shown: if pill.hands_free {
                    Shown::Listening
                } else {
                    Shown::Hidden
                },
                ..pill
            }
        },
{
}

/// How a pill looks: a text that was inserted or warned of stands on it, the bars
/// move while the microphone is listened to, and a hidden pill looks like
/// nothing.
pub proof fn law_how_a_pill_looks(text: Seq<char>, since: int)
    ensures
        face_of(Shown::Hidden) is None,
        face_of(Shown::Recording) == Some((TERRACOTTA, "Listening\u{2026}"@, true)),
        face_of(Shown::Listening) == Some((LAVENDER, "Listening\u{2026}"@, true)),
        face_of(Shown::Transcribing) == Some((MUSTARD, "Cleaning up\u{2026}"@, false)),
        face_of(Shown::Inserted { text, since }) == Some((SAGE, shortened(text, 60), false)),
        face_of(Shown::Warning { text, since }) == Some((RUST, shortened(text, 60), false)),
{
}

} // verus!
