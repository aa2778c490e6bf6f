//! Hotkey detection: a two-key chord for push-to-talk, a single key that
//! toggles hands-free, and which of the two an input event belongs to.
//!
//! A held key repeats its press over and over. Only the transitions count.

use vstd::prelude::*;

use crate::key::{down_after, EventType, HotkeyKey};

verus! {

#[derive(Debug, Clone, Copy, PartialEq, Eq, Structural)]
pub enum HotkeyEvent {
    /// The hotkey went from up to down.
    Pressed,
    /// The hotkey went from down to up.
    Released,
}

/// What there is to report when a hotkey that was `before` is `after`.
pub open spec fn transition(before: bool, after: bool) -> Option<HotkeyEvent> {
    if after && !before {
        Some(HotkeyEvent::Pressed)
    } else if before && !after {
        Some(HotkeyEvent::Released)
    } else {
        None
    }
}

/// Tracks whether one key is held.
pub struct EdgeDetector {
    key: HotkeyKey,
    is_down: bool,
}

impl EdgeDetector {
    pub closed spec fn watched(self) -> HotkeyKey {
        self.key
    }

    pub closed spec fn down(self) -> bool {
        self.is_down
    }

    pub fn new(key: HotkeyKey) -> (detector: Self)
        ensures
            detector.watched() == key,
            !detector.down(),
    {
        EdgeDetector { key, is_down: false }
    }

    /// Takes in a raw input event. Reports transitions of the key only: not a
    /// repeated press, a release while up, or any other event.
    pub fn handle(&mut self, event_type: &EventType) -> (event: Option<HotkeyEvent>)
        ensures
            final(self).watched() == old(self).watched(),
            final(self).down() == down_after(old(self).watched(), old(self).down(), *event_type),
            event == transition(old(self).down(), final(self).down()),
    {
        match event_type {
            EventType::KeyPress(k) => if *k == self.key && !self.is_down {
                self.is_down = true;
                Some(HotkeyEvent::Pressed)
            } else {
                None
            },
            EventType::KeyRelease(k) => if *k == self.key && self.is_down {
                self.is_down = false;
                Some(HotkeyEvent::Released)
            } else {
                None
            },
            EventType::Other => None,
        }
    }

    pub fn is_down(&self) -> (down: bool)
        ensures
            down == self.down(),
    {
        self.is_down
    }
}

/// Tracks two keys and reports their chord: both down is one state, which
/// begins when the second key goes down and ends when either comes up.
pub struct ChordDetector {
    key_a: HotkeyKey,
    key_b: HotkeyKey,
    a_down: bool,
    b_down: bool,
    chord_down: bool,
}

/// What a chord detector knows.
pub ghost struct Chord {
    pub key_a: HotkeyKey,
    pub key_b: HotkeyKey,
    pub a_down: bool,
    pub b_down: bool,
}

impl Chord {
    pub open spec fn down(self) -> bool {
        self.a_down && self.b_down
    }

    /// One event further. An event of a key that stands in both places counts
    /// for the first.
    pub open spec fn after(self, event: EventType) -> Chord {
        Chord {
            a_down: down_after(self.key_a, self.a_down, event),
            b_down: if self.key_a == self.key_b {
                self.b_down
            } else {
                down_after(self.key_b, self.b_down, event)
            },
            ..self
        }
    }
}

impl View for ChordDetector {
    type V = Chord;

    closed spec fn view(&self) -> Chord {
        Chord { key_a: self.key_a, key_b: self.key_b, a_down: self.a_down, b_down: self.b_down }
    }
}

impl ChordDetector {
    /// The chord is taken to be down exactly while both keys are.
    pub closed spec fn wf(self) -> bool {
        self.chord_down == self@.down()
    }

    pub fn new(key_a: HotkeyKey, key_b: HotkeyKey) -> (detector: Self)
        ensures
            detector.wf(),
            detector@ == (Chord { key_a, key_b, a_down: false, b_down: false }),
    {
        ChordDetector { key_a, key_b, a_down: false, b_down: false, chord_down: false }
    }

    /// Takes in a raw input event. Reports transitions of the chord only.
    pub fn handle(&mut self, event_type: &EventType) -> (event: Option<HotkeyEvent>)
        requires
            old(self).wf(),
        ensures
            final(self).wf(),
            final(self)@ == old(self)@.after(*event_type),
            event == transition(old(self)@.down(), final(self)@.down()),
    {
        match event_type {
            EventType::KeyPress(k) => if *k == self.key_a {
                self.a_down = true;
            } else if *k == self.key_b {
                self.b_down = true;
            } else {
                return None;
            },
            EventType::KeyRelease(k) => if *k == self.key_a {
                self.a_down = false;
            } else if *k == self.key_b {
                self.b_down = false;
            } else {
                return None;
            },
            EventType::Other => {
                return None;
            },
        }
        let both_down = self.a_down && self.b_down;
        if both_down && !self.chord_down {
            self.chord_down = true;
            Some(HotkeyEvent::Pressed)
        } else if !both_down && self.chord_down {
            self.chord_down = false;
            Some(HotkeyEvent::Released)
        } else {
            None
        }
    }

    pub fn is_down(&self) -> (down: bool)
        requires
            self.wf(),
        ensures
            down == self@.down(),
    {
        self.chord_down
    }
}

#[derive(Debug, Clone, Copy, PartialEq, Eq, Structural)]
pub enum HotkeySlot {
    PushToTalk,
    HandsFreeToggle,
}

#[derive(Debug, Clone, Copy)]
pub struct MultiHotkeyConfig {
    /// Both keys must be held together for push-to-talk: a chord is not
    /// tripped by accident, as a single modifier would be.
    pub push_to_talk_keys: (HotkeyKey, HotkeyKey),
    pub hands_free_toggle_key: HotkeyKey,
}

impl Default for MultiHotkeyConfig {
    /// Left Ctrl + Left Shift for push-to-talk, AltGr to toggle hands-free.
    fn default() -> (config: Self)
        ensures
            config.push_to_talk_keys == (HotkeyKey::ControlLeft, HotkeyKey::ShiftLeft),
            config.hands_free_toggle_key == HotkeyKey::AltGr,
    {
        MultiHotkeyConfig {
            push_to_talk_keys: (HotkeyKey::ControlLeft, HotkeyKey::ShiftLeft),
            hands_free_toggle_key: HotkeyKey::AltGr,
        }
    }
}

/// Hands one raw input event to both detectors and reports which slot, if
/// either, had a transition. Both take it in, also where the chord and the
/// toggle share a key; where both have a transition, the chord's is reported.
pub fn route(
    ptt: &mut ChordDetector,
    hands_free: &mut EdgeDetector,
    event_type: &EventType,
) -> (routed: Option<(HotkeySlot, HotkeyEvent)>)
    requires
        old(ptt).wf(),
    ensures
        final(ptt).wf(),
        final(ptt)@ == old(ptt)@.after(*event_type),
        final(hands_free).watched() == old(hands_free).watched(),
        final(hands_free).down() == down_after(
            old(hands_free).watched(),
            old(hands_free).down(),
            *event_type,
        ),
        routed == match transition(old(ptt)@.down(), final(ptt)@.down()) {
            Some(event) => Some((HotkeySlot::PushToTalk, event)),
            None => match transition(old(hands_free).down(), final(hands_free).down()) {
                Some(event) => Some((HotkeySlot::HandsFreeToggle, event)),
                None => None,
            },
        },
{
    let chord = ptt.handle(event_type);
    let toggle = hands_free.handle(event_type);
    match (chord, toggle) {
        (Some(event), _) => Some((HotkeySlot::PushToTalk, event)),
        (None, Some(event)) => Some((HotkeySlot::HandsFreeToggle, event)),
        (None, None) => None,
    }
}

/// The two detectors of a configuration, before any event.
pub fn detectors(config: &MultiHotkeyConfig) -> (detectors: (ChordDetector, EdgeDetector))
    ensures
        detectors.0.wf(),
        detectors.0@ == (Chord {
            key_a: config.push_to_talk_keys.0,
            key_b: config.push_to_talk_keys.1,
            a_down: false,
            b_down: false,
        }),
        detectors.1.watched() == config.hands_free_toggle_key,
        !detectors.1.down(),
{
    (
        ChordDetector::new(config.push_to_talk_keys.0, config.push_to_talk_keys.1),
        EdgeDetector::new(config.hands_free_toggle_key),
    )
}

/// Presses and releases take turns: where a hotkey is down or up from moment
/// to moment as `signal` says, of two reports with none between them one is a
/// press and the other a release.
pub proof fn law_reports_take_turns(signal: Seq<bool>, first: int, second: int)
    requires
        0 <= first < second < signal.len() - 1,
        transition(signal[first], signal[first + 1]) is Some,
        transition(signal[second], signal[second + 1]) is Some,
        forall|k: int|
            first < k < second ==> transition(#[trigger] signal[k], signal[k + 1]) is None,
    ensures
        transition(signal[first], signal[first + 1]) != transition(
            signal[second],
            signal[second + 1],
        ),
{
    lemma_signal_stays(signal, first + 1, second);
}

proof fn lemma_signal_stays(signal: Seq<bool>, from: int, to: int)
    requires
        0 <= from <= to < signal.len(),
        forall|k: int| from <= k < to ==> transition(#[trigger] signal[k], signal[k + 1]) is None,
    ensures
        signal[from] == signal[to],
    decreases to - from,
{
    if from < to {
        lemma_signal_stays(signal, from, to - 1);
        assert(transition(signal[to - 1], signal[to - 1 + 1]) is None);
    }
}

/// Key repeat is silent: the same event again changes nothing, for one key as
/// for a chord.
pub proof fn law_repeats_are_silent(key: HotkeyKey, down: bool, chord: Chord, event: EventType)
    ensures
        down_after(key, down_after(key, down, event), event) == down_after(key, down, event),
        chord.after(event).after(event) == chord.after(event),
        transition(chord.after(event).down(), chord.after(event).after(event).down()) is None,
{
}

/// An event of another key, or of none, changes nothing and is not reported.
pub proof fn law_other_keys_are_ignored(chord: Chord, key: HotkeyKey)
    requires
        key != chord.key_a,
        key != chord.key_b,
    ensures
        chord.after(EventType::KeyPress(key)) == chord,
        chord.after(EventType::KeyRelease(key)) == chord,
        chord.after(EventType::Other) == chord,
{
}

/// However it is pressed, a chord of two keys is down exactly after both have
/// been pressed, and up as soon as either is released.
pub proof fn law_a_chord_takes_both_keys(chord: Chord)
    requires
        chord.key_a != chord.key_b,
    ensures
        chord.after(EventType::KeyPress(chord.key_a)).after(
            EventType::KeyPress(chord.key_b),
        ).down(),
        chord.after(EventType::KeyPress(chord.key_b)).after(
            EventType::KeyPress(chord.key_a),
        ).down(),
        !chord.b_down ==> !chord.after(EventType::KeyPress(chord.key_a)).down(),
        !chord.a_down ==> !chord.after(EventType::KeyPress(chord.key_b)).down(),
        !chord.after(EventType::KeyRelease(chord.key_a)).down(),
        !chord.after(EventType::KeyRelease(chord.key_b)).down(),
{
}

/// What is reported: a press where a hotkey that was up is down, a release where
/// one that was down is up, and nothing where it stayed.
pub proof fn law_what_is_reported(before: bool, after: bool)
    ensures
        transition(before, after) == Some(HotkeyEvent::Pressed) <==> !before && after,
        transition(before, after) == Some(HotkeyEvent::Released) <==> before && !after,
        transition(before, after) is None <==> before == after,
{
}

/// Which key is down: after its press it is, after its release it is not, and
/// any other event leaves it as it was.
pub proof fn law_which_key_is_down(key: HotkeyKey, other: HotkeyKey, down: bool)
    ensures
        down_after(key, down, EventType::KeyPress(key)),
        !down_after(key, down, EventType::KeyRelease(key)),
        other != key ==> down_after(key, down, EventType::KeyPress(other)) == down,
        other != key ==> down_after(key, down, EventType::KeyRelease(other)) == down,
        down_after(key, down, EventType::Other) == down,
{
}

/// A chord is down while both keys are, and an event moves each of its keys on
/// its own.
pub proof fn law_a_chord_is_its_two_keys(chord: Chord, event: EventType)
    ensures
        chord.down() <==> chord.a_down && chord.b_down,
        chord.after(event).key_a == chord.key_a,
        chord.after(event).key_b == chord.key_b,
        chord.after(event).a_down == down_after(chord.key_a, chord.a_down, event),
        chord.key_a != chord.key_b ==> chord.after(event).b_down == down_after(
            chord.key_b,
            chord.b_down,
            event,
        ),
        chord.key_a == chord.key_b ==> chord.after(event).b_down == chord.b_down,
{
}

} // verus!
