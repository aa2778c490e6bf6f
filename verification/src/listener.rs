//! The hotkey listener: from raw input events to what the pipeline is told.
//!
//! An insertion presses and releases keys of its own. While one is under way
//! the listener hears nothing, so those are not taken for the user's. The price
//! is that a key which the user lets go meanwhile counts as held until it comes
//! up again.

use vstd::prelude::*;

use crate::hotkey::{
    detectors, route, transition, Chord, ChordDetector, EdgeDetector, HotkeyEvent, HotkeySlot,
    MultiHotkeyConfig,
};
use crate::key::{down_after, EventType, HotkeyKey};
use crate::status::{control_event, control_of, ControlEvent};

verus! {

/// Both hotkeys, and which keys of theirs are held.
pub struct HotkeyListener {
    ptt: ChordDetector,
    hands_free: EdgeDetector,
}

/// What a listener knows.
pub ghost struct Heard {
    pub chord: Chord,
    pub toggle_key: HotkeyKey,
    pub toggle_down: bool,
}

impl Heard {
    /// Which hotkey, if either, goes down or up with `event`. Where both do,
    /// it is the chord.
    pub open spec fn routed(self, event: EventType) -> Option<(HotkeySlot, HotkeyEvent)> {
        let toggle = down_after(self.toggle_key, self.toggle_down, event);
        match transition(self.chord.down(), self.chord.after(event).down()) {
            Some(reported) => Some((HotkeySlot::PushToTalk, reported)),
            None => match transition(self.toggle_down, toggle) {
                Some(reported) => Some((HotkeySlot::HandsFreeToggle, reported)),
                None => None,
            },
        }
    }

    /// One event further. An event during an insertion is not heard.
    pub open spec fn after(self, event: EventType, inserting: bool) -> Heard {
        if inserting {
            self
        } else {
            Heard {
                chord: self.chord.after(event),
                toggle_down: down_after(self.toggle_key, self.toggle_down, event),
                ..self
            }
        }
    }

    /// What the pipeline is told on `event`: nothing during an insertion.
    pub open spec fn told(self, event: EventType, inserting: bool) -> Option<ControlEvent> {
        if inserting {
            None
        } else {
            match self.routed(event) {
                Some((slot, reported)) => control_of(slot, reported),
                None => None,
            }
        }
    }

    /// After all of `input`: events, each with whether an insertion was under
    /// way.
    pub open spec fn after_all(self, input: Seq<(EventType, bool)>) -> Heard
        decreases input.len(),
    {
        if input.len() == 0 {
            self
        } else {
            self.after_all(input.drop_last()).after(input.last().0, input.last().1)
        }
    }

    /// All that the pipeline is told on `input`.
    pub open spec fn told_all(self, input: Seq<(EventType, bool)>) -> Seq<ControlEvent>
        decreases input.len(),
    {
        if input.len() == 0 {
            seq![]
        } else {
            let before = self.told_all(input.drop_last());
            match self.after_all(input.drop_last()).told(input.last().0, input.last().1) {
                Some(control) => before.push(control),
                None => before,
            }
        }
    }
}

impl View for HotkeyListener {
    type V = Heard;

    closed spec fn view(&self) -> Heard {
        Heard {
            chord: self.ptt@,
            toggle_key: self.hands_free.watched(),
            toggle_down: self.hands_free.down(),
        }
    }
}

impl HotkeyListener {
    pub closed spec fn wf(self) -> bool {
        self.ptt.wf()
    }

    /// A listener that has heard nothing yet.
    pub fn new(config: &MultiHotkeyConfig) -> (listener: Self)
        ensures
            listener.wf(),
            listener@ == (Heard {
                chord: Chord {
                    key_a: config.push_to_talk_keys.0,
                    key_b: config.push_to_talk_keys.1,
                    a_down: false,
                    b_down: false,
                },
                toggle_key: config.hands_free_toggle_key,
                toggle_down: false,
            }),
    {
        let (ptt, hands_free) = detectors(config);
        HotkeyListener { ptt, hands_free }
    }

    /// Takes in a raw input event, which came while an insertion was under way
    /// or not, and says what to tell the pipeline.
    pub fn handle(&mut self, event_type: &EventType, inserting: bool) -> (control: Option<
        ControlEvent,
    >)
        requires
            old(self).wf(),
        ensures
            final(self).wf(),
            final(self)@ == old(self)@.after(*event_type, inserting),
            control == old(self)@.told(*event_type, inserting),
            inserting ==> control is None,
    {
        if inserting {
            return None;
        }
        match route(&mut self.ptt, &mut self.hands_free, event_type) {
            Some((slot, reported)) => control_event(slot, reported),
            None => None,
        }
    }
}

proof fn lemma_one_after_another(
    heard: Heard,
    first: Seq<(EventType, bool)>,
    second: Seq<(EventType, bool)>,
)
    ensures
        heard.after_all(first + second) == heard.after_all(first).after_all(second),
        heard.told_all(first + second) == heard.told_all(first) + heard.after_all(first).told_all(
            second,
        ),
    decreases second.len(),
{
    if second.len() == 0 {
        assert(first + second =~= first);
        assert(heard.told_all(first) + seq![] =~= heard.told_all(first));
    } else {
        let rest = second.drop_last();
        lemma_one_after_another(heard, first, rest);
        assert((first + second).drop_last() =~= first + rest);
        assert((first + second).last() == second.last());
        let between = heard.after_all(first);
        assert(heard.told_all(first + second) =~= heard.told_all(first) + between.told_all(second));
    }
}

/// While an insertion is under way no hotkey event becomes a control event, and
/// the listener knows after it what it knew before.
pub proof fn law_nothing_is_heard_during_an_insertion(
    heard: Heard,
    during: Seq<(EventType, bool)>,
)
    requires
        forall|i: int| 0 <= i < during.len() ==> (#[trigger] during[i]).1,
    ensures
        heard.told_all(during).len() == 0,
        heard.after_all(during) == heard,
    decreases during.len(),
{
    if during.len() > 0 {
        let rest = during.drop_last();
        assert forall|i: int| 0 <= i < rest.len() implies (#[trigger] rest[i]).1 by {
            assert(rest[i] == during[i]);
        }
        law_nothing_is_heard_during_an_insertion(heard, rest);
        assert(during[during.len() - 1].1);
    }
}

/// The keys that an insertion presses and releases are never taken for the
/// user's: whatever comes in during an insertion, the pipeline is told before
/// and after it exactly what it would have been told without.
pub proof fn law_an_insertion_changes_nothing_that_is_told(
    heard: Heard,
    before: Seq<(EventType, bool)>,
    during: Seq<(EventType, bool)>,
    after: Seq<(EventType, bool)>,
)
    requires
        forall|i: int| 0 <= i < during.len() ==> (#[trigger] during[i]).1,
    ensures
        heard.told_all(before + during + after) == heard.told_all(before + after),
        heard.after_all(before + during + after) == heard.after_all(before + after),
{
    lemma_one_after_another(heard, before + during, after);
    lemma_one_after_another(heard, before, during);
    lemma_one_after_another(heard, before, after);
    law_nothing_is_heard_during_an_insertion(heard.after_all(before), during);
    assert(heard.told_all(before + during) =~= heard.told_all(before));
}

/// What the pipeline is told outside an insertion: that push-to-talk was pressed
/// when the chord goes down, that it was released when the chord comes up, and
/// that hands-free was pressed when its key goes down. Where the chord and the
/// toggle move at once, only the chord is told.
pub proof fn law_what_the_pipeline_is_told(heard: Heard, event: EventType)
    ensures
        ({
            let was = heard.chord.a_down && heard.chord.b_down;
            let after = heard.after(event, false);
            let held = after.chord.a_down && after.chord.b_down;
            let told = heard.told(event, false);
            &&& told == Some(ControlEvent::PushToTalkPressed) <==> !was && held
            &&& told == Some(ControlEvent::PushToTalkReleased) <==> was && !held
            &&& told == Some(ControlEvent::HandsFreeTogglePressed) <==> was == held
                && !heard.toggle_down && after.toggle_down
            &&& told is None <==> was == held && !(!heard.toggle_down && after.toggle_down)
            &&& after.chord == heard.chord.after(event)
            &&& after.toggle_key == heard.toggle_key
            &&& after.toggle_down == down_after(heard.toggle_key, heard.toggle_down, event)
        }),
        heard.told(event, true) is None,
        heard.after(event, true) == heard,
{
}

} // verus!
