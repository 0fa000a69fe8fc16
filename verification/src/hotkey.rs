//! Detection of the hotkey that brings control back to this machine.
use crate::input::InputEvent;
use crate::protocol::KeyEvent;
use std::collections::HashSet;
use vstd::prelude::*;

verus! {

/// Scancodes for common modifier/toggle keys.
pub const SC_SCROLL_LOCK: u16 = 0x46;

pub const SC_LCTRL: u16 = 0x1D;

/// Extended.
pub const SC_RCTRL: u16 = 0x11D;

pub const SC_LALT: u16 = 0x38;

pub const SC_RALT: u16 = 0x138;

pub const SC_LSHIFT: u16 = 0x2A;

pub const SC_RSHIFT: u16 = 0x36;

pub const SC_SPACE: u16 = 0x39;

/// Tracks currently pressed keys and detects hotkey combos.
pub struct HotkeyDetector {
    /// Set of scancodes currently held down.
    pressed: HashSet<u16>,
    /// The configured hotkey combo (set of scancodes that must all be pressed).
    /// Default: just Scroll Lock.
    combo: Vec<u16>,
    /// Debounce: was the hotkey already fired for this press cycle?
    fired: bool,
}

/// What a detector knows.
pub ghost struct HotkeyState {
    pub pressed: Set<u16>,
    pub combo: Seq<u16>,
    pub fired: bool,
}

impl View for HotkeyDetector {
    type V = HotkeyState;

    closed spec fn view(&self) -> HotkeyState {
        HotkeyState { pressed: self.pressed@, combo: self.combo@, fired: self.fired }
    }
}

impl HotkeyState {
    /// All keys of the combo are held. No combo is never held.
    pub open spec fn held(self) -> bool {
        self.combo.len() > 0 && forall|i: int|
            0 <= i < self.combo.len() ==> self.pressed.contains(#[trigger] self.combo[i])
    }

    /// What is known after an event. The release of a key of the combo ends the press cycle.
    pub open spec fn after(self, event: InputEvent) -> HotkeyState {
        match event {
            InputEvent::Key(ke) => if ke.pressed {
                let down = HotkeyState { pressed: self.pressed.insert(ke.scancode), ..self };
                HotkeyState { fired: down.held() || self.fired, ..down }
            } else {
                HotkeyState {
                    pressed: self.pressed.remove(ke.scancode),
                    fired: self.fired && !self.combo.contains(ke.scancode),
                    ..self
                }
            },
            _ => self,
        }
    }

    /// The event is the key press that completes the combo.
    pub open spec fn triggers(self, event: InputEvent) -> bool {
        event matches InputEvent::Key(ke) && ke.pressed && !self.fired && self.after(event).held()
    }
}

/// What is known after a sequence of events.
pub open spec fn after_all(state: HotkeyState, events: Seq<InputEvent>) -> HotkeyState
    decreases events.len(),
{
    if events.len() == 0 {
        state
    } else {
        after_all(state, events.drop_last()).after(events.last())
    }
}

impl HotkeyDetector {
    pub fn new() -> (r: Self)
        ensures
            r@.pressed == Set::<u16>::empty(),
            r@.combo == seq![SC_SCROLL_LOCK],
            !r@.fired,
    {
        broadcast use vstd::std_specs::hash::group_hash_axioms;

        let mut combo: Vec<u16> = Vec::new();
        combo.push(SC_SCROLL_LOCK);
        let r = HotkeyDetector { pressed: HashSet::new(), combo, fired: false };
        assert(r@.combo =~= seq![SC_SCROLL_LOCK]);
        r
    }

    /// Set a custom hotkey combo (list of scancodes).
    pub fn set_combo(&mut self, scancodes: Vec<u16>)
        ensures
            final(self)@ == (HotkeyState { combo: scancodes@, ..old(self)@ }),
    {
        self.combo = scancodes;
    }

    /// The configured hotkey combo.
    pub fn combo(&self) -> (r: &Vec<u16>)
        ensures
            r@ == self@.combo,
    {
        &self.combo
    }

    /// Whether the hotkey was triggered in this press cycle.
    pub fn has_fired(&self) -> (r: bool)
        ensures
            r == self@.fired,
    {
        self.fired
    }

    fn in_combo(&self, scancode: u16) -> (r: bool)
        ensures
            r == self@.combo.contains(scancode),
    {
        let mut i: usize = 0;
        while i < self.combo.len()
            invariant
                i <= self.combo.len(),
                forall|j: int| 0 <= j < i ==> #[trigger] self.combo@[j] != scancode,
            decreases self.combo.len() - i,
        {
            if self.combo[i] == scancode {
                assert(self.combo@[i as int] == scancode);
                return true;
            }
            i += 1;
        }
        false
    }

    fn combo_held(&self) -> (r: bool)
        ensures
            r == self@.held(),
    {
        broadcast use vstd::std_specs::hash::group_hash_axioms;

        let mut i: usize = 0;
        while i < self.combo.len()
            invariant
                i <= self.combo.len(),
                forall|j: int|
                    0 <= j < i ==> self.pressed@.contains(#[trigger] self.combo@[j]),
            decreases self.combo.len() - i,
        {
            if !self.pressed.contains(&self.combo[i]) {
                assert(!self@.pressed.contains(self@.combo[i as int]));
                return false;
            }
            i += 1;
        }
        self.combo.len() > 0
    }

    /// Process an input event. Returns true if the hotkey was just triggered.
    pub fn process(&mut self, event: &InputEvent) -> (r: bool)
        ensures
            r == old(self)@.triggers(*event),
            final(self)@ == old(self)@.after(*event),
    {
        broadcast use vstd::std_specs::hash::group_hash_axioms;

        if let InputEvent::Key(ke) = event {
            if ke.pressed {
                self.pressed.insert(ke.scancode);
            } else {
                self.pressed.remove(&ke.scancode);
                if self.in_combo(ke.scancode) {
                    self.fired = false;
                }
                return false;
            }
            if self.combo_held() && !self.fired {
                self.fired = true;
                return true;
            }
        }
        false
    }
}

/// The event is no release of a key of the combo.
pub open spec fn keeps_cycle(combo: Seq<u16>, event: InputEvent) -> bool {
    event matches InputEvent::Key(ke) ==> ke.pressed || !combo.contains(ke.scancode)
}

/// The hotkey triggers once per press cycle: once it has, it does not again before a key of the
/// combo is released, whatever keys are pressed, repeated or released meanwhile.
pub proof fn lemma_triggers_once(
    state: HotkeyState,
    first: InputEvent,
    events: Seq<InputEvent>,
    next: InputEvent,
)
    requires
        state.triggers(first),
        forall|i: int| 0 <= i < events.len() ==> keeps_cycle(state.combo, #[trigger] events[i]),
    ensures
        !after_all(state.after(first), events).triggers(next),
{
    lemma_stays_fired(state.after(first), events);
}

proof fn lemma_stays_fired(state: HotkeyState, events: Seq<InputEvent>)
    requires
        state.fired,
        forall|i: int| 0 <= i < events.len() ==> keeps_cycle(state.combo, #[trigger] events[i]),
    ensures
        after_all(state, events).fired,
        after_all(state, events).combo == state.combo,
    decreases events.len(),
{
    if events.len() > 0 {
        let front = events.drop_last();
        assert forall|i: int| 0 <= i < front.len() implies keeps_cycle(
            state.combo,
            #[trigger] front[i],
        ) by {
            assert(front[i] == events[i]);
        }
        lemma_stays_fired(state, front);
        assert(keeps_cycle(state.combo, events[events.len() - 1]));
    }
}

/// Keys are held from their press to their release, and only keys that are pressed are. Repeats and
/// other events change nothing of that, and nothing changes the combo.
pub proof fn lemma_held_keys(state: HotkeyState, event: InputEvent, key: u16)
    ensures
        event matches InputEvent::Key(ke) ==> (ke.scancode == key ==> (state.after(event).pressed.contains(
            key,
        ) <==> ke.pressed)),
        event matches InputEvent::Key(ke) ==> (ke.scancode != key ==> (state.after(event).pressed.contains(
            key,
        ) <==> state.pressed.contains(key))),
        !(event is Key) ==> state.after(event) == state,
        state.after(event).combo == state.combo,
{
}

/// The hotkey triggers with the press of a key after which all keys of the combo are held, whatever
/// else is held, unless it has already triggered. No combo, and no release, triggers it.
pub proof fn lemma_combo_triggers(state: HotkeyState, scancode: u16, pressed: bool)
    ensures
        ({
            let event = InputEvent::Key(KeyEvent { scancode, pressed });
            let complete = state.combo.len() > 0 && forall|i: int|
                0 <= i < state.combo.len() ==> #[trigger] state.combo[i] == scancode
                    || state.pressed.contains(state.combo[i]);
            &&& state.triggers(event) <==> pressed && !state.fired && complete
            &&& state.triggers(event) ==> state.after(event).fired
            &&& !pressed && state.combo.contains(scancode) ==> !state.after(event).fired
            &&& !pressed && !state.combo.contains(scancode) ==> state.after(event).fired
                == state.fired
            &&& pressed && !complete ==> state.after(event).fired == state.fired
        }),
{
    let event = InputEvent::Key(KeyEvent { scancode, pressed });
    if pressed {
        let down = state.after(event);
        assert(down.pressed == state.pressed.insert(scancode));
        assert forall|i: int| 0 <= i < state.combo.len() implies (down.pressed.contains(
            #[trigger] state.combo[i],
        ) <==> state.combo[i] == scancode || state.pressed.contains(state.combo[i])) by {}
    }
}

/// After the release of a key of the combo the hotkey triggers again when the combo is complete.
pub proof fn lemma_triggers_again(state: HotkeyState, scancode: u16)
    requires
        state.combo == seq![scancode],
    ensures
        ({
            let release = InputEvent::Key(KeyEvent { scancode, pressed: false });
            let press = InputEvent::Key(KeyEvent { scancode, pressed: true });
            state.after(release).triggers(press)
        }),
{
    let release = InputEvent::Key(KeyEvent { scancode, pressed: false });
    assert(state.combo[0] == scancode);
    assert(state.combo.contains(scancode));
    lemma_combo_triggers(state, scancode, false);
    lemma_combo_triggers(state.after(release), scancode, true);
}

/// The key that brings control back by default, and the keys that combos are made of.
pub proof fn lemma_key_names()
    ensures
        SC_SCROLL_LOCK == 0x46,
        SC_LCTRL == 0x1D && SC_RCTRL == 0x11D,
        SC_LALT == 0x38 && SC_RALT == 0x138,
        SC_LSHIFT == 0x2A && SC_RSHIFT == 0x36,
        SC_SPACE == 0x39,
{
}

} // verus!
