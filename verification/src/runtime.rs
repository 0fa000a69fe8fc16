//! From captured input to forwarded messages, and from clipboard changes to broadcasts.
use crate::clipboard;
use crate::clipboard::{ClipboardFingerprint, ClipboardSync};
use crate::engine;
use crate::engine::{Action, Engine, FocusState, UiEvent};
use crate::hotkey;
use crate::hotkey::HotkeyDetector;
use crate::input::InputEvent;
use crate::protocol::{ClipboardContent, KeyEvent, Message, PeerId};
use std::collections::hash_map::DefaultHasher;
use vstd::prelude::*;
use vstd::std_specs::hash::DefaultHasherAdditionalSpecFns;

verus! {

/// PS/2 scancodes for copy/paste shortcut detection (same values on Windows and macOS).
pub const SC_C: u16 = 0x2E;

pub const SC_V: u16 = 0x2F;

pub const SC_LCTRL: u16 = 0x1D;

pub const SC_RCTRL: u16 = 0x11D;

/// The Command key of macOS goes by the scancode of the Windows key.
pub const SC_CMD: u16 = 0x15B;

/// How long an application is given to put what the user copies on the clipboard.
pub const COPY_DELAY_MS: u64 = 150;

/// How often the clipboard is looked at where its changes are not announced.
pub const CLIPBOARD_POLL_MS: u64 = 300;

/// The state of the loop that forwards captured input.
pub struct InputLoop {
    pub ctrl_held: bool,
    pub cmd_held: bool,
    /// The machine that had focus at the last event.
    pub last_focus: FocusState,
    pub hotkey: HotkeyDetector,
}

impl InputLoop {
    /// The modifier keys that are held once an event is seen: control, and command. They count
    /// from the last change of focus on, since their release may have gone elsewhere.
    pub open spec fn modifiers(self, focus: FocusState, event: InputEvent) -> (bool, bool) {
        let (ctrl, cmd) = if self.last_focus.same(focus) {
            (self.ctrl_held, self.cmd_held)
        } else {
            (false, false)
        };
        match event {
            InputEvent::Key(ke) => if ke.scancode == SC_LCTRL || ke.scancode == SC_RCTRL {
                (ke.pressed, cmd)
            } else if ke.scancode == SC_CMD {
                (ctrl, ke.pressed)
            } else {
                (ctrl, cmd)
            },
            _ => (ctrl, cmd),
        }
    }

    /// The event is a shortcut: the key is pressed while control or command is held.
    pub open spec fn is_shortcut(
        self,
        focus: FocusState,
        event: InputEvent,
        scancode: u16,
    ) -> bool {
        let (ctrl, cmd) = self.modifiers(focus, event);
        event matches InputEvent::Key(ke) && ke.pressed && ke.scancode == scancode && (ctrl || cmd)
    }

    /// What copying and pasting do, where clipboards are synchronised. What is copied here goes to
    /// all peers. Before something is pasted on a peer, the peer gets the clipboard from here.
    pub open spec fn shortcut_actions(self, engine: Engine, event: InputEvent) -> Seq<Action> {
        if !engine.config.clipboard_sync_enabled {
            Seq::empty()
        } else {
            match engine.focus {
                FocusState::Local => if self.is_shortcut(engine.focus, event, SC_C)
                    && engine.peers@.dom().len() > 0 {
                    seq![Action::PushCopied { delay_ms: COPY_DELAY_MS }]
                } else {
                    Seq::empty()
                },
                FocusState::Remote(peer_id) => if self.is_shortcut(engine.focus, event, SC_V) {
                    seq![Action::PushClipboard { peer_id, protect: false }]
                } else {
                    Seq::empty()
                },
            }
        }
    }

    /// The event has to bring focus back to this machine: the hotkey was pressed, or this machine
    /// may not control others (any more), or the peer it controls is gone.
    pub open spec fn returns_focus(self, engine: Engine, event: InputEvent) -> bool {
        engine.focus matches FocusState::Remote(peer_id) && (self.hotkey@.triggers(event)
            || !engine.config.controls() || !engine.peers@.dom().contains(peer_id@))
    }

    pub fn new(focus: FocusState) -> (r: Self)
        ensures
            !r.ctrl_held,
            !r.cmd_held,
            r.last_focus == focus,
            r.hotkey@.pressed == Set::<u16>::empty(),
            r.hotkey@.combo == seq![hotkey::SC_SCROLL_LOCK],
            !r.hotkey@.fired,
    {
        InputLoop {
            ctrl_held: false,
            cmd_held: false,
            last_focus: focus,
            hotkey: HotkeyDetector::new(),
        }
    }

    fn track(&mut self, focus: &FocusState, event: &InputEvent)
        ensures
            (final(self).ctrl_held, final(self).cmd_held) == old(self).modifiers(*focus, *event),
            final(self).last_focus.same(*focus),
            final(self).hotkey == old(self).hotkey,
    {
        if !focus.is_same(&self.last_focus) {
            self.ctrl_held = false;
            self.cmd_held = false;
            self.last_focus = focus.clone();
        }
        if let InputEvent::Key(ke) = event {
            if ke.scancode == SC_LCTRL || ke.scancode == SC_RCTRL {
                self.ctrl_held = ke.pressed;
            } else if ke.scancode == SC_CMD {
                self.cmd_held = ke.pressed;
            }
        }
    }

    fn shortcuts(&mut self, engine: &Engine, event: &InputEvent) -> (r: Vec<Action>)
        ensures
            (final(self).ctrl_held, final(self).cmd_held) == old(self).modifiers(
                engine.focus,
                *event,
            ),
            final(self).last_focus.same(engine.focus),
            final(self).hotkey == old(self).hotkey,
            r@ == old(self).shortcut_actions(*engine, *event),
    {
        self.track(&engine.focus, event);
        let mut actions: Vec<Action> = Vec::new();
        if let InputEvent::Key(ke) = event {
            if ke.pressed && (self.ctrl_held || self.cmd_held)
                && engine.config.clipboard_sync_enabled {
                match &engine.focus {
                    FocusState::Local => {
                        if ke.scancode == SC_C && engine.peers.len() > 0 {
                            actions.push(Action::PushCopied { delay_ms: COPY_DELAY_MS });
                        }
                    },
                    FocusState::Remote(peer_id) => {
                        if ke.scancode == SC_V {
                            actions.push(
                                Action::PushClipboard { peer_id: peer_id.clone(), protect: false },
                            );
                        }
                    },
                }
            }
        }
        assert(actions@ =~= old(self).shortcut_actions(*engine, *event));
        actions
    }

    /// The engine after an event, and what the event asks for.
    pub open spec fn stepped(self, engine: Engine, event: InputEvent, now_ms: u64) -> (
        Engine,
        Seq<Action>,
    ) {
        let shortcuts = self.shortcut_actions(engine, event);
        if self.returns_focus(engine, event) {
            (
                Engine { focus: FocusState::Local, last_switch_ms: Some(now_ms), ..engine },
                shortcuts + Engine::local_actions(),
            )
        } else if !engine.config.controls() {
            (engine, shortcuts)
        } else {
            let (after, forward, switch) = engine.local_input(event, now_ms);
            (after, shortcuts + switch + engine::sends(forward))
        }
    }

    /// Take one captured event: look for the copy and paste shortcuts and for the hotkey, and
    /// forward the event to the peer that has focus.
    pub fn step(&mut self, engine: &mut Engine, event: InputEvent, now_ms: u64) -> (r: Vec<Action>)
        requires
            old(engine).config.controls() ==> old(engine).takes(event),
        ensures
            (final(self).ctrl_held, final(self).cmd_held) == old(self).modifiers(
                old(engine).focus,
                event,
            ),
            final(self).last_focus.same(old(engine).focus),
            final(self).hotkey@ == old(self).hotkey@.after(event),
            ({
                let shortcuts = old(self).shortcut_actions(*old(engine), event);
                let back = Engine {
                    focus: FocusState::Local,
                    last_switch_ms: Some(now_ms),
                    ..*old(engine)
                };
                if old(self).returns_focus(*old(engine), event) {
                    r@ == shortcuts + Engine::local_actions() && *final(engine) == back
                } else if !old(engine).config.controls() {
                    r@ == shortcuts && *final(engine) == *old(engine)
                } else {
                    let (after, forward, switch) = old(engine).local_input(event, now_ms);
                    r@ == shortcuts + switch + engine::sends(forward) && *final(engine) == after
                }
            }),
            (*final(engine), r@) == old(self).stepped(*old(engine), event, now_ms),
            engine::suppressing(r@, old(engine).focus is Remote) == (final(engine).focus is Remote),
            old(engine).attached() ==> final(engine).attached(),
            !old(engine).config.clipboard_sync_enabled ==> engine::leaves_clipboard(r@),
    {
        let mut actions = self.shortcuts(engine, &event);
        let ghost shortcuts = actions@;
        let ghost was_remote = engine.focus is Remote;
        proof {
            reveal_with_fuel(engine::suppressing, 2);
            assert(shortcuts.len() <= 1);
            assert(shortcuts.len() == 1 ==> shortcuts.drop_last() =~= Seq::empty());
            assert(engine::suppressing(shortcuts, was_remote) == was_remote);
            engine::lemma_suppressing_add(shortcuts, Engine::local_actions(), was_remote);
            engine::lemma_back_unsuppressed(was_remote);
        }
        let back_by_hotkey = self.hotkey.process(&event) && !engine.focus.is_local();
        if back_by_hotkey {
            let mut back = engine.switch_to_local(now_ms);
            actions.append(&mut back);
            return actions;
        }
        if !engine.config.is_controller() {
            if !engine.focus.is_local() {
                let mut back = engine.switch_to_local(now_ms);
                actions.append(&mut back);
            }
            return actions;
        }
        let ghost before = *engine;
        let (forward, mut switch) = engine.handle_local_input(event, now_ms);
        let ghost forward_to = forward;
        assert(before.focus is Remote ==> switch@ =~= Seq::empty());
        proof {
            engine::lemma_suppressing_add(shortcuts, switch@, was_remote);
        }
        actions.append(&mut switch);
        let ghost switched = actions@;
        if let Some((peer_id, message)) = forward {
            proof {
                if before.focus is Local {
                    let mv = event->MouseMove_0;
                    let (dx, dy) = before.movement(mv);
                    engine::lemma_edge_switch_target(before, mv.x as int, mv.y as int, dx, dy);
                }
            }
            match engine.send_to_peer(&peer_id, message) {
                Ok(send) => {
                    actions.push(send);
                    assert(actions@.drop_last() =~= switched);
                    assert(actions@ =~= switched + engine::sends(forward_to));
                },
                Err(_) => {
                    assert(switched =~= shortcuts);
                    let mut back = engine.switch_to_local(now_ms);
                    actions.append(&mut back);
                },
            }
        } else {
            assert(actions@ =~= switched + engine::sends(forward_to));
        }
        actions
    }
}


/// Whether clipboard changes are looked for: clipboards are synchronised, and there is a peer.
pub fn watches_clipboard(engine: &Engine) -> (r: bool)
    ensures
        r == (engine.config.clipboard_sync_enabled && engine.peers@.dom().len() > 0),
{
    engine.config.clipboard_sync_enabled && engine.peers.len() > 0
}

/// What a tick comes to, for what is known of the clipboard before and after it.
pub open spec fn tick_outcome(
    engine: Engine,
    sync: ClipboardSync,
    last_known: Option<ClipboardFingerprint>,
    content: Option<ClipboardContent>,
    now_ms: u64,
    synced: ClipboardSync,
    known: Option<ClipboardFingerprint>,
    actions: Seq<Action>,
) -> bool {
    let (polled, now_known, change) = sync.polled(last_known, content);
    if !engine.config.clipboard_sync_enabled || engine.peers@.dom().len() == 0 {
        synced == sync && known == last_known && actions.len() == 0
    } else {
        &&& known == now_known
        &&& match change {
            None => synced == polled && actions.len() == 0,
            Some(content) => {
                &&& synced == (ClipboardSync { last_local_push_ms: Some(now_ms), ..polled })
                &&& engine::broadcasts(
                    actions,
                    engine.peers@.dom(),
                    Message::ClipboardUpdate { content },
                )
            },
        }
    }
}

/// Take what was read of the clipboard on a tick of the monitoring loop, and broadcast it if it is
/// a local change. Echoes are ignored for a while afterwards.
pub fn clipboard_tick(
    engine: &Engine,
    sync: &mut ClipboardSync,
    last_known: &mut Option<ClipboardFingerprint>,
    content: Option<ClipboardContent>,
    now_ms: u64,
) -> (r: Vec<Action>)
    ensures
        ({
            let (polled, known, change) = old(sync).polled(*old(last_known), content);
            if !engine.config.clipboard_sync_enabled || engine.peers@.dom().len() == 0 {
                &&& *final(sync) == *old(sync)
                &&& *final(last_known) == *old(last_known)
                &&& r@.len() == 0
            } else {
                &&& *final(last_known) == known
                &&& match change {
                    None => *final(sync) == polled && r@.len() == 0,
                    Some(content) => {
                        &&& *final(sync) == (ClipboardSync {
                            last_local_push_ms: Some(now_ms),
                            ..polled
                        })
                        &&& engine::broadcasts(
                            r@,
                            engine.peers@.dom(),
                            Message::ClipboardUpdate { content },
                        )
                    },
                }
            }
        }),
        tick_outcome(
            *engine,
            *old(sync),
            *old(last_known),
            content,
            now_ms,
            *final(sync),
            *final(last_known),
            r@,
        ),
        !engine.config.clipboard_sync_enabled ==> engine::leaves_clipboard(r@),
{
    if !watches_clipboard(engine) {
        return Vec::new();
    }
    match sync.poll_clipboard_change(last_known, content) {
        None => Vec::new(),
        Some(content) => {
            sync.notify_local_push(now_ms);
            engine.broadcast(Message::ClipboardUpdate { content })
        },
    }
}

/// Push what the user copied, once it was read, to all peers. Echoes are ignored for a while
/// afterwards.
pub fn push_copied(
    engine: &Engine,
    sync: &mut ClipboardSync,
    content: Option<ClipboardContent>,
    now_ms: u64,
) -> (r: Vec<Action>)
    ensures
        match content {
            Some(content) if engine.config.clipboard_sync_enabled => {
                &&& *final(sync) == (ClipboardSync {
                    last_local_push_ms: Some(now_ms),
                    ..*old(sync)
                })
                &&& engine::broadcasts(
                    r@,
                    engine.peers@.dom(),
                    Message::ClipboardUpdate { content },
                )
            },
            _ => *final(sync) == *old(sync) && r@.len() == 0,
        },
        !engine.config.clipboard_sync_enabled ==> engine::leaves_clipboard(r@),
{
    if !engine.config.clipboard_sync_enabled {
        return Vec::new();
    }
    match content {
        Some(content) => {
            sync.notify_local_push(now_ms);
            engine.broadcast(Message::ClipboardUpdate { content })
        },
        None => Vec::new(),
    }
}

/// Push the local clipboard, once it was read, to one peer. With `protect`, echoes are ignored for
/// a while afterwards.
pub fn push_clipboard(
    engine: &Engine,
    sync: &mut ClipboardSync,
    peer_id: &PeerId,
    protect: bool,
    content: Option<ClipboardContent>,
    now_ms: u64,
) -> (r: Vec<Action>)
    ensures
        match content {
            Some(content) if engine.config.clipboard_sync_enabled => {
                &&& *final(sync) == if protect {
                    ClipboardSync { last_local_push_ms: Some(now_ms), ..*old(sync) }
                } else {
                    *old(sync)
                }
                &&& r@ == if engine.peers@.dom().contains(peer_id@) {
                    seq![
                        Action::Send {
                            peer_id: *peer_id,
                            message: Message::ClipboardUpdate { content },
                        },
                    ]
                } else {
                    Seq::empty()
                }
            },
            _ => *final(sync) == *old(sync) && r@.len() == 0,
        },
        !engine.config.clipboard_sync_enabled ==> engine::leaves_clipboard(r@),
{
    let mut actions: Vec<Action> = Vec::new();
    if !engine.config.clipboard_sync_enabled {
        return actions;
    }
    if let Some(content) = content {
        if protect {
            sync.notify_local_push(now_ms);
        }
        match engine.send_to_peer(peer_id, Message::ClipboardUpdate { content }) {
            Ok(send) => actions.push(send),
            Err(_) => {},
        }
        assert(engine.peers@.dom().contains(peer_id@) || actions@ =~= Seq::empty());
    }
    actions
}

/// Scroll Lock snaps back to local control: whatever peer has focus, a press of it brings focus
/// back to this machine, once per press.
pub proof fn lemma_scroll_lock_returns_control(input: InputLoop, engine: Engine)
    requires
        input.hotkey@.combo == seq![hotkey::SC_SCROLL_LOCK],
        !input.hotkey@.fired,
        engine.focus is Remote,
    ensures
        input.returns_focus(
            engine,
            InputEvent::Key(KeyEvent { scancode: hotkey::SC_SCROLL_LOCK, pressed: true }),
        ),
{
}

/// A machine that may not control others never keeps focus on one: whatever it captures, focus
/// comes back.
pub proof fn lemma_only_controllers_control(input: InputLoop, engine: Engine, event: InputEvent)
    requires
        !engine.config.controls(),
        engine.focus is Remote,
    ensures
        input.returns_focus(engine, event),
{
}

/// Control and command, given by their scancodes on either side of the keyboard, count as held from
/// their press to their release, as long as focus does not move.
pub proof fn lemma_modifiers_are_held(
    input: InputLoop,
    focus: FocusState,
    scancode: u16,
    pressed: bool,
)
    requires
        input.last_focus.same(focus),
    ensures
        ({
            let event = InputEvent::Key(KeyEvent { scancode, pressed });
            let (ctrl, cmd) = input.modifiers(focus, event);
            &&& scancode == 0x1D || scancode == 0x11D ==> ctrl == pressed && cmd == input.cmd_held
            &&& scancode == 0x15B ==> cmd == pressed && ctrl == input.ctrl_held
            &&& scancode != 0x1D && scancode != 0x11D && scancode != 0x15B ==> ctrl
                == input.ctrl_held && cmd == input.cmd_held
        }),
{
}

/// When focus has moved no modifier key counts as held until it is pressed again.
pub proof fn lemma_modifiers_do_not_travel(
    input: InputLoop,
    focus: FocusState,
    scancode: u16,
    pressed: bool,
)
    requires
        !input.last_focus.same(focus),
        scancode != 0x1D && scancode != 0x11D && scancode != 0x15B,
    ensures
        input.modifiers(focus, InputEvent::Key(KeyEvent { scancode, pressed })) == (false, false),
{
}

/// With control or command held, C pressed here lets all peers have what is copied, once the
/// application has had 150 milliseconds, and V pressed on a peer first lets that peer have the
/// clipboard. Nothing else does, and neither does where clipboards are not synchronised.
pub proof fn lemma_copy_and_paste(
    input: InputLoop,
    engine: Engine,
    scancode: u16,
    pressed: bool,
)
    requires
        input.last_focus.same(engine.focus),
        scancode != 0x1D && scancode != 0x11D && scancode != 0x15B,
    ensures
        ({
            let event = InputEvent::Key(KeyEvent { scancode, pressed });
            let actions = input.shortcut_actions(engine, event);
            let armed = pressed && (input.ctrl_held || input.cmd_held)
                && engine.config.clipboard_sync_enabled;
            &&& engine.focus is Local && armed && scancode == 0x2E && engine.peers@.dom().len() > 0
                ==> actions == seq![Action::PushCopied { delay_ms: 150 }]
            &&& engine.focus matches FocusState::Remote(peer_id) ==> (armed && scancode == 0x2F
                ==> actions == seq![Action::PushClipboard { peer_id, protect: false }])
            &&& !armed ==> actions.len() == 0
            &&& engine.focus is Local && (scancode != 0x2E || engine.peers@.dom().len() == 0)
                ==> actions.len() == 0
            &&& engine.focus is Remote && scancode != 0x2F ==> actions.len() == 0
        }),
{
}

/// Moving and clicking the mouse is no shortcut.
pub proof fn lemma_only_keys_are_shortcuts(input: InputLoop, engine: Engine, event: InputEvent)
    requires
        !(event is Key),
    ensures
        input.shortcut_actions(engine, event).len() == 0,
        input.last_focus.same(engine.focus) ==> input.modifiers(engine.focus, event) == (
            input.ctrl_held,
            input.cmd_held,
        ),
{
}

/// Focus is on the same machine only if it is here in both cases, or on one and the same peer.
pub proof fn lemma_same_focus(a: FocusState, b: FocusState)
    ensures
        a is Local && b is Local ==> a.same(b),
        a is Local <==> !(a is Remote),
        a is Local && b is Remote ==> !a.same(b) && !b.same(a),
        a matches FocusState::Remote(x) ==> (b matches FocusState::Remote(y) ==> (a.same(b) <==> x@
            == y@)),
        a matches FocusState::Remote(x) ==> a.on(x@),
        a is Local ==> forall|id: Seq<char>| !#[trigger] a.on(id),
{
}

/// A press of Scroll Lock brings focus back, whatever other keys are held and whatever else is the
/// case, if it is the combo and did not trigger since it was last released. Any other event does so
/// only where this machine may not control others or the peer is gone.
pub proof fn lemma_ways_back(input: InputLoop, engine: Engine, event: InputEvent)
    requires
        input.hotkey@.combo == seq![0x46u16],
        !input.hotkey@.fired,
    ensures
        engine.focus is Local ==> !input.returns_focus(engine, event),
        engine.focus is Remote && event == InputEvent::Key(
            KeyEvent { scancode: 0x46, pressed: true },
        ) ==> input.returns_focus(engine, event),
        engine.focus matches FocusState::Remote(peer_id) ==> (engine.peers@.dom().contains(peer_id@)
            && engine.config.is_primary_km_device && !engine.config.agent_mode && !(event
            matches InputEvent::Key(ke) && ke.pressed) ==> !input.returns_focus(engine, event)),
        engine.focus matches FocusState::Remote(peer_id) ==> (!engine.peers@.dom().contains(peer_id@)
            || !engine.config.is_primary_km_device || engine.config.agent_mode
            ==> input.returns_focus(engine, event)),
{
}

/// While this machine may control others and the peer is there, the hotkey alone brings focus back.
pub proof fn lemma_hotkey_alone(input: InputLoop, engine: Engine, event: InputEvent, peer_id: PeerId)
    requires
        engine.focus == FocusState::Remote(peer_id),
        engine.peers@.dom().contains(peer_id@),
        engine.config.is_primary_km_device,
        !engine.config.agent_mode,
    ensures
        input.returns_focus(engine, event) <==> input.hotkey@.triggers(event),
        !(event is Key) ==> !input.returns_focus(engine, event),
        input.hotkey@.combo == seq![0x46u16] && !input.hotkey@.pressed.contains(0x46) ==> (
        input.returns_focus(engine, event) <==> !input.hotkey@.fired && event == InputEvent::Key(
            KeyEvent { scancode: 0x46, pressed: true },
        )),
{
    if input.hotkey@.combo == seq![0x46u16] {
        assert(input.hotkey@.combo[0] == 0x46);
        if let InputEvent::Key(ke) = event {
            hotkey::lemma_combo_triggers(input.hotkey@, ke.scancode, ke.pressed);
        }
    }
}

/// A modifier key that is pressed first on the machine that has got focus counts as held there.
pub proof fn lemma_modifiers_start_anew(input: InputLoop, focus: FocusState, pressed: bool)
    requires
        !input.last_focus.same(focus),
    ensures
        input.modifiers(focus, InputEvent::Key(KeyEvent { scancode: 0x1D, pressed })) == (
            pressed,
            false,
        ),
        input.modifiers(focus, InputEvent::Key(KeyEvent { scancode: 0x11D, pressed })) == (
            pressed,
            false,
        ),
        input.modifiers(focus, InputEvent::Key(KeyEvent { scancode: 0x15B, pressed })) == (
            false,
            pressed,
        ),
{
}

/// A shortcut whose modifier key was pressed on another machine is none.
pub proof fn lemma_shortcuts_do_not_travel(
    input: InputLoop,
    engine: Engine,
    scancode: u16,
    pressed: bool,
)
    requires
        !input.last_focus.same(engine.focus),
    ensures
        input.shortcut_actions(engine, InputEvent::Key(KeyEvent { scancode, pressed })).len() == 0,
{
}

/// What is captured while a peer has focus goes to that peer, as it is, last of what is done, unless
/// it brings focus back. Focus that comes back ends suppression, starts the cooldown, and nothing is
/// forwarded then.
pub proof fn lemma_captured_input_goes_to_the_peer(
    input: InputLoop,
    engine: Engine,
    event: InputEvent,
    now_ms: u64,
    peer_id: PeerId,
)
    requires
        engine.focus == FocusState::Remote(peer_id),
    ensures
        ({
            let (after, actions) = input.stepped(engine, event, now_ms);
            let n = actions.len() as int;
            &&& input.returns_focus(engine, event) ==> {
                &&& after.focus is Local && after.last_switch_ms == Some(now_ms)
                &&& n >= 2
                &&& actions[n - 2] == Action::SetSuppression(false)
                &&& actions[n - 1] == Action::Emit(UiEvent::FocusChanged { state: FocusState::Local })
                &&& forall|i: int| 0 <= i < n ==> !(#[trigger] actions[i] is Send)
            }
            &&& !input.returns_focus(engine, event) ==> {
                &&& after == engine
                &&& n >= 1
                &&& actions[n - 1] matches Action::Send { peer_id: to, message }
                &&& to == peer_id
                &&& match event {
                    InputEvent::MouseMove(mv) => message == Message::MouseMove(mv),
                    InputEvent::MouseButton(mb) => message == Message::MouseButton(mb),
                    InputEvent::MouseScroll(ms) => message == Message::MouseScroll(ms),
                    InputEvent::Key(ke) => message == Message::Key(ke),
                }
            }
        }),
{
}

/// While this machine has focus, nothing of what is captured is sent but the switch of focus itself,
/// and a machine that may not control others does not even do that.
pub proof fn lemma_captured_input_stays(
    input: InputLoop,
    engine: Engine,
    event: InputEvent,
    now_ms: u64,
)
    requires
        engine.focus is Local,
    ensures
        ({
            let (after, actions) = input.stepped(engine, event, now_ms);
            &&& !engine.config.is_primary_km_device || engine.config.agent_mode ==> after == engine
            &&& !(event is MouseMove) ==> after == engine
            &&& after.focus is Local ==> forall|i: int|
                0 <= i < actions.len() ==> !(#[trigger] actions[i] is Send) && !(actions[i]
                    is SetSuppression)
            &&& after.focus matches FocusState::Remote(peer_id) ==> (actions.len() > 0
                && (actions.last() matches Action::Send { peer_id: to, message } && to == peer_id
                && message is SwitchFocus))
        }),
{
    engine::lemma_only_pushes_hand_over(engine, event, now_ms);
}

/// Two images after one another both reach the peers, even if they are of one size: a local image of
/// which the width, the height or the sample hash differs from what was last known goes to every
/// peer, as it is, and what peers send is ignored from then on. One that agrees in all three, or that
/// a peer has set, does not.
pub proof fn lemma_local_images_reach_all_peers(
    engine: Engine,
    sync: ClipboardSync,
    last_known: Option<ClipboardFingerprint>,
    width: usize,
    height: usize,
    rgba: Vec<u8>,
    hash: u64,
    now_ms: u64,
    synced: ClipboardSync,
    known: Option<ClipboardFingerprint>,
    actions: Seq<Action>,
)
    requires
        tick_outcome(
            engine,
            sync,
            last_known,
            Some(ClipboardContent::Image { width, height, rgba }),
            now_ms,
            synced,
            known,
            actions,
        ),
        hash == DefaultHasher::spec_finish(
            clipboard::samples(width as nat, height as nat, rgba@),
        ),
        engine.config.clipboard_sync_enabled,
        engine.peers@.dom().len() > 0,
    ensures
        known == Some(ClipboardFingerprint::Image { width, height, hash }),
        ({
            let old_image = last_known matches Some(
                ClipboardFingerprint::Image { width: w, height: h, hash: x },
            ) && w == width && h == height && x == hash;
            &&& !old_image && !sync.remote_set ==> {
                &&& actions.len() == 1
                &&& actions[0] matches Action::Broadcast { recipients, message }
                &&& engine::lists(recipients@, engine.peers@.dom())
                &&& message == (Message::ClipboardUpdate {
                    content: ClipboardContent::Image { width, height, rgba },
                })
                &&& synced.last_local_push_ms == Some(now_ms) && !synced.remote_set
            }
            &&& old_image || sync.remote_set ==> actions.len() == 0 && synced.last_local_push_ms
                == sync.last_local_push_ms
        }),
{
    clipboard::lemma_new_image_is_broadcast(sync, last_known, width, height, rgba, hash);
}

/// A local text that differs from what was last known goes to every peer, as it is. The same text, or
/// one that a peer has set, does not.
pub proof fn lemma_local_texts_reach_all_peers(
    engine: Engine,
    sync: ClipboardSync,
    last_known: Option<ClipboardFingerprint>,
    text: String,
    now_ms: u64,
    synced: ClipboardSync,
    known: Option<ClipboardFingerprint>,
    actions: Seq<Action>,
)
    requires
        tick_outcome(
            engine,
            sync,
            last_known,
            Some(ClipboardContent::Text(text)),
            now_ms,
            synced,
            known,
            actions,
        ),
        engine.config.clipboard_sync_enabled,
        engine.peers@.dom().len() > 0,
    ensures
        known matches Some(ClipboardFingerprint::Text(t)) && t@ == text@,
        ({
            let old_text = last_known matches Some(ClipboardFingerprint::Text(t)) && t@ == text@;
            &&& !old_text && !sync.remote_set ==> {
                &&& actions.len() == 1
                &&& actions[0] matches Action::Broadcast { recipients, message }
                &&& engine::lists(recipients@, engine.peers@.dom())
                &&& message == (Message::ClipboardUpdate { content: ClipboardContent::Text(text) })
                &&& synced.last_local_push_ms == Some(now_ms)
            }
            &&& old_text || sync.remote_set ==> actions.len() == 0 && synced.last_local_push_ms
                == sync.last_local_push_ms
        }),
{
    clipboard::lemma_new_text_is_broadcast(sync, last_known, text);
}

/// Where clipboards are not synchronised, and without a peer, nothing is looked at and nothing sent.
pub proof fn lemma_unwatched_clipboard(
    engine: Engine,
    sync: ClipboardSync,
    last_known: Option<ClipboardFingerprint>,
    content: Option<ClipboardContent>,
    now_ms: u64,
    synced: ClipboardSync,
    known: Option<ClipboardFingerprint>,
    actions: Seq<Action>,
)
    requires
        tick_outcome(engine, sync, last_known, content, now_ms, synced, known, actions),
        !engine.config.clipboard_sync_enabled || engine.peers@.dom().len() == 0,
    ensures
        synced == sync && known == last_known && actions.len() == 0,
{
}

} // verus!
