use shareflow::config::AppConfig;
use shareflow::engine::{Action, Engine, FocusState, Peer, UiEvent};
use shareflow::hotkey::{HotkeyDetector, SC_LALT, SC_LCTRL, SC_SCROLL_LOCK, SC_SPACE};
use shareflow::input::InputEvent;
use shareflow::protocol::{KeyEvent, Message, MouseMoveEvent, ScreenInfo};
use shareflow::runtime::{InputLoop, SC_C, SC_CMD, SC_V};

fn key(scancode: u16, pressed: bool) -> InputEvent {
    InputEvent::Key(KeyEvent { scancode, pressed })
}

fn sent(scancode: u16, pressed: bool) -> Action {
    Action::Send { peer_id: "b".into(), message: Message::Key(KeyEvent { scancode, pressed }) }
}

fn engine() -> Engine {
    let mut e = Engine::new(AppConfig::with_identity("desk".into(), "a".into()));
    let s = ScreenInfo { id: "s".into(), x: 0, y: 0, width: 100, height: 100, primary: true };
    e.add_peer(Peer { id: "b".into(), name: "B".into(), screens: vec![s] });
    e
}

fn back() -> Vec<Action> {
    vec![
        Action::SetSuppression(false),
        Action::Emit(UiEvent::FocusChanged { state: FocusState::Local }),
    ]
}

#[test]
fn scroll_lock_triggers_once_per_press() {
    let mut d = HotkeyDetector::new();
    assert!(d.process(&key(SC_SCROLL_LOCK, true)));
    assert!(!d.process(&key(SC_SCROLL_LOCK, true)));
    assert!(!d.process(&key(0x1E, true)));
    assert!(!d.process(&key(SC_SCROLL_LOCK, true)));
    assert!(!d.process(&key(SC_SCROLL_LOCK, false)));
    assert!(d.process(&key(SC_SCROLL_LOCK, true)));
}

#[test]
fn releasing_another_key_does_not_end_the_press_cycle() {
    let mut d = HotkeyDetector::new();
    assert_eq!(*d.combo(), vec![SC_SCROLL_LOCK]);
    assert!(!d.process(&key(0x1E, true)));
    assert!(!d.has_fired());
    assert!(d.process(&key(SC_SCROLL_LOCK, true)));
    assert!(d.has_fired());
    assert!(!d.process(&key(0x1E, false)));
    assert!(!d.process(&key(SC_SCROLL_LOCK, true)));
    assert!(!d.process(&key(SC_SCROLL_LOCK, false)));
    assert!(d.process(&key(SC_SCROLL_LOCK, true)));
}

#[test]
fn a_combo_needs_all_its_keys() {
    let mut d = HotkeyDetector::new();
    d.set_combo(vec![SC_LCTRL, SC_LALT, SC_SPACE]);
    assert!(!d.process(&key(SC_SCROLL_LOCK, true)));
    assert!(!d.process(&key(SC_LCTRL, true)));
    assert!(!d.process(&key(SC_LALT, true)));
    assert!(!d.process(&InputEvent::MouseMove(MouseMoveEvent { x: 0, y: 0 })));
    assert!(d.process(&key(SC_SPACE, true)));
    d.process(&key(SC_LALT, false));
    assert!(!d.process(&key(SC_SPACE, true)));
    d.set_combo(vec![]);
    assert!(!d.process(&key(SC_SPACE, true)));
}

#[test]
fn keys_are_forwarded_while_focus_is_remote() {
    let mut e = engine();
    e.switch_to_remote(&"b".to_string(), 0, 0, 0);
    let mut l = InputLoop::new(e.get_focus());
    assert_eq!(l.step(&mut e, key(0x1E, true), 1), vec![sent(0x1E, true)]);
    e.switch_to_local(2);
    assert_eq!(l.step(&mut e, key(0x1E, false), 3), vec![]);
}

#[test]
fn the_hotkey_returns_control() {
    let mut e = engine();
    e.switch_to_remote(&"b".to_string(), 0, 0, 0);
    let mut l = InputLoop::new(e.get_focus());
    assert_eq!(l.step(&mut e, key(SC_SCROLL_LOCK, true), 7), back());
    assert_eq!((e.get_focus(), e.last_switch_ms), (FocusState::Local, Some(7)));
    assert_eq!(l.step(&mut e, key(SC_SCROLL_LOCK, false), 8), vec![]);
    assert_eq!(l.step(&mut e, key(SC_SCROLL_LOCK, true), 9), vec![]);
}

#[test]
fn copying_locally_pushes_after_a_delay() {
    let mut e = engine();
    let mut l = InputLoop::new(e.get_focus());
    assert_eq!(l.step(&mut e, key(SC_C, true), 0), vec![]);
    l.step(&mut e, key(0x11D, true), 0);
    assert_eq!(l.step(&mut e, key(SC_C, true), 0), vec![Action::PushCopied { delay_ms: 150 }]);
    assert_eq!(l.step(&mut e, key(SC_C, false), 0), vec![]);
    l.step(&mut e, key(0x11D, false), 0);
    assert_eq!(l.step(&mut e, key(SC_C, true), 0), vec![]);
    l.step(&mut e, key(SC_CMD, true), 0);
    assert_eq!(l.step(&mut e, key(SC_C, true), 0), vec![Action::PushCopied { delay_ms: 150 }]);
    let mut alone = Engine::new(AppConfig::with_identity("desk".into(), "a".into()));
    assert_eq!(l.step(&mut alone, key(SC_C, true), 0), vec![]);
    e.config.clipboard_sync_enabled = false;
    assert_eq!(l.step(&mut e, key(SC_C, true), 0), vec![]);
}

#[test]
fn pasting_remotely_pushes_first() {
    let mut e = engine();
    e.switch_to_remote(&"b".to_string(), 0, 0, 0);
    let mut l = InputLoop::new(e.get_focus());
    l.step(&mut e, key(SC_LCTRL, true), 0);
    assert_eq!(
        l.step(&mut e, key(SC_V, true), 0),
        vec![Action::PushClipboard { peer_id: "b".into(), protect: false }, sent(SC_V, true)]
    );
    assert_eq!(l.step(&mut e, key(SC_C, true), 0), vec![sent(SC_C, true)]);
    e.config.clipboard_sync_enabled = false;
    assert_eq!(l.step(&mut e, key(SC_V, true), 0), vec![sent(SC_V, true)]);
}

#[test]
fn a_change_of_focus_resets_modifiers() {
    let mut e = engine();
    let mut l = InputLoop::new(e.get_focus());
    l.step(&mut e, key(SC_LCTRL, true), 0);
    e.switch_to_remote(&"b".to_string(), 0, 0, 0);
    assert_eq!(l.step(&mut e, key(SC_V, true), 0), vec![sent(SC_V, true)]);
    assert!(!l.ctrl_held && !l.cmd_held);
}

#[test]
fn machines_that_are_not_primary_do_not_control() {
    let mut e = engine();
    e.switch_to_remote(&"b".to_string(), 0, 0, 0);
    e.config.is_primary_km_device = false;
    let mut l = InputLoop::new(e.get_focus());
    assert_eq!(l.step(&mut e, key(0x1E, true), 4), back());
    assert_eq!(l.step(&mut e, key(0x1E, false), 5), vec![]);
    e.config.is_primary_km_device = true;
    e.config.agent_mode = true;
    e.switch_to_remote(&"b".to_string(), 0, 0, 0);
    assert_eq!(l.step(&mut e, key(0x1E, true), 6), back());
}

#[test]
fn focus_on_a_lost_peer_comes_back() {
    let mut e = engine();
    e.switch_to_remote(&"gone".to_string(), 0, 0, 0);
    let mut l = InputLoop::new(e.get_focus());
    assert_eq!(l.step(&mut e, key(0x1E, true), 4), back());
}
