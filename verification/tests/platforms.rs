use shareflow::input::cursor::{Point, RemoteCursor};
use shareflow::input::keycodes::{mac_vk_to_scancode, scancode_to_mac_vk};
use shareflow::input::linux::{get_screens_linux, LinuxInputCapture, LinuxInputInjector};
use shareflow::input::macos::{
    get_screens_macos, modifier_flags_for_vk, reconfiguration_done, scroll_lines, Display, KeyPost,
    MacInput, MacOSInputCapture, MacOSInputInjector, RawEvent, EVENT_MASK, SHAREFLOW_EVENT_MARKER,
};
use shareflow::input::windows::{
    flush_held_modifier_keys, modifier_keys, CursorChange, HookResult, KeyInput, KeyboardData,
    MouseData, MouseInput, WindowsInput, WindowsInputInjector, SHAREFLOW_EXTRA_INFO,
};
use shareflow::input::InputEvent;
use shareflow::protocol::{
    KeyEvent, MouseButton, MouseButtonEvent, MouseMoveEvent, MouseScrollEvent,
};

fn moved(x: i32, y: i32) -> Option<InputEvent> {
    Some(InputEvent::MouseMove(MouseMoveEvent { x, y }))
}

fn button(button: MouseButton, pressed: bool) -> Option<InputEvent> {
    Some(InputEvent::MouseButton(MouseButtonEvent { button, pressed }))
}

fn key(scancode: u16, pressed: bool) -> Option<InputEvent> {
    Some(InputEvent::Key(KeyEvent { scancode, pressed }))
}

fn raw(event_type: u32) -> RawEvent {
    RawEvent {
        event_type,
        marker: 0,
        delta_x: 0,
        delta_y: 0,
        x: 0,
        y: 0,
        button_number: 0,
        scroll_vertical: 0,
        scroll_horizontal: 0,
        keycode: 0,
        flags: 0,
    }
}

#[test]
fn the_remote_cursor_stays_on_its_screen() {
    let mut c = RemoteCursor::at(10, 20, 0, 0, 100, 50);
    assert_eq!(c.move_by(5, -5), MouseMoveEvent { x: 15, y: 15 });
    assert_eq!(c.move_by(1000, 1000), MouseMoveEvent { x: 99, y: 49 });
    assert_eq!(c.move_by(-1000, -1000), MouseMoveEvent { x: 0, y: 0 });
    assert!(!RemoteCursor::at(0, 0, 0, 0, 0, 5).is_roomy());
    assert_eq!((RemoteCursor::new().right, RemoteCursor::new().bottom), (1920, 1080));
}

#[test]
fn mac_keys_come_back_from_their_scancodes() {
    let mut mapped = 0;
    for vk in 0..=u16::MAX {
        let sc = mac_vk_to_scancode(vk);
        if sc != 0 {
            mapped += 1;
            assert_eq!(scancode_to_mac_vk(sc), Some(vk));
        }
    }
    assert_eq!(mapped, 98);
    assert_eq!(mac_vk_to_scancode(0x00), 0x1E);
    assert_eq!(mac_vk_to_scancode(0x37), 0x15B);
    assert_eq!(mac_vk_to_scancode(0x36), 0);
    assert_eq!(scancode_to_mac_vk(0x136), Some(0x3C));
    assert_eq!(scancode_to_mac_vk(0), None);
    assert_eq!(scancode_to_mac_vk(0x46), None);
    assert_eq!(modifier_flags_for_vk(0x3B), Some((0x40000, 1)));
    assert_eq!(modifier_flags_for_vk(0x39), None);
}

#[test]
fn a_disabled_tap_is_enabled_again() {
    let mut m = MacInput::new();
    m.suppress = true;
    let v = m.event_tap(&raw(0xFFFF_FFFE), true, 0);
    assert!(v.reenable && v.pass && v.send.is_none());
}

#[test]
fn injected_mac_events_pass() {
    let mut m = MacInput::new();
    m.suppress = true;
    let mut ev = raw(10);
    ev.marker = SHAREFLOW_EVENT_MARKER;
    let v = m.event_tap(&ev, true, 0);
    assert!(v.pass && v.send.is_none());
    let w = m.event_tap(&raw(10), false, 0);
    assert!(w.pass && w.send.is_none());
}

#[test]
fn suppressed_mac_moves_go_to_the_remote_cursor() {
    let mut m = MacInput::new();
    m.init_remote_mouse(50, 60, 0, 0, 100, 100);
    assert!(m.set_suppress(true, Some(Point { x: 7, y: 8 })).is_empty());
    let mut ev = raw(6);
    ev.delta_x = 10;
    ev.delta_y = -200;
    assert!(m.can_take(&ev, true));
    let v = m.event_tap(&ev, true, 0);
    assert_eq!((v.send, v.warp, v.pass), (moved(60, 0), Some(Point { x: 7, y: 8 }), false));
    let still = m.event_tap(&raw(5), true, 0);
    assert_eq!((still.send, still.warp, still.pass), (None, Some(Point { x: 7, y: 8 }), false));
    m.init_remote_mouse(0, 0, 0, 0, 0, 0);
    assert!(!m.can_take(&ev, true));
    assert!(m.can_take(&ev, false) && m.can_take(&raw(5), true));
}

#[test]
fn local_mac_moves_are_captured_at_most_sixty_times_a_second() {
    let mut m = MacInput::new();
    let mut ev = raw(5);
    ev.x = 3;
    ev.y = 4;
    let v = m.event_tap(&ev, true, 100);
    assert_eq!((v.send, v.pass), (None, true));
    assert_eq!(m.last_cursor, Point { x: 3, y: 4 });
    m.set_peers_connected(true);
    assert_eq!(m.event_tap(&ev, true, 100).send, moved(3, 4));
    assert_eq!(m.event_tap(&ev, true, 115).send, None);
    assert_eq!(m.event_tap(&ev, true, 116).send, moved(3, 4));
}

#[test]
fn mac_buttons_scrolls_and_keys_are_captured() {
    let mut m = MacInput::new();
    let cases = [
        (1, MouseButton::Left, true),
        (2, MouseButton::Left, false),
        (3, MouseButton::Right, true),
        (4, MouseButton::Right, false),
        (25, MouseButton::Middle, true),
        (26, MouseButton::Middle, false),
    ];
    for (t, b, pressed) in cases {
        let v = m.event_tap(&raw(t), true, 0);
        assert_eq!((v.send, v.pass, v.warp), (button(b, pressed), true, None));
    }
    let mut other = raw(25);
    other.button_number = 3;
    assert_eq!(m.event_tap(&other, true, 0).send, button(MouseButton::Button4, true));
    other.button_number = 4;
    assert_eq!(m.event_tap(&other, true, 0).send, button(MouseButton::Button5, true));
    let mut scroll = raw(22);
    scroll.scroll_vertical = -2;
    scroll.scroll_horizontal = 20_000_000;
    assert_eq!(
        m.event_tap(&scroll, true, 0).send,
        Some(InputEvent::MouseScroll(MouseScrollEvent { dx: i32::MAX, dy: -240 }))
    );
    let mut down = raw(10);
    down.keycode = 0x08;
    m.suppress = true;
    let v = m.event_tap(&down, true, 0);
    assert_eq!((v.send, v.pass), (key(0x2E, true), false));
    down.event_type = 11;
    assert_eq!(m.event_tap(&down, true, 0).send, key(0x2E, false));
    let nothing = m.event_tap(&raw(14), true, 0);
    assert_eq!((nothing.send, nothing.pass), (None, false));
}

#[test]
fn mac_modifiers_are_captured_from_flags() {
    let mut m = MacInput::new();
    let mut ev = raw(12);
    ev.keycode = 0x38;
    ev.flags = 0x20002;
    assert_eq!(m.event_tap(&ev, true, 0).send, key(0x2A, true));
    assert_eq!(m.prev_flags, 0x20002);
    ev.flags = 0;
    assert_eq!(m.event_tap(&ev, true, 0).send, key(0x2A, false));
    ev.keycode = 0x39;
    ev.flags = 0x10000;
    assert_eq!(m.event_tap(&ev, true, 0).send, key(0x3A, true));
    ev.keycode = 0x3F;
    ev.flags = 0x800000;
    assert_eq!(m.event_tap(&ev, true, 0).send, key(0, true));
    ev.flags = 5;
    assert_eq!(m.event_tap(&ev, true, 0).send, key(0, false));
}

fn post(vk: u16, down: bool, flags_changed: bool, flags: Option<u64>) -> KeyPost {
    KeyPost { vk, down, flags_changed, flags }
}

#[test]
fn mac_keys_are_injected_with_their_modifiers() {
    let mut m = MacInput::new();
    let (i, primed) = MacOSInputInjector::new(&mut m, true);
    assert_eq!(primed, vec![post(0x38, true, false, None), post(0x38, false, false, None)]);
    assert!(MacOSInputInjector::new(&mut m, true).1.is_empty());
    assert_eq!(m.reprime_keyboard_for_focus(), primed);
    assert_eq!(i.send_key(&mut m, 0x1E, true), vec![post(0x00, true, false, None)]);
    assert_eq!(i.send_key(&mut m, 0x2A, true), vec![post(0x38, true, true, Some(0x20002))]);
    assert_eq!(i.send_key(&mut m, 0x36, true), vec![post(0x3C, true, true, Some(0x20006))]);
    assert_eq!(i.send_key(&mut m, 0x1E, true), vec![post(0x00, true, false, Some(0x20006))]);
    assert_eq!(i.send_key(&mut m, 0x2A, false), vec![post(0x38, false, true, Some(0x20004))]);
    assert_eq!(i.send_key(&mut m, 0x136, false), vec![post(0x3C, false, true, Some(0))]);
    assert_eq!(
        i.send_key(&mut m, 0x3A, true),
        vec![post(0x39, true, true, Some(0x10000)), post(0x39, false, true, Some(0))]
    );
    assert!(i.send_key(&mut m, 0x3A, false).is_empty());
    assert!(i.send_key(&mut m, 0x46, true).is_empty());
    assert!(MacOSInputInjector::new(&mut MacInput::new(), false).1.is_empty());
}

#[test]
fn a_mac_modifier_posts_its_flags() {
    let mut m = MacInput::new();
    let (i, _) = MacOSInputInjector::new(&mut m, false);
    m.injected_flags = 0x10_0008;
    assert_eq!(i.inject_modifier(&mut m, 0x36, true), post(0x36, true, true, Some(0x10_0018)));
    assert_eq!(i.inject_modifier(&mut m, 0x37, false), post(0x37, false, true, Some(0x10_0010)));
    assert_eq!(i.inject_modifier(&mut m, 0x3E, true), post(0x3E, true, true, Some(0x14_2010)));
    assert_eq!(i.inject_modifier(&mut m, 0x36, false), post(0x36, false, true, Some(0x4_2000)));
}

#[test]
fn stuck_mac_modifiers_are_released_when_focus_returns() {
    let mut m = MacInput::new();
    let (i, _) = MacOSInputInjector::new(&mut m, false);
    i.send_key(&mut m, 0x1D, true);
    i.send_key(&mut m, 0x15B, true);
    let released: Vec<u16> = m.set_suppress(false, None).iter().map(|p| p.vk).collect();
    assert_eq!(released, vec![0x3B, 0x3E, 0x37, 0x36]);
    assert_eq!(m.injected_flags, 0);
    assert!(m.reset_injected_modifiers().is_empty());
}

#[test]
fn mac_moves_become_drags_while_buttons_are_held() {
    let mut m = MacInput::new();
    let (i, _) = MacOSInputInjector::new(&mut m, false);
    let p = i.move_mouse(&mut m, 10, 20);
    assert_eq!((p.event_type, p.button, p.dx, p.dy), (5, 0, 10, 20));
    let b = i.press_mouse_button(&mut m, MouseButton::Left, true);
    assert_eq!((b.event_type, b.button, b.x, b.y), (1, 0, 10, 20));
    i.press_mouse_button(&mut m, MouseButton::Right, true);
    i.press_mouse_button(&mut m, MouseButton::Right, false);
    assert_eq!(i.move_mouse(&mut m, 9, 9).event_type, 6);
    i.press_mouse_button(&mut m, MouseButton::Left, false);
    i.press_mouse_button(&mut m, MouseButton::Right, true);
    assert_eq!(i.move_mouse(&mut m, 9, 9).event_type, 7);
    i.press_mouse_button(&mut m, MouseButton::Right, false);
    let x = i.press_mouse_button(&mut m, MouseButton::Button5, true);
    assert_eq!((x.event_type, x.button), (25, 4));
    let d = i.move_mouse(&mut m, 9, 9);
    assert_eq!((d.event_type, d.button), (27, 2));
}

#[test]
fn mac_clicks_are_counted() {
    let mut m = MacInput::new();
    let (i, _) = MacOSInputInjector::new(&mut m, false);
    let mut press = |m: &mut MacInput, b, now| i.stamp_mouse_button(m, b, true, now).click_count;
    assert_eq!(press(&mut m, MouseButton::Left, 0), 1);
    assert_eq!(press(&mut m, MouseButton::Left, 499), 2);
    assert_eq!(press(&mut m, MouseButton::Left, 998), 3);
    assert_eq!(press(&mut m, MouseButton::Left, 1498), 1);
    assert_eq!(press(&mut m, MouseButton::Right, 1499), 1);
    m.last_cursor = Point { x: 5, y: -5 };
    assert_eq!(press(&mut m, MouseButton::Right, 1500), 2);
    m.last_cursor = Point { x: 11, y: -5 };
    assert_eq!(press(&mut m, MouseButton::Right, 1501), 1);
    m.injected_flags = 9;
    let up = i.stamp_mouse_button(&mut m, MouseButton::Middle, false, 1502);
    assert_eq!((up.click_count, up.flags, up.button_number), (1, 9, Some(2)));
    let fresh = i.stamp_mouse_button(&mut MacInput::new(), MouseButton::Left, false, 0);
    assert_eq!((fresh.click_count, fresh.button_number), (1, None));
}

#[test]
fn mac_scrolls_by_lines() {
    let cases = [(0, 0), (1, 1), (119, 1), (120, 1), (250, 2), (-1, -1), (-120, -1), (-250, -2)];
    for (units, lines) in cases {
        assert_eq!(scroll_lines(units), lines);
    }
    assert_eq!(scroll_lines(i32::MIN), -17895697);
}

#[test]
fn mac_displays_become_screens() {
    let d = |id, main| Display { id, x: 1, y: 2, width: 3, height: 4, main };
    let s = get_screens_macos(Some(vec![d(7, true), d(4294967295, false)]));
    assert_eq!((s[0].id.as_str(), s[0].primary), ("display-7", true));
    assert_eq!((s[1].id.as_str(), s[1].width), ("display-4294967295", 3));
    assert!(reconfiguration_done(2) && !reconfiguration_done(3));
}

#[test]
fn the_event_tap_asks_for_what_it_captures() {
    for t in 0..64 {
        let mut m = MacInput::new();
        m.set_peers_connected(true);
        let captured = m.event_tap(&raw(t), true, 1000).send.is_some();
        assert_eq!(EVENT_MASK >> t & 1 == 1, captured, "{}", t);
    }
}

#[test]
fn mac_capture_starts_and_stops() {
    let mut c = MacOSInputCapture::new();
    assert!(!c.is_capturing());
    assert_eq!(c.start_capture(), Ok(()));
    assert!(c.is_capturing());
    assert_eq!(c.stop_capture(), Ok(()));
    assert!(!c.is_capturing());
    assert!(MacOSInputCapture::with_permission(true).is_capturing());
}

fn mouse(x: i32, y: i32, mouse_data: u32) -> MouseData {
    MouseData { x, y, mouse_data, extra_info: 0 }
}

fn hooks() -> WindowsInput {
    let mut w = WindowsInput::new();
    assert_eq!(w.start_capture(), Ok(()));
    w
}

#[test]
fn windows_capture_starts_once() {
    let mut w = hooks();
    assert!(w.is_capturing());
    assert_eq!(w.start_capture(), Err("Already capturing".to_string()));
    w.suppress = true;
    w.win_key_suppressed = true;
    w.stop_capture();
    assert!(!w.is_capturing() && !w.is_suppressing() && !w.win_key_suppressed);
}

#[test]
fn windows_suppression_hides_the_cursor_once() {
    let mut w = hooks();
    assert_eq!(w.set_suppress(false), CursorChange::Unchanged);
    assert_eq!(w.set_suppress(true), CursorChange::Hide);
    assert_eq!(w.set_suppress(true), CursorChange::Unchanged);
    assert!(w.is_suppressing());
    assert_eq!(w.set_suppress(false), CursorChange::Show);
}

#[test]
fn suppressed_windows_moves_are_measured_from_the_centre() {
    let mut w = hooks();
    let at = w.init_remote_mouse(
        Point { x: 50, y: 60 },
        0,
        0,
        100,
        100,
        Point { x: -1920, y: 0 },
        3840,
        1081,
    );
    assert_eq!(at, Point { x: 0, y: 540 });
    w.set_suppress(true);
    let v = w.mouse_hook(0, 0x200, &mouse(10, 530, 0));
    assert_eq!((v.send, v.warp, v.result), (moved(60, 50), Some(at), HookResult::Eat));
    let still = w.mouse_hook(0, 0x200, &mouse(0, 540, 0));
    assert_eq!((still.send, still.warp, still.result), (None, None, HookResult::Eat));
    w.cursor = RemoteCursor::at(0, 0, 0, 0, 0, 0);
    assert!(!w.can_take(0, 0x200, &mouse(1, 1, 0)));
    assert!(w.can_take(0, 0x200, &mouse(0, 540, 0)));
    assert!(w.can_take(0, 0x201, &mouse(1, 1, 0)));
}

#[test]
fn windows_mouse_messages_are_captured() {
    let mut w = hooks();
    let cases = [
        (0x200, 0, moved(1, 2)),
        (0x201, 0, button(MouseButton::Left, true)),
        (0x202, 0, button(MouseButton::Left, false)),
        (0x204, 0, button(MouseButton::Right, true)),
        (0x205, 0, button(MouseButton::Right, false)),
        (0x207, 0, button(MouseButton::Middle, true)),
        (0x208, 0, button(MouseButton::Middle, false)),
        (0x20B, 0x10000, button(MouseButton::Button4, true)),
        (0x20C, 0x20000, button(MouseButton::Button5, false)),
        (0x20A, 0xFF88_0000, Some(InputEvent::MouseScroll(MouseScrollEvent { dx: 0, dy: -120 }))),
        (0x20E, 0x0078_0000, Some(InputEvent::MouseScroll(MouseScrollEvent { dx: 120, dy: 0 }))),
    ];
    for (message, data, event) in cases {
        let v = w.mouse_hook(0, message, &mouse(1, 2, data));
        assert_eq!((v.send, v.result), (event, HookResult::Pass));
    }
    w.set_suppress(true);
    assert_eq!(w.mouse_hook(0, 0x201, &mouse(1, 2, 0)).result, HookResult::Eat);
    for (code, message, extra) in [(-1, 0x201, 0), (0, 0x300, 0), (0, 0x201, SHAREFLOW_EXTRA_INFO)] {
        let data = MouseData { extra_info: extra, ..mouse(1, 2, 0) };
        let v = w.mouse_hook(code, message, &data);
        assert_eq!((v.send, v.result), (None, HookResult::CallNext));
    }
}

fn kbd(vk_code: u32, scan_code: u32, flags: u32) -> KeyboardData {
    KeyboardData { vk_code, scan_code, flags, extra_info: 0 }
}

#[test]
fn windows_keys_are_captured() {
    let mut w = hooks();
    let mut hook = |message, data| {
        let v = w.keyboard_hook(0, message, &data);
        (v.send, v.result)
    };
    assert_eq!(hook(0x100, kbd(0x41, 0x1E, 0)), (key(0x1E, true), HookResult::Pass));
    assert_eq!(hook(0x104, kbd(0x41, 0x1E, 0x20)), (key(0x1E, true), HookResult::Pass));
    assert_eq!(hook(0x101, kbd(0xA3, 0x1D, 1)), (key(0x11D, false), HookResult::Pass));
    assert_eq!(hook(0x100, kbd(0xA1, 0x36, 1)), (key(0x36, true), HookResult::Pass));
    let ours = KeyboardData { extra_info: SHAREFLOW_EXTRA_INFO, ..kbd(0x41, 0x1E, 0) };
    assert_eq!(hook(0x100, ours), (None, HookResult::CallNext));
}

#[test]
fn the_windows_key_is_eaten_to_the_end() {
    let mut w = hooks();
    w.set_suppress(true);
    let win = kbd(0x5B, 0x5B, 1);
    assert_eq!(w.keyboard_hook(0, 0x100, &win).result, HookResult::Eat);
    w.set_suppress(false);
    let up = w.keyboard_hook(0, 0x101, &win);
    assert_eq!((up.send, up.result), (key(0x15B, false), HookResult::Eat));
    assert_eq!(w.keyboard_hook(0, 0x100, &win).result, HookResult::Pass);
    assert_eq!(w.keyboard_hook(0, 0x101, &win).result, HookResult::Pass);
}

#[test]
fn held_windows_modifiers_are_released() {
    let vks: Vec<u16> = modifier_keys().iter().map(|k| k.vk).collect();
    assert_eq!(vks, [0x10, 0xA0, 0xA1, 0x11, 0xA2, 0xA3, 0x12, 0xA4, 0xA5, 0x5B, 0x5C]);
    let mut states = [0i16; 11];
    assert!(flush_held_modifier_keys(&states).is_empty());
    states[0] = 1;
    states[2] = i16::MIN;
    states[9] = -1;
    assert_eq!(
        flush_held_modifier_keys(&states),
        vec![
            KeyInput { vk: 0, scan: 0x36, flags: 0xA },
            KeyInput { vk: 0, scan: 0x5B, flags: 0xB },
        ]
    );
}

#[test]
fn windows_input_is_injected() {
    let i = WindowsInputInjector::new();
    let click = |b, p| {
        let m = i.press_mouse_button(b, p);
        (m.flags, m.mouse_data)
    };
    assert_eq!(click(MouseButton::Left, true), (2, 0));
    assert_eq!(click(MouseButton::Right, false), (0x10, 0));
    assert_eq!(click(MouseButton::Middle, true), (0x20, 0));
    assert_eq!(click(MouseButton::Button4, true), (0x80, 1));
    assert_eq!(click(MouseButton::Button5, false), (0x100, 2));
    assert_eq!(
        i.scroll(3, -4),
        vec![
            MouseInput { mouse_data: -4, flags: 0x800 },
            MouseInput { mouse_data: 3, flags: 0x1000 },
        ]
    );
    assert!(i.scroll(0, 0).is_empty());
    assert_eq!(i.send_key(0x1E, true), KeyInput { vk: 0, scan: 0x1E, flags: 8 });
    assert_eq!(i.send_key(0x1E, false), KeyInput { vk: 0, scan: 0x1E, flags: 0xA });
    assert_eq!(i.send_key(0x11D, true), KeyInput { vk: 0, scan: 0x1D, flags: 9 });
    assert_eq!(i.send_key(0x3A, true), KeyInput { vk: 0x14, scan: 0, flags: 0 });
    assert_eq!(i.send_key(0x45, false), KeyInput { vk: 0x90, scan: 0, flags: 2 });
    assert_eq!(i.send_key(0x46, true), KeyInput { vk: 0x91, scan: 0, flags: 0 });
}

#[test]
fn linux_input_is_not_implemented() {
    let (mut c, events) = LinuxInputCapture::new_with_channel();
    assert!(events.is_none() && !c.is_capturing());
    assert_eq!(
        c.start_capture(),
        Err("Linux input capture not yet implemented (requires evdev). \
             Run on Windows or macOS, or contribute an evdev-based implementation."
            .to_string())
    );
    assert_eq!(c.stop_capture(), Ok(()));
    let i = LinuxInputInjector::new();
    assert!(i.move_mouse(0, 0).unwrap_err().starts_with("Linux mouse injection"));
    assert!(i.press_mouse_button(MouseButton::Left, true).unwrap_err().starts_with("Linux mouse button"));
    assert!(i.scroll(0, 0).unwrap_err().starts_with("Linux scroll injection"));
    assert!(i.send_key(0, true).unwrap_err().starts_with("Linux key injection"));
    assert_eq!(get_screens_linux()[0].id, "main");
}
