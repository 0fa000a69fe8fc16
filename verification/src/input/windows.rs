//! Input on Windows: what the low-level hooks make of an event, and what is sent to inject one.
use crate::commands;
use crate::commands::half_of;
use crate::input::cursor::{Point, RemoteCursor};
use crate::input::InputEvent;
use crate::protocol::{
    KeyEvent, MouseButton, MouseButtonEvent, MouseMoveEvent, MouseScrollEvent,
};
use vstd::prelude::*;

verus! {

pub const WM_KEYDOWN: u32 = 0x0100;

pub const WM_SYSKEYDOWN: u32 = 0x0104;

pub const WM_MOUSEMOVE: u32 = 0x0200;

pub const WM_LBUTTONDOWN: u32 = 0x0201;

pub const WM_LBUTTONUP: u32 = 0x0202;

pub const WM_RBUTTONDOWN: u32 = 0x0204;

pub const WM_RBUTTONUP: u32 = 0x0205;

pub const WM_MBUTTONDOWN: u32 = 0x0207;

pub const WM_MBUTTONUP: u32 = 0x0208;

pub const WM_MOUSEWHEEL: u32 = 0x020A;

pub const WM_XBUTTONDOWN: u32 = 0x020B;

pub const WM_XBUTTONUP: u32 = 0x020C;

pub const WM_MOUSEHWHEEL: u32 = 0x020E;

pub const MOUSEEVENTF_LEFTDOWN: u32 = 0x0002;

pub const MOUSEEVENTF_LEFTUP: u32 = 0x0004;

pub const MOUSEEVENTF_RIGHTDOWN: u32 = 0x0008;

pub const MOUSEEVENTF_RIGHTUP: u32 = 0x0010;

pub const MOUSEEVENTF_MIDDLEDOWN: u32 = 0x0020;

pub const MOUSEEVENTF_MIDDLEUP: u32 = 0x0040;

pub const MOUSEEVENTF_XDOWN: u32 = 0x0080;

pub const MOUSEEVENTF_XUP: u32 = 0x0100;

pub const MOUSEEVENTF_WHEEL: u32 = 0x0800;

pub const MOUSEEVENTF_HWHEEL: u32 = 0x1000;

pub const KEYEVENTF_EXTENDEDKEY: u32 = 0x0001;

pub const KEYEVENTF_KEYUP: u32 = 0x0002;

pub const KEYEVENTF_SCANCODE: u32 = 0x0008;

/// Marker value set on our own synthetic events, to identify them.
pub const SHAREFLOW_EXTRA_INFO: usize = 0x5346_4C57;

pub const VK_LWIN: u32 = 0x5B;

pub const VK_RWIN: u32 = 0x5C;

/// The scancode of Right Shift, which is no extended key though Windows may say so.
pub const SC_RSHIFT: u16 = 0x36;

/// The bit of a scancode that stands for an extended key.
pub const SC_EXTENDED: u16 = 0x100;

/// What becomes of an event in a hook.
#[derive(Debug, Clone, Copy, PartialEq, Eq, Structural)]
pub enum HookResult {
    /// The next hook decides.
    CallNext,
    /// The event reaches the applications.
    Pass,
    /// The event is consumed.
    Eat,
}

/// What a hook makes of an event.
#[derive(Debug, Clone, Copy, PartialEq, Eq, Structural)]
pub struct HookVerdict {
    /// What is captured.
    pub send: Option<InputEvent>,
    /// Where to warp the cursor to.
    pub warp: Option<Point>,
    pub result: HookResult,
}

/// What the mouse hook is told of an event.
#[derive(Debug, Clone, Copy, PartialEq, Eq, Structural)]
pub struct MouseData {
    pub x: i32,
    pub y: i32,
    pub mouse_data: u32,
    pub extra_info: usize,
}

/// What the keyboard hook is told of an event.
#[derive(Debug, Clone, Copy, PartialEq, Eq, Structural)]
pub struct KeyboardData {
    pub vk_code: u32,
    pub scan_code: u32,
    pub flags: u32,
    pub extra_info: usize,
}

/// A mouse event to send.
#[derive(Debug, Clone, Copy, PartialEq, Eq, Structural)]
pub struct MouseInput {
    pub mouse_data: i32,
    pub flags: u32,
}

/// A keyboard event to send.
#[derive(Debug, Clone, Copy, PartialEq, Eq, Structural)]
pub struct KeyInput {
    pub vk: u16,
    pub scan: u16,
    pub flags: u32,
}

/// How the visibility of the cursor changes.
#[derive(Debug, Clone, Copy, PartialEq, Eq, Structural)]
pub enum CursorChange {
    Unchanged,
    Hide,
    Show,
}

/// The state of the hooks.
#[derive(Debug, Clone, Copy, PartialEq, Eq, Structural)]
pub struct WindowsInput {
    pub hook_active: bool,
    /// When true, captured events are not passed to the local system.
    pub suppress: bool,
    /// The Windows key was pressed while suppressing: its release must not reach the shell.
    pub win_key_suppressed: bool,
    pub cursor: RemoteCursor,
    /// The cursor is warped back here on every move while suppressing.
    pub warp_center: Point,
}

/// The high half of mouse data, as a signed number.
pub open spec fn wheel_delta(mouse_data: u32) -> int {
    let high = mouse_data as int / 0x1_0000;
    if high >= 0x8000 {
        high - 0x1_0000
    } else {
        high
    }
}

/// The button that the high half of mouse data names.
pub open spec fn x_button(mouse_data: u32) -> MouseButton {
    if mouse_data as int / 0x1_0000 == 1 {
        MouseButton::Button4
    } else {
        MouseButton::Button5
    }
}

fn wheel_delta_of(mouse_data: u32) -> (r: i32)
    ensures
        r == wheel_delta(mouse_data),
{
    let high: u32 = mouse_data / 0x1_0000;
    if high >= 0x8000 {
        high as i32 - 0x1_0000
    } else {
        high as i32
    }
}

fn x_button_of(mouse_data: u32) -> (r: MouseButton)
    ensures
        r == x_button(mouse_data),
{
    if mouse_data / 0x1_0000 == 1 {
        MouseButton::Button4
    } else {
        MouseButton::Button5
    }
}

/// The event of a mouse button.
pub open spec fn button_event(button: MouseButton, pressed: bool) -> InputEvent {
    InputEvent::MouseButton(MouseButtonEvent { button, pressed })
}

/// The event that a mouse message stands for.
pub open spec fn mouse_event(message: u32, data: MouseData) -> Option<InputEvent> {
    if message == WM_MOUSEMOVE {
        Some(InputEvent::MouseMove(MouseMoveEvent { x: data.x, y: data.y }))
    } else if message == WM_LBUTTONDOWN || message == WM_LBUTTONUP {
        Some(button_event(MouseButton::Left, message == WM_LBUTTONDOWN))
    } else if message == WM_RBUTTONDOWN || message == WM_RBUTTONUP {
        Some(button_event(MouseButton::Right, message == WM_RBUTTONDOWN))
    } else if message == WM_MBUTTONDOWN || message == WM_MBUTTONUP {
        Some(button_event(MouseButton::Middle, message == WM_MBUTTONDOWN))
    } else if message == WM_XBUTTONDOWN || message == WM_XBUTTONUP {
        Some(button_event(x_button(data.mouse_data), message == WM_XBUTTONDOWN))
    } else if message == WM_MOUSEWHEEL {
        let dy = wheel_delta(data.mouse_data) as i32;
        Some(InputEvent::MouseScroll(MouseScrollEvent { dx: 0, dy }))
    } else if message == WM_MOUSEHWHEEL {
        let dx = wheel_delta(data.mouse_data) as i32;
        Some(InputEvent::MouseScroll(MouseScrollEvent { dx, dy: 0 }))
    } else {
        None
    }
}

fn mouse_event_of(message: u32, data: &MouseData) -> (r: Option<InputEvent>)
    ensures
        r == mouse_event(message, *data),
{
    let (button, pressed) = match message {
        WM_MOUSEMOVE => {
            return Some(InputEvent::MouseMove(MouseMoveEvent { x: data.x, y: data.y }));
        },
        WM_MOUSEWHEEL => {
            let dy: i32 = wheel_delta_of(data.mouse_data);
            return Some(InputEvent::MouseScroll(MouseScrollEvent { dx: 0, dy }));
        },
        WM_MOUSEHWHEEL => {
            let dx: i32 = wheel_delta_of(data.mouse_data);
            return Some(InputEvent::MouseScroll(MouseScrollEvent { dx, dy: 0 }));
        },
        WM_LBUTTONDOWN => (MouseButton::Left, true),
        WM_LBUTTONUP => (MouseButton::Left, false),
        WM_RBUTTONDOWN => (MouseButton::Right, true),
        WM_RBUTTONUP => (MouseButton::Right, false),
        WM_MBUTTONDOWN => (MouseButton::Middle, true),
        WM_MBUTTONUP => (MouseButton::Middle, false),
        WM_XBUTTONDOWN => (x_button_of(data.mouse_data), true),
        WM_XBUTTONUP => (x_button_of(data.mouse_data), false),
        _ => {
            return None;
        },
    };
    Some(InputEvent::MouseButton(MouseButtonEvent { button, pressed }))
}

/// The scancode of a key as it travels between peers: extended keys have a bit of their own.
pub open spec fn protocol_scancode(data: KeyboardData) -> u16 {
    let scancode = (data.scan_code % 0x1_0000) as u16;
    if data.flags % 2 == 1 && scancode != SC_RSHIFT {
        scancode | SC_EXTENDED
    } else {
        scancode
    }
}

/// The key event that a keyboard message stands for.
pub open spec fn key_event(message: u32, data: KeyboardData) -> KeyEvent {
    KeyEvent {
        scancode: protocol_scancode(data),
        pressed: message == WM_KEYDOWN || message == WM_SYSKEYDOWN,
    }
}

impl WindowsInput {
    /// What the mouse hook makes of an event. While a remote machine is controlled, the movement
    /// away from the centre moves the cursor there, and the local one is warped back.
    pub open spec fn moused(self, code: i32, message: u32, data: MouseData) -> (
        WindowsInput,
        HookVerdict,
    ) {
        let next = HookVerdict { send: None, warp: None, result: HookResult::CallNext };
        if code < 0 || !self.hook_active || data.extra_info == SHAREFLOW_EXTRA_INFO {
            (self, next)
        } else if self.suppress && message == WM_MOUSEMOVE {
            let (dx, dy) = (data.x - self.warp_center.x, data.y - self.warp_center.y);
            let eaten = HookVerdict { send: None, warp: None, result: HookResult::Eat };
            if dx == 0 && dy == 0 {
                (self, eaten)
            } else {
                let cursor = self.cursor.moved(dx, dy);
                let at = MouseMoveEvent { x: cursor.x, y: cursor.y };
                (
                    WindowsInput { cursor, ..self },
                    HookVerdict {
                        send: Some(InputEvent::MouseMove(at)),
                        warp: Some(self.warp_center),
                        ..eaten
                    },
                )
            }
        } else {
            match mouse_event(message, data) {
                None => (self, next),
                Some(event) => (
                    self,
                    HookVerdict {
                        send: Some(event),
                        warp: None,
                        result: if self.suppress {
                            HookResult::Eat
                        } else {
                            HookResult::Pass
                        },
                    },
                ),
            }
        }
    }

    /// What the keyboard hook makes of an event. A release of the Windows key is consumed if its
    /// press was, since it would open the Start menu.
    pub open spec fn keyed(self, code: i32, message: u32, data: KeyboardData) -> (
        WindowsInput,
        HookVerdict,
    ) {
        if code < 0 || !self.hook_active || data.extra_info == SHAREFLOW_EXTRA_INFO {
            (self, HookVerdict { send: None, warp: None, result: HookResult::CallNext })
        } else {
            let event = key_event(message, data);
            let win_key = data.vk_code == VK_LWIN || data.vk_code == VK_RWIN;
            let late_release = win_key && !event.pressed && self.win_key_suppressed;
            (
                if win_key && (self.suppress || late_release) {
                    WindowsInput { win_key_suppressed: event.pressed, ..self }
                } else {
                    self
                },
                HookVerdict {
                    send: Some(InputEvent::Key(event)),
                    warp: None,
                    result: if self.suppress || late_release {
                        HookResult::Eat
                    } else {
                        HookResult::Pass
                    },
                },
            )
        }
    }

    /// Whether an event can be handled: while a remote machine is controlled, a move needs a screen
    /// to move on.
    pub open spec fn takes(self, code: i32, message: u32, data: MouseData) -> bool {
        code >= 0 && self.hook_active && data.extra_info != SHAREFLOW_EXTRA_INFO && self.suppress
            && message == WM_MOUSEMOVE && (data.x != self.warp_center.x || data.y
            != self.warp_center.y) ==> self.cursor.has_room()
    }

    pub fn new() -> (r: Self)
        ensures
            r == (WindowsInput {
                hook_active: false,
                suppress: false,
                win_key_suppressed: false,
                cursor: RemoteCursor { x: 0, y: 0, left: 0, top: 0, right: 1920, bottom: 1080 },
                warp_center: Point { x: 0, y: 0 },
            }),
    {
        WindowsInput {
            hook_active: false,
            suppress: false,
            win_key_suppressed: false,
            cursor: RemoteCursor::new(),
            warp_center: Point { x: 0, y: 0 },
        }
    }

    /// Start capturing.
    pub fn start_capture(&mut self) -> (r: Result<(), String>)
        ensures
            r is Ok <==> !old(self).hook_active,
            r matches Err(e) ==> e@ == "Already capturing"@,
            *final(self) == (WindowsInput { hook_active: true, ..*old(self) }),
    {
        if self.hook_active {
            return Err("Already capturing".to_string());
        }
        self.hook_active = true;
        Ok(())
    }

    /// Stop capturing. Nothing is suppressed any more.
    pub fn stop_capture(&mut self)
        ensures
            *final(self) == (WindowsInput {
                hook_active: false,
                suppress: false,
                win_key_suppressed: false,
                ..*old(self)
            }),
    {
        self.hook_active = false;
        self.suppress = false;
        self.win_key_suppressed = false;
    }

    pub fn is_capturing(&self) -> (r: bool)
        ensures
            r == self.hook_active,
    {
        self.hook_active
    }

    /// Enable or disable input suppression. The cursor is hidden while it is on.
    pub fn set_suppress(&mut self, suppress: bool) -> (r: CursorChange)
        ensures
            *final(self) == (WindowsInput { suppress, ..*old(self) }),
            r == if old(self).suppress == suppress {
                CursorChange::Unchanged
            } else if suppress {
                CursorChange::Hide
            } else {
                CursorChange::Show
            },
    {
        let prev = self.suppress;
        self.suppress = suppress;
        if prev == suppress {
            CursorChange::Unchanged
        } else if suppress {
            CursorChange::Hide
        } else {
            CursorChange::Show
        }
    }

    pub fn is_suppressing(&self) -> (r: bool)
        ensures
            r == self.suppress,
    {
        self.suppress
    }

    /// Initialize remote mouse control: set virtual position, and the centre of the local desktop
    /// as the point that the cursor is warped to. Returns that point.
    pub fn init_remote_mouse(
        &mut self,
        entry: Point,
        rs_x: i32,
        rs_y: i32,
        rs_w: i32,
        rs_h: i32,
        desktop: Point,
        desktop_w: i32,
        desktop_h: i32,
    ) -> (r: Point)
        requires
            i32::MIN <= rs_x + rs_w <= i32::MAX,
            i32::MIN <= rs_y + rs_h <= i32::MAX,
            i32::MIN <= desktop.x + commands::half(desktop_w as int) <= i32::MAX,
            i32::MIN <= desktop.y + commands::half(desktop_h as int) <= i32::MAX,
        ensures
            r.x == desktop.x + commands::half(desktop_w as int),
            r.y == desktop.y + commands::half(desktop_h as int),
            *final(self) == (WindowsInput {
                cursor: RemoteCursor {
                    x: entry.x,
                    y: entry.y,
                    left: rs_x,
                    top: rs_y,
                    right: (rs_x + rs_w) as i32,
                    bottom: (rs_y + rs_h) as i32,
                },
                warp_center: r,
                ..*old(self)
            }),
    {
        self.cursor = RemoteCursor::at(entry.x, entry.y, rs_x, rs_y, rs_w, rs_h);
        let cx: i64 = desktop.x as i64 + half_of(desktop_w);
        let cy: i64 = desktop.y as i64 + half_of(desktop_h);
        self.warp_center = Point { x: cx as i32, y: cy as i32 };
        self.warp_center
    }

    /// Whether an event can be handled: while a remote machine is controlled, a move needs a screen
    /// to move on.
    pub fn can_take(&self, code: i32, message: u32, data: &MouseData) -> (r: bool)
        ensures
            r == self.takes(code, message, *data),
    {
        let remote_move = code >= 0 && self.hook_active && data.extra_info != SHAREFLOW_EXTRA_INFO
            && self.suppress && message == WM_MOUSEMOVE && (data.x != self.warp_center.x || data.y
            != self.warp_center.y);
        !remote_move || self.cursor.is_roomy()
    }

    /// Decide what becomes of an event in the mouse hook.
    pub fn mouse_hook(&mut self, code: i32, message: u32, data: &MouseData) -> (r: HookVerdict)
        requires
            old(self).takes(code, message, *data),
        ensures
            (*final(self), r) == old(self).moused(code, message, *data),
    {
        if code >= 0 && self.hook_active {
            if data.extra_info == SHAREFLOW_EXTRA_INFO {
                return HookVerdict { send: None, warp: None, result: HookResult::CallNext };
            }
            if self.suppress && message == WM_MOUSEMOVE {
                let dx: i64 = data.x as i64 - self.warp_center.x as i64;
                let dy: i64 = data.y as i64 - self.warp_center.y as i64;
                if dx != 0 || dy != 0 {
                    let at = self.cursor.move_by(dx, dy);
                    return HookVerdict {
                        send: Some(InputEvent::MouseMove(at)),
                        warp: Some(self.warp_center),
                        result: HookResult::Eat,
                    };
                }
                return HookVerdict { send: None, warp: None, result: HookResult::Eat };
            }
            if let Some(event) = mouse_event_of(message, data) {
                let result = if self.suppress {
                    HookResult::Eat
                } else {
                    HookResult::Pass
                };
                return HookVerdict { send: Some(event), warp: None, result };
            }
        }
        HookVerdict { send: None, warp: None, result: HookResult::CallNext }
    }

    /// Decide what becomes of an event in the keyboard hook.
    pub fn keyboard_hook(
        &mut self,
        code: i32,
        message: u32,
        data: &KeyboardData,
    ) -> (r: HookVerdict)
        ensures
            (*final(self), r) == old(self).keyed(code, message, *data),
    {
        if code < 0 || !self.hook_active || data.extra_info == SHAREFLOW_EXTRA_INFO {
            return HookVerdict { send: None, warp: None, result: HookResult::CallNext };
        }
        let pressed = message == WM_KEYDOWN || message == WM_SYSKEYDOWN;
        let mut scancode: u16 = (data.scan_code % 0x1_0000) as u16;
        if data.flags % 2 == 1 && scancode != SC_RSHIFT {
            scancode = scancode | SC_EXTENDED;
        }
        let send = Some(InputEvent::Key(KeyEvent { scancode, pressed }));
        if data.vk_code == VK_LWIN || data.vk_code == VK_RWIN {
            if self.suppress {
                self.win_key_suppressed = pressed;
                return HookVerdict { send, warp: None, result: HookResult::Eat };
            } else if !pressed && self.win_key_suppressed {
                self.win_key_suppressed = false;
                return HookVerdict { send, warp: None, result: HookResult::Eat };
            }
        }
        let result = if self.suppress {
            HookResult::Eat
        } else {
            HookResult::Pass
        };
        HookVerdict { send, warp: None, result }
    }
}


/// A modifier key: its virtual keycode, and the scancode that releases it.
#[derive(Debug, Clone, Copy, PartialEq, Eq, Structural)]
pub struct ModifierKey {
    pub vk: u16,
    pub scan: u16,
    pub extended: bool,
}

/// The modifier keys, in the order in which they are released.
pub open spec fn spec_modifier_keys() -> Seq<ModifierKey> {
    seq![
        ModifierKey { vk: 0x10, scan: 0x2A, extended: false },  // Shift (generic)
        ModifierKey { vk: 0xA0, scan: 0x2A, extended: false },  // Left Shift
        ModifierKey { vk: 0xA1, scan: 0x36, extended: false },  // Right Shift
        ModifierKey { vk: 0x11, scan: 0x1D, extended: false },  // Control (generic)
        ModifierKey { vk: 0xA2, scan: 0x1D, extended: false },  // Left Control
        ModifierKey { vk: 0xA3, scan: 0x1D, extended: true },  // Right Control
        ModifierKey { vk: 0x12, scan: 0x38, extended: false },  // Alt (generic)
        ModifierKey { vk: 0xA4, scan: 0x38, extended: false },  // Left Alt
        ModifierKey { vk: 0xA5, scan: 0x38, extended: true },  // Right Alt
        ModifierKey { vk: 0x5B, scan: 0x5B, extended: true },  // Left Windows
        ModifierKey { vk: 0x5C, scan: 0x5C, extended: true },  // Right Windows
    ]
}

/// The modifier keys, in the order in which they are released.
pub fn modifier_keys() -> (r: Vec<ModifierKey>)
    ensures
        r@ == spec_modifier_keys(),
{
    let mut keys: Vec<ModifierKey> = Vec::new();
    keys.push(ModifierKey { vk: 0x10, scan: 0x2A, extended: false });
    keys.push(ModifierKey { vk: 0xA0, scan: 0x2A, extended: false });
    keys.push(ModifierKey { vk: 0xA1, scan: 0x36, extended: false });
    keys.push(ModifierKey { vk: 0x11, scan: 0x1D, extended: false });
    keys.push(ModifierKey { vk: 0xA2, scan: 0x1D, extended: false });
    keys.push(ModifierKey { vk: 0xA3, scan: 0x1D, extended: true });
    keys.push(ModifierKey { vk: 0x12, scan: 0x38, extended: false });
    keys.push(ModifierKey { vk: 0xA4, scan: 0x38, extended: false });
    keys.push(ModifierKey { vk: 0xA5, scan: 0x38, extended: true });
    keys.push(ModifierKey { vk: 0x5B, scan: 0x5B, extended: true });
    keys.push(ModifierKey { vk: 0x5C, scan: 0x5C, extended: true });
    assert(keys@ =~= spec_modifier_keys());
    keys
}

/// The event that releases a modifier key.
pub open spec fn release_of(key: ModifierKey) -> KeyInput {
    KeyInput {
        vk: 0,
        scan: key.scan,
        flags: if key.extended {
            KEYEVENTF_SCANCODE | KEYEVENTF_KEYUP | KEYEVENTF_EXTENDEDKEY
        } else {
            KEYEVENTF_SCANCODE | KEYEVENTF_KEYUP
        },
    }
}

/// The events that release those of the first `n` modifier keys that are held: the high bit of the
/// state of a key is set, so that it is negative.
pub open spec fn releases(states: Seq<i16>, n: nat) -> Seq<KeyInput>
    decreases n,
{
    if n == 0 {
        Seq::empty()
    } else {
        let rest = releases(states, (n - 1) as nat);
        if states[n - 1] < 0 {
            rest.push(release_of(spec_modifier_keys()[n - 1]))
        } else {
            rest
        }
    }
}

/// The events that release the modifier keys that are held, before input is suppressed: their
/// releases would go to the remote machine. `states` holds the state of each of the modifier keys.
pub fn flush_held_modifier_keys(states: &[i16]) -> (r: Vec<KeyInput>)
    requires
        states@.len() == 11,
    ensures
        r@ == releases(states@, 11),
{
    let keys = modifier_keys();
    let mut inputs: Vec<KeyInput> = Vec::new();
    let mut i: usize = 0;
    while i < 11
        invariant
            i <= 11,
            states@.len() == 11,
            keys@ == spec_modifier_keys(),
            inputs@ == releases(states@, i as nat),
        decreases 11 - i,
    {
        if states[i] < 0 {
            let key = keys[i];
            let mut flags: u32 = KEYEVENTF_SCANCODE | KEYEVENTF_KEYUP;
            if key.extended {
                flags = flags | KEYEVENTF_EXTENDEDKEY;
            }
            inputs.push(KeyInput { vk: 0, scan: key.scan, flags });
        }
        i += 1;
    }
    inputs
}

/// The flags of a mouse button event.
pub open spec fn button_flags(button: MouseButton, pressed: bool) -> u32 {
    match (button, pressed) {
        (MouseButton::Left, true) => MOUSEEVENTF_LEFTDOWN,
        (MouseButton::Left, false) => MOUSEEVENTF_LEFTUP,
        (MouseButton::Right, true) => MOUSEEVENTF_RIGHTDOWN,
        (MouseButton::Right, false) => MOUSEEVENTF_RIGHTUP,
        (MouseButton::Middle, true) => MOUSEEVENTF_MIDDLEDOWN,
        (MouseButton::Middle, false) => MOUSEEVENTF_MIDDLEUP,
        (_, true) => MOUSEEVENTF_XDOWN,
        (_, false) => MOUSEEVENTF_XUP,
    }
}

/// The virtual keycode of a key that latches. Sent by scancode it would act as a held modifier.
pub open spec fn toggle_vk(scancode: u16) -> Option<u16> {
    if scancode == 0x3A {
        Some(0x14)  // Caps Lock
    } else if scancode == 0x45 {
        Some(0x90)  // Num Lock
    } else if scancode == 0x46 {
        Some(0x91)  // Scroll Lock
    } else {
        None
    }
}

/// The event that injects a key.
pub open spec fn key_input(scancode: u16, pressed: bool) -> KeyInput {
    let up = if pressed {
        0u32
    } else {
        KEYEVENTF_KEYUP
    };
    match toggle_vk(scancode) {
        Some(vk) => KeyInput { vk, scan: 0, flags: up },
        None => if scancode > 0xFF {
            KeyInput {
                vk: 0,
                scan: scancode & 0xFF,
                flags: KEYEVENTF_SCANCODE | up | KEYEVENTF_EXTENDEDKEY,
            }
        } else {
            KeyInput { vk: 0, scan: scancode, flags: KEYEVENTF_SCANCODE | up }
        },
    }
}

/// What is sent to inject an event.
pub struct WindowsInputInjector;

impl WindowsInputInjector {
    pub fn new() -> (r: Self)
        ensures
            r == WindowsInputInjector,
    {
        WindowsInputInjector
    }

    /// Inject a mouse button.
    pub fn press_mouse_button(&self, button: MouseButton, pressed: bool) -> (r: MouseInput)
        ensures
            r.flags == button_flags(button, pressed),
            r.mouse_data == if button == MouseButton::Button4 {
                1int
            } else if button == MouseButton::Button5 {
                2
            } else {
                0
            },
    {
        let flags: u32 = match (button, pressed) {
            (MouseButton::Left, true) => MOUSEEVENTF_LEFTDOWN,
            (MouseButton::Left, false) => MOUSEEVENTF_LEFTUP,
            (MouseButton::Right, true) => MOUSEEVENTF_RIGHTDOWN,
            (MouseButton::Right, false) => MOUSEEVENTF_RIGHTUP,
            (MouseButton::Middle, true) => MOUSEEVENTF_MIDDLEDOWN,
            (MouseButton::Middle, false) => MOUSEEVENTF_MIDDLEUP,
            (_, true) => MOUSEEVENTF_XDOWN,
            (_, false) => MOUSEEVENTF_XUP,
        };
        let mouse_data: i32 = match button {
            MouseButton::Button4 => 1,
            MouseButton::Button5 => 2,
            _ => 0,
        };
        MouseInput { mouse_data, flags }
    }

    /// Inject a scroll: first the vertical part, then the horizontal one, as far as there is any.
    pub fn scroll(&self, dx: i32, dy: i32) -> (r: Vec<MouseInput>)
        ensures
            r@ == (if dy != 0 {
                seq![MouseInput { mouse_data: dy, flags: MOUSEEVENTF_WHEEL }]
            } else {
                Seq::empty()
            }) + (if dx != 0 {
                seq![MouseInput { mouse_data: dx, flags: MOUSEEVENTF_HWHEEL }]
            } else {
                Seq::empty()
            }),
    {
        let mut inputs: Vec<MouseInput> = Vec::new();
        if dy != 0 {
            inputs.push(MouseInput { mouse_data: dy, flags: MOUSEEVENTF_WHEEL });
        }
        if dx != 0 {
            inputs.push(MouseInput { mouse_data: dx, flags: MOUSEEVENTF_HWHEEL });
        }
        inputs
    }

    /// Inject a key.
    pub fn send_key(&self, scancode: u16, pressed: bool) -> (r: KeyInput)
        ensures
            r == key_input(scancode, pressed),
    {
        let up: u32 = if pressed {
            0
        } else {
            KEYEVENTF_KEYUP
        };
        let toggle: Option<u16> = match scancode {
            0x3A => Some(0x14),
            0x45 => Some(0x90),
            0x46 => Some(0x91),
            _ => None,
        };
        if let Some(vk) = toggle {
            return KeyInput { vk, scan: 0, flags: up };
        }
        let mut flags: u32 = KEYEVENTF_SCANCODE | up;
        let mut scan: u16 = scancode;
        if scancode > 0xFF {
            flags = flags | KEYEVENTF_EXTENDEDKEY;
            scan = scancode & 0xFF;
        }
        KeyInput { vk: 0, scan, flags }
    }
}

/// An event that was injected here is captured by nobody: what a peer sends is not sent back.
pub proof fn lemma_synthetic_events_are_skipped(
    input: WindowsInput,
    code: i32,
    message: u32,
    mouse: MouseData,
    keyboard: KeyboardData,
)
    requires
        mouse.extra_info == SHAREFLOW_EXTRA_INFO,
        keyboard.extra_info == SHAREFLOW_EXTRA_INFO,
    ensures
        input.moused(code, message, mouse).0 == input,
        input.moused(code, message, mouse).1.send is None,
        input.keyed(code, message, keyboard).0 == input,
        input.keyed(code, message, keyboard).1.send is None,
{
}

/// While a remote machine is controlled, no key and no mouse event of this machine reaches its
/// applications, and the cursor there stays on the screen.
pub proof fn lemma_suppressed_events_are_eaten(
    input: WindowsInput,
    code: i32,
    message: u32,
    mouse: MouseData,
    keyboard: KeyboardData,
)
    requires
        input.suppress,
        input.hook_active,
        code >= 0,
        mouse.extra_info != SHAREFLOW_EXTRA_INFO,
        keyboard.extra_info != SHAREFLOW_EXTRA_INFO,
        input.cursor.on_screen(),
    ensures
        mouse_event(message, mouse) is Some ==> input.moused(code, message, mouse).1.result
            == HookResult::Eat,
        input.moused(code, message, mouse).0.cursor.on_screen(),
        input.keyed(code, message, keyboard).1.result == HookResult::Eat,
{
}

/// The shell never sees a release of the Windows key whose press was consumed, even if suppression
/// ends in between.
pub proof fn lemma_win_key_release_is_eaten(
    input: WindowsInput,
    press: KeyboardData,
    release: KeyboardData,
    release_message: u32,
    suppress_later: bool,
)
    requires
        input.hook_active,
        press.vk_code == VK_LWIN || press.vk_code == VK_RWIN,
        release.vk_code == press.vk_code,
        press.extra_info != SHAREFLOW_EXTRA_INFO,
        release.extra_info != SHAREFLOW_EXTRA_INFO,
        release_message != WM_KEYDOWN,
        release_message != WM_SYSKEYDOWN,
        input.keyed(0, WM_KEYDOWN, press).1.result == HookResult::Eat,
    ensures
        ({
            let (down, _) = input.keyed(0, WM_KEYDOWN, press);
            let later = WindowsInput { suppress: suppress_later, ..down };
            later.keyed(0, release_message, release).1.result == HookResult::Eat
        }),
{
}

/// A key that was captured is injected as the same key on another Windows machine: its scancode
/// and whether it is extended come through. Keys that latch go by their virtual keycodes.
pub proof fn lemma_key_round_trip(data: KeyboardData, message: u32)
    requires
        data.scan_code <= 0xFF,
        toggle_vk(protocol_scancode(data)) is None,
    ensures
        ({
            let event = key_event(message, data);
            let input = key_input(event.scancode, event.pressed);
            &&& input.scan == data.scan_code
            &&& input.flags & KEYEVENTF_EXTENDEDKEY != 0 <==> data.flags % 2 == 1 && data.scan_code
                != SC_RSHIFT
            &&& input.flags & KEYEVENTF_KEYUP != 0 <==> !event.pressed
        }),
{
    let sc = data.scan_code as u16;
    assert((sc | 0x100) & 0xFF == sc && (sc | 0x100) > 0xFF) by (bit_vector)
        requires
            sc <= 0xFF,
    ;
    assert((8u32 | 0u32 | 1u32) & 1 != 0 && (8u32 | 2u32 | 1u32) & 1 != 0 && (8u32 | 0u32) & 1 == 0
        && (8u32 | 2u32) & 1 == 0 && (8u32 | 0u32 | 1u32) & 2 == 0 && (8u32 | 2u32 | 1u32) & 2 != 0
        && (8u32 | 0u32) & 2 == 0 && (8u32 | 2u32) & 2 != 0) by (bit_vector);
}

/// A hook takes an event: it is active, and the event is neither its own nor one to pass on unseen.
pub open spec fn hooked(input: WindowsInput, code: i32, extra_info: usize) -> bool {
    code >= 0 && input.hook_active && extra_info != 0x5346_4C57
}

/// What a hook does not take changes nothing, and the next hook decides.
pub proof fn lemma_unhooked_events(
    input: WindowsInput,
    code: i32,
    message: u32,
    mouse: MouseData,
    keyboard: KeyboardData,
)
    ensures
        !hooked(input, code, mouse.extra_info) ==> input.moused(code, message, mouse).0 == input
            && input.moused(code, message, mouse).1.send is None && input.moused(
            code,
            message,
            mouse,
        ).1.warp is None && input.moused(code, message, mouse).1.result is CallNext,
        !hooked(input, code, keyboard.extra_info) ==> input.keyed(code, message, keyboard).0 == input
            && input.keyed(code, message, keyboard).1.send is None && input.keyed(
            code,
            message,
            keyboard,
        ).1.result is CallNext,
{
}

/// The wheel turns by the signed number in the high half of the data: up and down it scrolls
/// vertically, to the sides horizontally.
pub proof fn lemma_wheel(delta: int, low: int, mouse_data: u32)
    requires
        -0x8000 <= delta < 0x8000,
        0 <= low < 0x1_0000,
        mouse_data == (if delta < 0 {
            delta + 0x1_0000
        } else {
            delta
        }) * 0x1_0000 + low,
    ensures
        wheel_delta(mouse_data) == delta,
{
}

/// What is captured of the mouse goes by the number of its message: 0x200 is a move to where the
/// cursor is, 0x201 and 0x202 are the press and the release of the left button, 0x204 and 0x205 of
/// the right, 0x207 and 0x208 of the middle one, 0x20B and 0x20C of one of the two others, and
/// 0x20A and 0x20E turn the wheels.
pub proof fn lemma_mouse_messages(data: MouseData, button: MouseButton, pressed: bool)
    ensures
        mouse_event(0x200, data) == Some(
            InputEvent::MouseMove(MouseMoveEvent { x: data.x, y: data.y }),
        ),
        ({
            let message: u32 = match (button, pressed) {
                (MouseButton::Left, true) => 0x201,
                (MouseButton::Left, false) => 0x202,
                (MouseButton::Right, true) => 0x204,
                (MouseButton::Right, false) => 0x205,
                (MouseButton::Middle, true) => 0x207,
                (MouseButton::Middle, false) => 0x208,
                (_, true) => 0x20B,
                (_, false) => 0x20C,
            };
            let named = match button {
                MouseButton::Button4 => 0x1_0000 <= data.mouse_data < 0x2_0000,
                MouseButton::Button5 => !(0x1_0000 <= data.mouse_data < 0x2_0000),
                _ => true,
            };
            named ==> mouse_event(message, data) == Some(
                InputEvent::MouseButton(MouseButtonEvent { button, pressed }),
            )
        }),
        mouse_event(0x20A, data) matches Some(InputEvent::MouseScroll(ms)) && ms.dx == 0 && ms.dy
            == wheel_delta(data.mouse_data),
        mouse_event(0x20E, data) matches Some(InputEvent::MouseScroll(ms)) && ms.dy == 0 && ms.dx
            == wheel_delta(data.mouse_data),
        forall|message: u32|
            message < 0x200 || message > 0x20E || message == 0x203 || message == 0x206 || message
                == 0x209 || message == 0x20D ==> #[trigger] mouse_event(message, data) is None,
{
}

/// While this machine has control, what the mouse does is captured and reaches the applications, and
/// while it controls another, everything but moves is captured and is eaten. What is no event of the
/// mouse is left to the next hook.
pub proof fn lemma_clicks_are_captured(
    input: WindowsInput,
    code: i32,
    message: u32,
    data: MouseData,
)
    requires
        hooked(input, code, data.extra_info),
        !input.suppress || message != 0x200,
    ensures
        input.moused(code, message, data).0 == input,
        input.moused(code, message, data).1.send == mouse_event(message, data),
        input.moused(code, message, data).1.warp is None,
        mouse_event(message, data) is None ==> input.moused(code, message, data).1.result
            is CallNext,
        mouse_event(message, data) is Some && input.suppress ==> input.moused(
            code,
            message,
            data,
        ).1.result is Eat,
        mouse_event(message, data) is Some && !input.suppress ==> input.moused(
            code,
            message,
            data,
        ).1.result is Pass,
{
}

/// While another machine is controlled, a movement away from the centre moves the cursor there by as
/// much, as far as its screen goes, and the local cursor is put back.
pub proof fn lemma_movement_is_relative(
    input: WindowsInput,
    code: i32,
    data: MouseData,
)
    requires
        hooked(input, code, data.extra_info),
        input.suppress,
        input.cursor.has_room(),
    ensures
        ({
            let (after, verdict) = input.moused(code, 0x200, data);
            let dx = data.x - input.warp_center.x;
            let dy = data.y - input.warp_center.y;
            let c = input.cursor;
            &&& verdict.result is Eat
            &&& dx == 0 && dy == 0 ==> after == input && verdict.send is None && verdict.warp is None
            &&& dx != 0 || dy != 0 ==> {
                &&& verdict.warp == Some(input.warp_center)
                &&& verdict.send == Some(
                    InputEvent::MouseMove(
                        MouseMoveEvent { x: after.cursor.x, y: after.cursor.y },
                    ),
                )
                &&& c.left <= c.x + dx < c.right ==> after.cursor.x == c.x + dx
                &&& c.x + dx < c.left ==> after.cursor.x == c.left
                &&& c.x + dx >= c.right ==> after.cursor.x == c.right - 1
                &&& c.top <= c.y + dy < c.bottom ==> after.cursor.y == c.y + dy
                &&& c.y + dy < c.top ==> after.cursor.y == c.top
                &&& c.y + dy >= c.bottom ==> after.cursor.y == c.bottom - 1
                &&& after.warp_center == input.warp_center && after.suppress
            }
        }),
{
}

/// A key travels by its scancode, with 0x100 added if it is an extended key, and is pressed if the
/// message is 0x100 or 0x104. Right Shift is never extended.
pub proof fn lemma_keys_are_captured(
    input: WindowsInput,
    code: i32,
    message: u32,
    data: KeyboardData,
)
    requires
        hooked(input, code, data.extra_info),
        data.scan_code < 0x100,
    ensures
        input.keyed(code, message, data).1.send matches Some(InputEvent::Key(ke)) && (ke.pressed
            <==> message == 0x100 || message == 0x104) && (data.flags % 2 == 0 || data.scan_code
            == 0x36 ==> ke.scancode == data.scan_code) && (data.flags % 2 == 1 && data.scan_code
            != 0x36 ==> ke.scancode == data.scan_code + 0x100),
        input.suppress ==> input.keyed(code, message, data).1.result is Eat,
        !input.suppress && data.vk_code != 0x5B && data.vk_code != 0x5C ==> input.keyed(
            code,
            message,
            data,
        ).1.result is Pass && input.keyed(code, message, data).0 == input,
        !input.suppress && !input.win_key_suppressed ==> input.keyed(code, message, data).1.result
            is Pass,
        input.keyed(code, message, data).0.cursor == input.cursor,
        input.keyed(code, message, data).0.suppress == input.suppress,
{
    let sc = data.scan_code as u16;
    assert(sc | 0x100 == sc + 0x100) by (bit_vector)
        requires
            sc < 0x100,
    ;
}

/// A key is injected by its scancode, of which an extended one loses its mark and gets a flag, with
/// another flag for a release. Caps Lock, Num Lock and Scroll Lock go by their virtual keycodes.
pub proof fn lemma_keys_are_injected(scancode: u16, pressed: bool)
    requires
        scancode < 0x200,
    ensures
        ({
            let input = key_input(scancode, pressed);
            let latch = scancode == 0x3A || scancode == 0x45 || scancode == 0x46;
            let up: u32 = if pressed {
                0
            } else {
                2
            };
            &&& scancode == 0x3A ==> input.vk == 0x14
            &&& scancode == 0x45 ==> input.vk == 0x90
            &&& scancode == 0x46 ==> input.vk == 0x91
            &&& latch ==> input.scan == 0 && input.flags == up
            &&& !latch ==> input.vk == 0
            &&& !latch && scancode < 0x100 ==> input.scan == scancode && input.flags == 8 + up
            &&& !latch && scancode >= 0x100 ==> input.scan == scancode - 0x100 && input.flags == 9
                + up
        }),
{
    assert(scancode >= 0x100 && scancode < 0x200 ==> scancode & 0xFF == scancode - 0x100)
        by (bit_vector);
    assert(8u32 | 0u32 == 8 && 8u32 | 2u32 == 10 && 8u32 | 0u32 | 1u32 == 9 && 8u32 | 2u32 | 1u32
        == 11) by (bit_vector);
}

/// Each button has a flag for its press, and the next higher one for its release.
pub proof fn lemma_buttons_are_injected()
    ensures
        button_flags(MouseButton::Left, true) == 0x2,
        button_flags(MouseButton::Right, true) == 0x8,
        button_flags(MouseButton::Middle, true) == 0x20,
        button_flags(MouseButton::Button4, true) == 0x80,
        button_flags(MouseButton::Button5, true) == 0x80,
        forall|b: MouseButton|
            #[trigger] button_flags(b, false) == 2 * button_flags(b, true),
        MOUSEEVENTF_WHEEL == 0x800 && MOUSEEVENTF_HWHEEL == 0x1000,
{
    assert forall|b: MouseButton| #[trigger] button_flags(b, false) == 2 * button_flags(
        b,
        true,
    ) by {
        match b {
            MouseButton::Left => {},
            MouseButton::Right => {},
            MouseButton::Middle => {},
            MouseButton::Button4 => {},
            MouseButton::Button5 => {},
        }
    }
}

/// A modifier key that is held is released, with its scancode, and no other key is.
pub proof fn lemma_held_modifiers_are_released(states: Seq<i16>, n: nat)
    requires
        n <= 11,
        states.len() == 11,
    ensures
        forall|i: int|
            0 <= i < n && states[i] < 0 ==> releases(states, n).contains(
                release_of(#[trigger] spec_modifier_keys()[i]),
            ),
        (forall|i: int| 0 <= i < n ==> #[trigger] states[i] >= 0) ==> releases(states, n).len() == 0,
        forall|j: int|
            0 <= j < releases(states, n).len() ==> exists|i: int|
                0 <= i < n && states[i] < 0 && #[trigger] releases(states, n)[j] == release_of(
                    #[trigger] spec_modifier_keys()[i],
                ),
    decreases n,
{
    if n > 0 {
        let m = (n - 1) as nat;
        lemma_held_modifiers_are_released(states, m);
        let (front, all) = (releases(states, m), releases(states, n));
        assert forall|i: int| 0 <= i < n && states[i] < 0 implies all.contains(
            release_of(#[trigger] spec_modifier_keys()[i]),
        ) by {
            let r = release_of(spec_modifier_keys()[i]);
            if i < m {
                let j = choose|j: int| 0 <= j < front.len() && front[j] == r;
                assert(all[j] == r);
            } else {
                assert(all[all.len() - 1] == r);
            }
        }
        assert forall|j: int| 0 <= j < all.len() implies exists|i: int|
            0 <= i < n && states[i] < 0 && #[trigger] all[j] == release_of(
                #[trigger] spec_modifier_keys()[i],
            ) by {
            if j < front.len() {
                assert(all[j] == front[j]);
                let i = choose|i: int|
                    0 <= i < m && states[i] < 0 && front[j] == release_of(
                        #[trigger] spec_modifier_keys()[i],
                    );
                assert(all[j] == release_of(spec_modifier_keys()[i]));
            } else {
                assert(all[j] == release_of(spec_modifier_keys()[m as int]));
            }
        }
    }
}

/// The keys that are released are those of Shift, Control, Alt and Windows, by the scancodes of their
/// left and right ones: those on the right, and the Windows keys, are extended, but for Shift.
pub proof fn lemma_modifier_scancodes(i: int)
    requires
        0 <= i < 11,
    ensures
        spec_modifier_keys().len() == 11,
        ({
            let key = spec_modifier_keys()[i];
            let r = release_of(key);
            &&& key.vk == 0x10 || key.vk == 0xA0 || key.vk == 0xA1 || key.vk == 0x11 || key.vk == 0xA2
                || key.vk == 0xA3 || key.vk == 0x12 || key.vk == 0xA4 || key.vk == 0xA5 || key.vk
                == 0x5B || key.vk == 0x5C
            &&& key.vk == 0x10 || key.vk == 0xA0 ==> r.scan == 0x2A
            &&& key.vk == 0xA1 ==> r.scan == 0x36
            &&& key.vk == 0x11 || key.vk == 0xA2 || key.vk == 0xA3 ==> r.scan == 0x1D
            &&& key.vk == 0x12 || key.vk == 0xA4 || key.vk == 0xA5 ==> r.scan == 0x38
            &&& key.vk == 0x5B || key.vk == 0x5C ==> r.scan == key.vk
            &&& r.vk == 0
            &&& key.vk == 0xA3 || key.vk == 0xA5 || key.vk == 0x5B || key.vk == 0x5C ==> r.flags == 11
            &&& !(key.vk == 0xA3 || key.vk == 0xA5 || key.vk == 0x5B || key.vk == 0x5C) ==> r.flags
                == 10
        }),
        forall|j: int|
            0 <= j < 11 && j != i ==> (#[trigger] spec_modifier_keys()[j]).vk
                != spec_modifier_keys()[i].vk,
{
    assert(8u32 | 2u32 == 10 && 8u32 | 2u32 | 1u32 == 11) by (bit_vector);
}

/// Every event can be handled while the cursor has a screen to move on, and while this machine has
/// control.
pub proof fn lemma_hooks_take_events(
    input: WindowsInput,
    code: i32,
    message: u32,
    data: MouseData,
)
    ensures
        input.cursor.left < input.cursor.right && input.cursor.top < input.cursor.bottom
            ==> input.takes(code, message, data),
        !input.suppress || message != 0x200 ==> input.takes(code, message, data),
{
}

/// The Windows key is known to be held back from its press, while another machine is controlled, to
/// its release, whenever that is. Other keys do not change that.
pub proof fn lemma_win_key_is_remembered(
    input: WindowsInput,
    code: i32,
    message: u32,
    data: KeyboardData,
)
    requires
        hooked(input, code, data.extra_info),
    ensures
        ({
            let after = input.keyed(code, message, data).0;
            let win = data.vk_code == 0x5B || data.vk_code == 0x5C;
            let pressed = message == 0x100 || message == 0x104;
            &&& win && input.suppress ==> after.win_key_suppressed == pressed
            &&& win && !input.suppress && !pressed ==> !after.win_key_suppressed
            &&& win && !input.suppress && pressed ==> after.win_key_suppressed
                == input.win_key_suppressed
            &&& !win ==> after.win_key_suppressed == input.win_key_suppressed
            &&& win && !input.suppress && pressed ==> input.keyed(code, message, data).1.result
                is Pass
        }),
{
}

} // verus!
