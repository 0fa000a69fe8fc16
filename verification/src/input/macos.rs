//! Input on macOS: what the event tap makes of an event, and what is posted to inject one.
use crate::input::cursor::{Point, RemoteCursor};
use crate::input::keycodes;
use crate::input::keycodes::{mac_vk_to_scancode, scancode_to_mac_vk};
use crate::input::InputEvent;
use crate::protocol::{
    KeyEvent, MouseButton, MouseButtonEvent, MouseMoveEvent, MouseScrollEvent, ScreenInfo,
};
use crate::scale;
use crate::screen;
use crate::screen::default_screen;
use crate::text;
use crate::text::push_decimal;
use vstd::prelude::*;

verus! {

pub const KCG_EVENT_LEFT_MOUSE_DOWN: u32 = 1;

pub const KCG_EVENT_LEFT_MOUSE_UP: u32 = 2;

pub const KCG_EVENT_RIGHT_MOUSE_DOWN: u32 = 3;

pub const KCG_EVENT_RIGHT_MOUSE_UP: u32 = 4;

pub const KCG_EVENT_MOUSE_MOVED: u32 = 5;

pub const KCG_EVENT_LEFT_MOUSE_DRAGGED: u32 = 6;

pub const KCG_EVENT_RIGHT_MOUSE_DRAGGED: u32 = 7;

pub const KCG_EVENT_KEY_DOWN: u32 = 10;

pub const KCG_EVENT_KEY_UP: u32 = 11;

pub const KCG_EVENT_FLAGS_CHANGED: u32 = 12;

pub const KCG_EVENT_SCROLL_WHEEL: u32 = 22;

pub const KCG_EVENT_OTHER_MOUSE_DOWN: u32 = 25;

pub const KCG_EVENT_OTHER_MOUSE_UP: u32 = 26;

pub const KCG_EVENT_OTHER_MOUSE_DRAGGED: u32 = 27;

pub const KCG_EVENT_TAP_DISABLED_BY_TIMEOUT: u32 = 0xFFFF_FFFE;

/// Stamped on injected events, so that the event tap can tell them apart. It travels with the
/// event.
pub const SHAREFLOW_EVENT_MARKER: i64 = 0x5346_4C57;

pub const KCG_EVENT_FLAG_MASK_ALPHA_SHIFT: u64 = 0x0001_0000;

pub const KCG_EVENT_FLAG_MASK_SHIFT: u64 = 0x0002_0000;

pub const KCG_EVENT_FLAG_MASK_CONTROL: u64 = 0x0004_0000;

pub const KCG_EVENT_FLAG_MASK_ALTERNATE: u64 = 0x0008_0000;

pub const KCG_EVENT_FLAG_MASK_COMMAND: u64 = 0x0010_0000;

pub const NX_DEVICELCTLKEYMASK: u64 = 0x0000_0001;

pub const NX_DEVICELSHIFTKEYMASK: u64 = 0x0000_0002;

pub const NX_DEVICERSHIFTKEYMASK: u64 = 0x0000_0004;

pub const NX_DEVICELCMDKEYMASK: u64 = 0x0000_0008;

pub const NX_DEVICERCMDKEYMASK: u64 = 0x0000_0010;

pub const NX_DEVICELALTKEYMASK: u64 = 0x0000_0020;

pub const NX_DEVICERALTKEYMASK: u64 = 0x0000_0040;

pub const NX_DEVICERCTLKEYMASK: u64 = 0x0000_2000;

/// The bits for the mouse buttons that are held.
pub const HELD_LEFT: u8 = 0x01;

pub const HELD_RIGHT: u8 = 0x02;

pub const HELD_OTHER: u8 = 0x04;

/// The virtual keycode of the key that warms up keyboard injection: Left Shift, which produces no
/// visible output.
pub const VK_PRIMING: u16 = 0x38;

pub const VK_CAPS_LOCK: u16 = 0x39;

/// The least time, in milliseconds, between two moves of the local cursor that are looked at.
pub const MOVE_INTERVAL_MS: u64 = 16;

/// The longest time, in milliseconds, between the presses of a double click.
pub const MULTI_CLICK_TIME_MS: u64 = 500;

/// The farthest, in pixels in either direction, between the presses of a double click.
pub const MULTI_CLICK_DIST: i32 = 5;

/// One notch of a scroll wheel, as it travels between peers.
pub const WHEEL_DELTA: i32 = 120;

/// Multi-click tracking state for detecting double/triple clicks: injected events have to carry
/// their click count.
#[derive(Debug, Clone, Copy, PartialEq, Eq, Structural)]
pub struct ClickState {
    pub last_button: Option<MouseButton>,
    pub last_press_ms: Option<u64>,
    pub last_x: i32,
    pub last_y: i32,
    pub click_count: i64,
}

impl ClickState {
    /// A press continues the last click: the same button, soon after it, close to it.
    pub open spec fn continues(self, button: MouseButton, x: int, y: int, now_ms: u64) -> bool {
        &&& self.last_button == Some(button)
        &&& self.last_press_ms matches Some(t) && now_ms < t + MULTI_CLICK_TIME_MS
        &&& scale::abs(x - self.last_x) <= MULTI_CLICK_DIST
        &&& scale::abs(y - self.last_y) <= MULTI_CLICK_DIST
    }

    pub fn new() -> (r: Self)
        ensures
            r == (ClickState {
                last_button: None,
                last_press_ms: None,
                last_x: 0,
                last_y: 0,
                click_count: 0,
            }),
    {
        ClickState { last_button: None, last_press_ms: None, last_x: 0, last_y: 0, click_count: 0 }
    }

    /// Compute click count for a new mouse-down event. It increments if the press continues the
    /// last click, otherwise resets to 1.
    pub fn press(&mut self, button: MouseButton, x: i32, y: i32, now_ms: u64) -> (r: i64)
        requires
            old(self).click_count < i64::MAX,
        ensures
            r == if old(self).continues(button, x as int, y as int, now_ms) {
                old(self).click_count + 1
            } else {
                1
            },
            *final(self) == (ClickState {
                last_button: Some(button),
                last_press_ms: Some(now_ms),
                last_x: x,
                last_y: y,
                click_count: r,
            }),
    {
        let same_button = match self.last_button {
            Some(b) => b == button,
            None => false,
        };
        let within_time = match self.last_press_ms {
            Some(t) => now_ms < t || now_ms - t < MULTI_CLICK_TIME_MS,
            None => false,
        };
        let dx: i64 = x as i64 - self.last_x as i64;
        let dy: i64 = y as i64 - self.last_y as i64;
        let dist: i64 = MULTI_CLICK_DIST as i64;
        let within_distance = -dist <= dx && dx <= dist && -dist <= dy && dy <= dist;
        if same_button && within_time && within_distance {
            self.click_count += 1;
        } else {
            self.click_count = 1;
        }
        self.last_button = Some(button);
        self.last_press_ms = Some(now_ms);
        self.last_x = x;
        self.last_y = y;
        self.click_count
    }

    /// Return the current click count (for setting on mouse-up events).
    pub fn current_count(&self) -> (r: i64)
        ensures
            r == if self.click_count < 1 {
                1
            } else {
                self.click_count as int
            },
    {
        if self.click_count < 1 {
            1
        } else {
            self.click_count
        }
    }
}

/// An event as the event tap reads it. Fields that an event does not have are zero.
#[derive(Debug, Clone, Copy, PartialEq, Eq, Structural)]
pub struct RawEvent {
    pub event_type: u32,
    /// The user data of the event's source.
    pub marker: i64,
    pub delta_x: i64,
    pub delta_y: i64,
    /// Where the cursor is, in whole pixels.
    pub x: i32,
    pub y: i32,
    pub button_number: i64,
    pub scroll_vertical: i64,
    pub scroll_horizontal: i64,
    pub keycode: i64,
    pub flags: u64,
}

/// What becomes of an event in the event tap.
#[derive(Debug, Clone, Copy, PartialEq, Eq, Structural)]
pub struct TapVerdict {
    /// The tap has to be enabled again.
    pub reenable: bool,
    /// What is captured.
    pub send: Option<InputEvent>,
    /// Where to warp the cursor back to.
    pub warp: Option<Point>,
    /// The event reaches the applications.
    pub pass: bool,
}

/// A keyboard event to post.
#[derive(Debug, Clone, Copy, PartialEq, Eq, Structural)]
pub struct KeyPost {
    pub vk: u16,
    pub down: bool,
    /// The type of the event is changed to a change of modifier flags.
    pub flags_changed: bool,
    /// The modifier flags to set on the event.
    pub flags: Option<u64>,
}

/// A mouse event to post after the cursor is warped.
#[derive(Debug, Clone, Copy, PartialEq, Eq, Structural)]
pub struct MovePost {
    pub event_type: u32,
    pub button: u32,
    /// The movement, for applications that read it instead of the position.
    pub dx: i64,
    pub dy: i64,
}

/// A mouse button event to create at the position of the cursor.
#[derive(Debug, Clone, Copy, PartialEq, Eq, Structural)]
pub struct ButtonPost {
    pub event_type: u32,
    pub button: u32,
    pub x: i32,
    pub y: i32,
}

/// What to set on a mouse button event once it is created.
#[derive(Debug, Clone, Copy, PartialEq, Eq, Structural)]
pub struct ButtonStamp {
    pub flags: u64,
    pub click_count: i64,
    /// The number of a button other than the first two.
    pub button_number: Option<i64>,
}

/// The state of capture and injection.
#[derive(Debug, Clone, Copy, PartialEq, Eq, Structural)]
pub struct MacInput {
    /// A remote machine is controlled: events do not reach the local applications.
    pub suppress: bool,
    pub cursor: RemoteCursor,
    /// The cursor is warped back here on every move while suppressed.
    pub anchor: Point,
    pub peers_connected: bool,
    /// When a move of the local cursor was last looked at.
    pub last_move_ms: u64,
    /// Last known position of the local cursor.
    pub last_cursor: Point,
    pub prev_flags: u64,
    /// The modifier flags of the injected keys that are held.
    pub injected_flags: u64,
    /// The mouse buttons that are held, as bits.
    pub held: u8,
    pub keyboard_primed: bool,
    pub clicks: ClickState,
}

/// The device-independent and the device-dependent flag of a modifier key.
pub open spec fn modifier_flags(vk: u16) -> Option<(u64, u64)> {
    match vk {
        0x38 => Some((KCG_EVENT_FLAG_MASK_SHIFT, NX_DEVICELSHIFTKEYMASK)),
        0x3C => Some((KCG_EVENT_FLAG_MASK_SHIFT, NX_DEVICERSHIFTKEYMASK)),
        0x3B => Some((KCG_EVENT_FLAG_MASK_CONTROL, NX_DEVICELCTLKEYMASK)),
        0x3E => Some((KCG_EVENT_FLAG_MASK_CONTROL, NX_DEVICERCTLKEYMASK)),
        0x3A => Some((KCG_EVENT_FLAG_MASK_ALTERNATE, NX_DEVICELALTKEYMASK)),
        0x3D => Some((KCG_EVENT_FLAG_MASK_ALTERNATE, NX_DEVICERALTKEYMASK)),
        0x37 => Some((KCG_EVENT_FLAG_MASK_COMMAND, NX_DEVICELCMDKEYMASK)),
        0x36 => Some((KCG_EVENT_FLAG_MASK_COMMAND, NX_DEVICERCMDKEYMASK)),
        _ => None,
    }
}

/// Map macOS virtual keycode to (device-independent flag, device-dependent flag).
/// Returns None for non-modifier keys.
pub fn modifier_flags_for_vk(vk: u16) -> (r: Option<(u64, u64)>)
    ensures
        r == modifier_flags(vk),
{
    match vk {
        0x38 => Some((KCG_EVENT_FLAG_MASK_SHIFT, NX_DEVICELSHIFTKEYMASK)),
        0x3C => Some((KCG_EVENT_FLAG_MASK_SHIFT, NX_DEVICERSHIFTKEYMASK)),
        0x3B => Some((KCG_EVENT_FLAG_MASK_CONTROL, NX_DEVICELCTLKEYMASK)),
        0x3E => Some((KCG_EVENT_FLAG_MASK_CONTROL, NX_DEVICERCTLKEYMASK)),
        0x3A => Some((KCG_EVENT_FLAG_MASK_ALTERNATE, NX_DEVICELALTKEYMASK)),
        0x3D => Some((KCG_EVENT_FLAG_MASK_ALTERNATE, NX_DEVICERALTKEYMASK)),
        0x37 => Some((KCG_EVENT_FLAG_MASK_COMMAND, NX_DEVICELCMDKEYMASK)),
        0x36 => Some((KCG_EVENT_FLAG_MASK_COMMAND, NX_DEVICERCMDKEYMASK)),
        _ => None,
    }
}

/// The flags of the two keys that share a device-independent flag.
pub open spec fn family(indep: u64) -> u64 {
    if indep == KCG_EVENT_FLAG_MASK_SHIFT {
        NX_DEVICELSHIFTKEYMASK | NX_DEVICERSHIFTKEYMASK
    } else if indep == KCG_EVENT_FLAG_MASK_CONTROL {
        NX_DEVICELCTLKEYMASK | NX_DEVICERCTLKEYMASK
    } else if indep == KCG_EVENT_FLAG_MASK_ALTERNATE {
        NX_DEVICELALTKEYMASK | NX_DEVICERALTKEYMASK
    } else if indep == KCG_EVENT_FLAG_MASK_COMMAND {
        NX_DEVICELCMDKEYMASK | NX_DEVICERCMDKEYMASK
    } else {
        0
    }
}

/// The modifier flags once a modifier key is pressed.
pub open spec fn with_modifier(flags: u64, indep: u64, dep: u64) -> u64 {
    flags | (indep | dep)
}

/// The modifier flags once a modifier key is released: the flag that it shares with the key on the
/// other side stays as long as that key is held.
pub open spec fn without_modifier(flags: u64, indep: u64, dep: u64) -> u64 {
    let rest = flags & !dep;
    if rest & family(indep) != 0 {
        rest
    } else {
        rest & !indep
    }
}

/// The modifier keys, in the order in which they are released.
pub open spec fn modifier_vks() -> Seq<u16> {
    seq![0x38u16, 0x3Cu16, 0x3Bu16, 0x3Eu16, 0x3Au16, 0x3Du16, 0x37u16, 0x36u16]
}

/// A modifier key whose flags, or one of them, are set.
pub open spec fn flagged(flags: u64, vk: u16) -> bool {
    modifier_flags(vk) matches Some((indep, dep)) && flags & (indep | dep) != 0
}

/// The post that releases a modifier key.
pub open spec fn release_post(vk: u16) -> KeyPost {
    KeyPost { vk, down: false, flags_changed: true, flags: Some(0) }
}

/// The posts that release the modifier keys whose flags are set.
pub open spec fn release_posts(flags: u64, vks: Seq<u16>) -> Seq<KeyPost> {
    vks.filter(|vk: u16| flagged(flags, vk)).map_values(|vk: u16| release_post(vk))
}

/// A press is a mouse event with a button other than the first two.
pub open spec fn other_button(number: i64) -> MouseButton {
    if number == 3 {
        MouseButton::Button4
    } else if number == 4 {
        MouseButton::Button5
    } else {
        MouseButton::Middle
    }
}

fn other_button_of(number: i64) -> (r: MouseButton)
    ensures
        r == other_button(number),
{
    if number == 3 {
        MouseButton::Button4
    } else if number == 4 {
        MouseButton::Button5
    } else {
        MouseButton::Middle
    }
}

/// A number of notches as it travels between peers, as far as it fits.
pub open spec fn wheel_units(notches: i64) -> i32 {
    let units = (notches as i32) * WHEEL_DELTA;
    if units > i32::MAX {
        i32::MAX
    } else if units < i32::MIN {
        i32::MIN
    } else {
        units as i32
    }
}

fn wheel_units_of(notches: i64) -> (r: i32)
    ensures
        r == wheel_units(notches),
{
    let n: i32 = #[verifier::truncate]
    (notches as i32);
    let units: i64 = n as i64 * 120;
    if units > i32::MAX as i64 {
        i32::MAX
    } else if units < i32::MIN as i64 {
        i32::MIN
    } else {
        units as i32
    }
}

/// The event is a move of the mouse, with or without a button held.
pub open spec fn is_move(event_type: u32) -> bool {
    event_type == KCG_EVENT_MOUSE_MOVED || event_type == KCG_EVENT_LEFT_MOUSE_DRAGGED || event_type
        == KCG_EVENT_RIGHT_MOUSE_DRAGGED || event_type == KCG_EVENT_OTHER_MOUSE_DRAGGED
}

/// A modifier key is down after a change of flags.
pub open spec fn modifier_pressed(vk: u16, flags: u64, prev_flags: u64) -> bool {
    if vk == 0x38 || vk == 0x3C {
        flags & KCG_EVENT_FLAG_MASK_SHIFT != 0
    } else if vk == 0x3B || vk == 0x3E {
        flags & KCG_EVENT_FLAG_MASK_CONTROL != 0
    } else if vk == 0x3A || vk == 0x3D {
        flags & KCG_EVENT_FLAG_MASK_ALTERNATE != 0
    } else if vk == 0x37 || vk == 0x36 {
        flags & KCG_EVENT_FLAG_MASK_COMMAND != 0
    } else if vk == VK_CAPS_LOCK {
        flags & KCG_EVENT_FLAG_MASK_ALPHA_SHIFT != 0
    } else {
        flags > prev_flags
    }
}

fn is_modifier_pressed(vk: u16, flags: u64, prev_flags: u64) -> (r: bool)
    ensures
        r == modifier_pressed(vk, flags, prev_flags),
{
    match vk {
        0x38 | 0x3C => (flags & KCG_EVENT_FLAG_MASK_SHIFT) != 0,
        0x3B | 0x3E => (flags & KCG_EVENT_FLAG_MASK_CONTROL) != 0,
        0x3A | 0x3D => (flags & KCG_EVENT_FLAG_MASK_ALTERNATE) != 0,
        0x37 | 0x36 => (flags & KCG_EVENT_FLAG_MASK_COMMAND) != 0,
        0x39 => (flags & KCG_EVENT_FLAG_MASK_ALPHA_SHIFT) != 0,
        _ => flags > prev_flags,
    }
}


impl MacInput {
    /// What a move of the mouse comes to. While a remote machine is controlled the movement moves
    /// the cursor there, and the local one is warped back. Otherwise the position of the local
    /// cursor is captured, if there is any peer, at most about sixty times a second.
    pub open spec fn tapped_move(self, ev: RawEvent, now_ms: u64) -> (MacInput, TapVerdict) {
        let (dx, dy) = (ev.delta_x as i32, ev.delta_y as i32);
        if self.suppress {
            let cursor = self.cursor.moved(dx as int, dy as int);
            let warped = TapVerdict {
                reenable: false,
                send: None,
                warp: Some(self.anchor),
                pass: false,
            };
            if dx == 0 && dy == 0 {
                (self, warped)
            } else {
                let at = MouseMoveEvent { x: cursor.x, y: cursor.y };
                (
                    MacInput { cursor, ..self },
                    TapVerdict { send: Some(InputEvent::MouseMove(at)), ..warped },
                )
            }
        } else {
            let at = MacInput { last_cursor: Point { x: ev.x, y: ev.y }, ..self };
            let passed = TapVerdict { reenable: false, send: None, warp: None, pass: true };
            if self.peers_connected && move_due(self.last_move_ms, now_ms) {
                let here = MouseMoveEvent { x: ev.x, y: ev.y };
                (
                    MacInput { last_move_ms: now_ms, ..at },
                    TapVerdict { send: Some(InputEvent::MouseMove(here)), ..passed },
                )
            } else {
                (at, passed)
            }
        }
    }

    /// What is captured of an event other than a move.
    pub open spec fn captured(self, ev: RawEvent) -> Option<InputEvent> {
        let t = ev.event_type;
        let vk = ev.keycode as u16;
        if t == KCG_EVENT_LEFT_MOUSE_DOWN || t == KCG_EVENT_LEFT_MOUSE_UP {
            Some(button_event(MouseButton::Left, t == KCG_EVENT_LEFT_MOUSE_DOWN))
        } else if t == KCG_EVENT_RIGHT_MOUSE_DOWN || t == KCG_EVENT_RIGHT_MOUSE_UP {
            Some(button_event(MouseButton::Right, t == KCG_EVENT_RIGHT_MOUSE_DOWN))
        } else if t == KCG_EVENT_OTHER_MOUSE_DOWN || t == KCG_EVENT_OTHER_MOUSE_UP {
            Some(button_event(other_button(ev.button_number), t == KCG_EVENT_OTHER_MOUSE_DOWN))
        } else if t == KCG_EVENT_SCROLL_WHEEL {
            Some(
                InputEvent::MouseScroll(
                    MouseScrollEvent {
                        dx: wheel_units(ev.scroll_horizontal),
                        dy: wheel_units(ev.scroll_vertical),
                    },
                ),
            )
        } else if t == KCG_EVENT_KEY_DOWN || t == KCG_EVENT_KEY_UP {
            Some(
                InputEvent::Key(
                    KeyEvent {
                        scancode: keycodes::mac_scancode(vk),
                        pressed: t == KCG_EVENT_KEY_DOWN,
                    },
                ),
            )
        } else if t == KCG_EVENT_FLAGS_CHANGED {
            Some(
                InputEvent::Key(
                    KeyEvent {
                        scancode: keycodes::mac_scancode(vk),
                        pressed: modifier_pressed(vk, ev.flags, self.prev_flags),
                    },
                ),
            )
        } else {
            None
        }
    }

    /// What becomes of an event in the event tap. An event that was injected here passes, and so
    /// does any before capture has started.
    pub open spec fn tapped(self, ev: RawEvent, capturing: bool, now_ms: u64) -> (
        MacInput,
        TapVerdict,
    ) {
        let passed = TapVerdict { reenable: false, send: None, warp: None, pass: true };
        if ev.event_type == KCG_EVENT_TAP_DISABLED_BY_TIMEOUT {
            (self, TapVerdict { reenable: true, ..passed })
        } else if ev.marker == SHAREFLOW_EVENT_MARKER || !capturing {
            (self, passed)
        } else if is_move(ev.event_type) {
            self.tapped_move(ev, now_ms)
        } else {
            let verdict = TapVerdict {
                reenable: false,
                send: self.captured(ev),
                warp: None,
                pass: !self.suppress,
            };
            if ev.event_type == KCG_EVENT_FLAGS_CHANGED {
                (MacInput { prev_flags: ev.flags, ..self }, verdict)
            } else {
                (self, verdict)
            }
        }
    }

    /// Whether an event can be handled: while a remote machine is controlled, a move needs a screen
    /// to move on.
    pub open spec fn takes(self, ev: RawEvent, capturing: bool) -> bool {
        self.suppress && is_move(ev.event_type) && ev.marker != SHAREFLOW_EVENT_MARKER && capturing
            && (ev.delta_x as i32 != 0 || ev.delta_y as i32 != 0) ==> self.cursor.has_room()
    }

    pub fn new() -> (r: Self)
        ensures
            r == (MacInput {
                suppress: false,
                cursor: RemoteCursor { x: 0, y: 0, left: 0, top: 0, right: 1920, bottom: 1080 },
                anchor: Point { x: 0, y: 0 },
                peers_connected: false,
                last_move_ms: 0,
                last_cursor: Point { x: 0, y: 0 },
                prev_flags: 0,
                injected_flags: 0,
                held: 0,
                keyboard_primed: false,
                clicks: ClickState {
                    last_button: None,
                    last_press_ms: None,
                    last_x: 0,
                    last_y: 0,
                    click_count: 0,
                },
            }),
    {
        MacInput {
            suppress: false,
            cursor: RemoteCursor::new(),
            anchor: Point { x: 0, y: 0 },
            peers_connected: false,
            last_move_ms: 0,
            last_cursor: Point { x: 0, y: 0 },
            prev_flags: 0,
            injected_flags: 0,
            held: 0,
            keyboard_primed: false,
            clicks: ClickState::new(),
        }
    }

    /// Notify the event tap whether any peers are connected.
    pub fn set_peers_connected(&mut self, connected: bool)
        ensures
            *final(self) == (MacInput { peers_connected: connected, ..*old(self) }),
    {
        self.peers_connected = connected;
    }

    /// Initialize remote mouse control: set virtual position to the entry point on the remote
    /// screen.
    pub fn init_remote_mouse(
        &mut self,
        virtual_x: i32,
        virtual_y: i32,
        rs_x: i32,
        rs_y: i32,
        rs_w: i32,
        rs_h: i32,
    )
        requires
            i32::MIN <= rs_x + rs_w <= i32::MAX,
            i32::MIN <= rs_y + rs_h <= i32::MAX,
        ensures
            *final(self) == (MacInput {
                cursor: RemoteCursor {
                    x: virtual_x,
                    y: virtual_y,
                    left: rs_x,
                    top: rs_y,
                    right: (rs_x + rs_w) as i32,
                    bottom: (rs_y + rs_h) as i32,
                },
                ..*old(self)
            }),
    {
        self.cursor = RemoteCursor::at(virtual_x, virtual_y, rs_x, rs_y, rs_w, rs_h);
    }

    /// Whether an event can be handled: while a remote machine is controlled, a move needs a screen
    /// to move on.
    pub fn can_take(&self, ev: &RawEvent, capturing: bool) -> (r: bool)
        ensures
            r == self.takes(*ev, capturing),
    {
        let dx: i32 = #[verifier::truncate]
        (ev.delta_x as i32);
        let dy: i32 = #[verifier::truncate]
        (ev.delta_y as i32);
        let remote_move = self.suppress && moves(ev.event_type) && ev.marker != SHAREFLOW_EVENT_MARKER
            && capturing && (dx != 0 || dy != 0);
        !remote_move || self.cursor.is_roomy()
    }

    fn tap_move(&mut self, ev: &RawEvent, now_ms: u64) -> (r: TapVerdict)
        requires
            old(self).suppress && (ev.delta_x as i32 != 0 || ev.delta_y as i32 != 0)
                ==> old(self).cursor.has_room(),
        ensures
            (*final(self), r) == old(self).tapped_move(*ev, now_ms),
    {
        if self.suppress {
            let dx: i32 = #[verifier::truncate]
            (ev.delta_x as i32);
            let dy: i32 = #[verifier::truncate]
            (ev.delta_y as i32);
            let mut send = None;
            if dx != 0 || dy != 0 {
                let at = self.cursor.move_by(dx as i64, dy as i64);
                send = Some(InputEvent::MouseMove(at));
            }
            return TapVerdict { reenable: false, send, warp: Some(self.anchor), pass: false };
        }
        self.last_cursor = Point { x: ev.x, y: ev.y };
        let mut send = None;
        if self.peers_connected && now_ms.wrapping_sub(self.last_move_ms) >= MOVE_INTERVAL_MS {
            self.last_move_ms = now_ms;
            send = Some(InputEvent::MouseMove(MouseMoveEvent { x: ev.x, y: ev.y }));
        }
        TapVerdict { reenable: false, send, warp: None, pass: true }
    }

    fn capture(&self, ev: &RawEvent) -> (r: Option<InputEvent>)
        ensures
            r == self.captured(*ev),
    {
        let vk: u16 = #[verifier::truncate]
        (ev.keycode as u16);
        match ev.event_type {
            KCG_EVENT_LEFT_MOUSE_DOWN => Some(button_event_of(MouseButton::Left, true)),
            KCG_EVENT_LEFT_MOUSE_UP => Some(button_event_of(MouseButton::Left, false)),
            KCG_EVENT_RIGHT_MOUSE_DOWN => Some(button_event_of(MouseButton::Right, true)),
            KCG_EVENT_RIGHT_MOUSE_UP => Some(button_event_of(MouseButton::Right, false)),
            KCG_EVENT_OTHER_MOUSE_DOWN => Some(
                button_event_of(other_button_of(ev.button_number), true),
            ),
            KCG_EVENT_OTHER_MOUSE_UP => Some(
                button_event_of(other_button_of(ev.button_number), false),
            ),
            KCG_EVENT_SCROLL_WHEEL => {
                let dx: i32 = wheel_units_of(ev.scroll_horizontal);
                let dy: i32 = wheel_units_of(ev.scroll_vertical);
                Some(InputEvent::MouseScroll(MouseScrollEvent { dx, dy }))
            },
            KCG_EVENT_KEY_DOWN => {
                let scancode: u16 = mac_vk_to_scancode(vk);
                Some(InputEvent::Key(KeyEvent { scancode, pressed: true }))
            },
            KCG_EVENT_KEY_UP => {
                let scancode: u16 = mac_vk_to_scancode(vk);
                Some(InputEvent::Key(KeyEvent { scancode, pressed: false }))
            },
            KCG_EVENT_FLAGS_CHANGED => {
                let scancode: u16 = mac_vk_to_scancode(vk);
                let pressed = is_modifier_pressed(vk, ev.flags, self.prev_flags);
                Some(InputEvent::Key(KeyEvent { scancode, pressed }))
            },
            _ => None,
        }
    }

    /// Decide what becomes of an event in the event tap.
    pub fn event_tap(&mut self, ev: &RawEvent, capturing: bool, now_ms: u64) -> (r: TapVerdict)
        requires
            old(self).takes(*ev, capturing),
        ensures
            (*final(self), r) == old(self).tapped(*ev, capturing, now_ms),
    {
        if ev.event_type == KCG_EVENT_TAP_DISABLED_BY_TIMEOUT {
            return TapVerdict { reenable: true, send: None, warp: None, pass: true };
        }
        if ev.marker == SHAREFLOW_EVENT_MARKER || !capturing {
            return TapVerdict { reenable: false, send: None, warp: None, pass: true };
        }
        if moves(ev.event_type) {
            return self.tap_move(ev, now_ms);
        }
        let send = self.capture(ev);
        if ev.event_type == KCG_EVENT_FLAGS_CHANGED {
            self.prev_flags = ev.flags;
        }
        TapVerdict { reenable: false, send, warp: None, pass: !self.suppress }
    }
}

/// Enough time has passed since a move of the local cursor was last looked at. The clock may wrap
/// around.
pub open spec fn move_due(last_ms: u64, now_ms: u64) -> bool {
    (now_ms - last_ms) % 0x1_0000_0000_0000_0000 >= MOVE_INTERVAL_MS
}

/// The event of a mouse button.
pub open spec fn button_event(button: MouseButton, pressed: bool) -> InputEvent {
    InputEvent::MouseButton(MouseButtonEvent { button, pressed })
}

fn button_event_of(button: MouseButton, pressed: bool) -> (r: InputEvent)
    ensures
        r == button_event(button, pressed),
{
    InputEvent::MouseButton(MouseButtonEvent { button, pressed })
}

fn moves(event_type: u32) -> (r: bool)
    ensures
        r == is_move(event_type),
{
    event_type == KCG_EVENT_MOUSE_MOVED || event_type == KCG_EVENT_LEFT_MOUSE_DRAGGED || event_type
        == KCG_EVENT_RIGHT_MOUSE_DRAGGED || event_type == KCG_EVENT_OTHER_MOUSE_DRAGGED
}


/// The event type and the button of a mouse event for a move while buttons are held: it is a drag
/// with the first of them, so that applications follow it.
pub open spec fn drag_type(held: u8) -> (u32, u32) {
    if held & HELD_LEFT != 0 {
        (KCG_EVENT_LEFT_MOUSE_DRAGGED, 0)
    } else if held & HELD_RIGHT != 0 {
        (KCG_EVENT_RIGHT_MOUSE_DRAGGED, 1)
    } else if held & HELD_OTHER != 0 {
        (KCG_EVENT_OTHER_MOUSE_DRAGGED, 2)
    } else {
        (KCG_EVENT_MOUSE_MOVED, 0)
    }
}

/// The event type and the button of a mouse event for a button.
pub open spec fn button_type(button: MouseButton, pressed: bool) -> (u32, u32) {
    match button {
        MouseButton::Left => (
            if pressed {
                KCG_EVENT_LEFT_MOUSE_DOWN
            } else {
                KCG_EVENT_LEFT_MOUSE_UP
            },
            0,
        ),
        MouseButton::Right => (
            if pressed {
                KCG_EVENT_RIGHT_MOUSE_DOWN
            } else {
                KCG_EVENT_RIGHT_MOUSE_UP
            },
            1,
        ),
        _ => (
            if pressed {
                KCG_EVENT_OTHER_MOUSE_DOWN
            } else {
                KCG_EVENT_OTHER_MOUSE_UP
            },
            match button {
                MouseButton::Middle => 2,
                MouseButton::Button4 => 3,
                _ => 4,
            },
        ),
    }
}

/// The bit of a button among those that are held.
pub open spec fn held_bit(button: MouseButton) -> u8 {
    match button {
        MouseButton::Left => HELD_LEFT,
        MouseButton::Right => HELD_RIGHT,
        _ => HELD_OTHER,
    }
}

/// The number of lines to scroll: whole notches, and at least one line for any scroll at all.
pub open spec fn lines(units: int) -> int {
    if units >= WHEEL_DELTA {
        units / WHEEL_DELTA as int
    } else if units > 0 {
        1
    } else if units == 0 {
        0
    } else if units > -WHEEL_DELTA {
        -1
    } else {
        -((-units) / WHEEL_DELTA as int)
    }
}

/// Convert from notches of a wheel, as they travel between peers, to lines.
pub fn scroll_lines(units: i32) -> (r: i32)
    ensures
        r == lines(units as int),
{
    let u: i64 = units as i64;
    if u >= 120 {
        (u / 120) as i32
    } else if u > 0 {
        1
    } else if u == 0 {
        0
    } else if u > -120 {
        -1
    } else {
        (-((-u) / 120)) as i32
    }
}

impl MacInput {
    /// The flags of the injected modifier keys after one of them is pressed or released.
    pub open spec fn flags_after(self, vk: u16, pressed: bool) -> u64 {
        match modifier_flags(vk) {
            None => self.injected_flags,
            Some((indep, dep)) => if pressed {
                with_modifier(self.injected_flags, indep, dep)
            } else {
                without_modifier(self.injected_flags, indep, dep)
            },
        }
    }

    /// What is posted for a key of a peer, and the flags of the injected modifier keys afterwards.
    /// Caps Lock is toggled by a full cycle on its press. The other modifier keys are changes of
    /// flags. Any other key carries the flags of the modifier keys that are held.
    pub open spec fn key_posts(self, scancode: u16, pressed: bool) -> (Seq<KeyPost>, u64) {
        match keycodes::mac_vk(scancode) {
            None => (Seq::empty(), self.injected_flags),
            Some(vk) => if vk == VK_CAPS_LOCK {
                (
                    if pressed {
                        seq![
                            KeyPost {
                                vk,
                                down: true,
                                flags_changed: true,
                                flags: Some(KCG_EVENT_FLAG_MASK_ALPHA_SHIFT),
                            },
                            KeyPost { vk, down: false, flags_changed: true, flags: Some(0) },
                        ]
                    } else {
                        Seq::empty()
                    },
                    self.injected_flags,
                )
            } else if modifier_flags(vk) is Some {
                let flags = self.flags_after(vk, pressed);
                (
                    seq![KeyPost { vk, down: pressed, flags_changed: true, flags: Some(flags) }],
                    flags,
                )
            } else {
                let flags = if self.injected_flags != 0 {
                    Some(self.injected_flags)
                } else {
                    None
                };
                (
                    seq![KeyPost { vk, down: pressed, flags_changed: false, flags }],
                    self.injected_flags,
                )
            },
        }
    }

    /// Release all injected modifier keys and reset injected modifier flags.
    pub fn reset_injected_modifiers(&mut self) -> (r: Vec<KeyPost>)
        ensures
            *final(self) == (MacInput { injected_flags: 0, ..*old(self) }),
            r@ == release_posts(old(self).injected_flags, modifier_vks()),
    {
        let flags: u64 = self.injected_flags;
        self.injected_flags = 0;
        let mut vks: Vec<u16> = Vec::new();
        vks.push(0x38);
        vks.push(0x3C);
        vks.push(0x3B);
        vks.push(0x3E);
        vks.push(0x3A);
        vks.push(0x3D);
        vks.push(0x37);
        vks.push(0x36);
        assert(vks@ =~= modifier_vks());
        let mut posts: Vec<KeyPost> = Vec::new();
        let mut i: usize = 0;
        proof {
            reveal(Seq::filter);
            assert(vks@.take(0) =~= Seq::empty());
            assert(posts@ =~= release_posts(flags, vks@.take(0)));
        }
        while i < vks.len()
            invariant
                i <= vks@.len(),
                posts@ == release_posts(flags, vks@.take(i as int)),
            decreases vks@.len() - i,
        {
            let vk: u16 = vks[i];
            proof {
                reveal(Seq::filter);
                assert(vks@.take(i + 1).drop_last() =~= vks@.take(i as int));
            }
            if let Some((indep, dep)) = modifier_flags_for_vk(vk) {
                if flags & (indep | dep) != 0 {
                    posts.push(
                        KeyPost { vk, down: false, flags_changed: true, flags: Some(0) },
                    );
                    assert(posts@ =~= release_posts(flags, vks@.take(i + 1)));
                }
            }
            i += 1;
        }
        assert(vks@.take(i as int) =~= vks@);
        posts
    }

    /// Start or stop suppression. When it starts, the position of the cursor becomes the point that
    /// it is held at. When it stops, modifier keys whose release was lost are released: a stuck
    /// Control key would turn every click into a right click.
    pub fn set_suppress(&mut self, suppress: bool, location: Option<Point>) -> (r: Vec<KeyPost>)
        ensures
            final(self).suppress == suppress,
            if suppress {
                &&& r@.len() == 0
                &&& *final(self) == (MacInput {
                    suppress,
                    anchor: match location {
                        Some(p) => p,
                        None => old(self).anchor,
                    },
                    ..*old(self)
                })
            } else {
                &&& r@ == release_posts(old(self).injected_flags, modifier_vks())
                &&& *final(self) == (MacInput { suppress, injected_flags: 0, ..*old(self) })
            },
    {
        let mut posts: Vec<KeyPost> = Vec::new();
        if suppress {
            if let Some(p) = location {
                self.anchor = p;
            }
        } else {
            posts = self.reset_injected_modifiers();
        }
        self.suppress = suppress;
        posts
    }

    /// Warm up keyboard injection once more, when focus comes from a peer.
    pub fn reprime_keyboard_for_focus(&mut self) -> (r: Vec<KeyPost>)
        ensures
            *final(self) == (MacInput { keyboard_primed: true, ..*old(self) }),
            r@ == priming_posts(),
    {
        self.keyboard_primed = false;
        MacOSInputInjector::prime_keyboard(self)
    }
}

/// The warm-up of keyboard injection and what is posted to inject an event.
pub struct MacOSInputInjector;

impl MacOSInputInjector {
    /// An injector. If the process may inject at all, keyboard injection is warmed up at once.
    pub fn new(input: &mut MacInput, trusted: bool) -> (r: (Self, Vec<KeyPost>))
        ensures
            *final(input) == if trusted {
                MacInput { keyboard_primed: true, ..*old(input) }
            } else {
                *old(input)
            },
            r.1@ == if trusted && !old(input).keyboard_primed {
                priming_posts()
            } else {
                Seq::empty()
            },
    {
        let mut posts: Vec<KeyPost> = Vec::new();
        if trusted {
            posts = MacOSInputInjector::prime_keyboard(input);
        }
        assert(trusted || posts@ =~= Seq::empty());
        (MacOSInputInjector, posts)
    }

    /// The warm-up of keyboard injection: a harmless press of Shift, once.
    pub fn prime_keyboard(input: &mut MacInput) -> (r: Vec<KeyPost>)
        ensures
            *final(input) == (MacInput { keyboard_primed: true, ..*old(input) }),
            r@ == if old(input).keyboard_primed {
                Seq::empty()
            } else {
                priming_posts()
            },
    {
        let mut posts: Vec<KeyPost> = Vec::new();
        if !input.keyboard_primed {
            input.keyboard_primed = true;
            posts.push(KeyPost { vk: VK_PRIMING, down: true, flags_changed: false, flags: None });
            posts.push(KeyPost { vk: VK_PRIMING, down: false, flags_changed: false, flags: None });
            assert(posts@ =~= priming_posts());
        }
        posts
    }

    /// Inject a move: what to post once the cursor is warped there.
    pub fn move_mouse(&self, input: &mut MacInput, x: i32, y: i32) -> (r: MovePost)
        ensures
            *final(input) == (MacInput { last_cursor: Point { x, y }, ..*old(input) }),
            (r.event_type, r.button) == drag_type(old(input).held),
            r.dx == x - old(input).last_cursor.x,
            r.dy == y - old(input).last_cursor.y,
    {
        let dx: i64 = x as i64 - input.last_cursor.x as i64;
        let dy: i64 = y as i64 - input.last_cursor.y as i64;
        input.last_cursor = Point { x, y };
        let (event_type, button): (u32, u32) = if input.held & HELD_LEFT != 0 {
            (KCG_EVENT_LEFT_MOUSE_DRAGGED, 0)
        } else if input.held & HELD_RIGHT != 0 {
            (KCG_EVENT_RIGHT_MOUSE_DRAGGED, 1)
        } else if input.held & HELD_OTHER != 0 {
            (KCG_EVENT_OTHER_MOUSE_DRAGGED, 2)
        } else {
            (KCG_EVENT_MOUSE_MOVED, 0)
        };
        MovePost { event_type, button, dx, dy }
    }

    /// Inject a mouse button: which event to create.
    pub fn press_mouse_button(
        &self,
        input: &mut MacInput,
        button: MouseButton,
        pressed: bool,
    ) -> (r: ButtonPost)
        ensures
            *final(input) == (MacInput {
                held: if pressed {
                    old(input).held | held_bit(button)
                } else {
                    old(input).held & !held_bit(button)
                },
                ..*old(input)
            }),
            (r.event_type, r.button) == button_type(button, pressed),
            r.x == old(input).last_cursor.x,
            r.y == old(input).last_cursor.y,
    {
        let (event_type, number): (u32, u32) = match (button, pressed) {
            (MouseButton::Left, true) => (KCG_EVENT_LEFT_MOUSE_DOWN, 0),
            (MouseButton::Left, false) => (KCG_EVENT_LEFT_MOUSE_UP, 0),
            (MouseButton::Right, true) => (KCG_EVENT_RIGHT_MOUSE_DOWN, 1),
            (MouseButton::Right, false) => (KCG_EVENT_RIGHT_MOUSE_UP, 1),
            (MouseButton::Middle, true) => (KCG_EVENT_OTHER_MOUSE_DOWN, 2),
            (MouseButton::Middle, false) => (KCG_EVENT_OTHER_MOUSE_UP, 2),
            (MouseButton::Button4, true) => (KCG_EVENT_OTHER_MOUSE_DOWN, 3),
            (MouseButton::Button4, false) => (KCG_EVENT_OTHER_MOUSE_UP, 3),
            (MouseButton::Button5, true) => (KCG_EVENT_OTHER_MOUSE_DOWN, 4),
            (MouseButton::Button5, false) => (KCG_EVENT_OTHER_MOUSE_UP, 4),
        };
        let bit: u8 = match button {
            MouseButton::Left => HELD_LEFT,
            MouseButton::Right => HELD_RIGHT,
            _ => HELD_OTHER,
        };
        if pressed {
            input.held = input.held | bit;
        } else {
            input.held = input.held & !bit;
        }
        ButtonPost {
            event_type,
            button: number,
            x: input.last_cursor.x,
            y: input.last_cursor.y,
        }
    }

    /// Inject a mouse button: what to set on the event once it is created. A release carries the
    /// click count of the press before it.
    pub fn stamp_mouse_button(
        &self,
        input: &mut MacInput,
        button: MouseButton,
        pressed: bool,
        now_ms: u64,
    ) -> (r:
        ButtonStamp)
        requires
            old(input).clicks.click_count < i64::MAX,
        ensures
            r.flags == old(input).injected_flags,
            r.button_number == if button_type(button, pressed).1 >= 2 {
                Some(button_type(button, pressed).1 as i64)
            } else {
                None
            },
            ({
                let at = old(input).last_cursor;
                let before = old(input).clicks;
                if pressed {
                    &&& r.click_count == if before.continues(
                        button,
                        at.x as int,
                        at.y as int,
                        now_ms,
                    ) {
                        before.click_count + 1
                    } else {
                        1
                    }
                    &&& *final(input) == (MacInput {
                        clicks: ClickState {
                            last_button: Some(button),
                            last_press_ms: Some(now_ms),
                            last_x: at.x,
                            last_y: at.y,
                            click_count: r.click_count,
                        },
                        ..*old(input)
                    })
                } else {
                    &&& r.click_count == if before.click_count < 1 {
                        1
                    } else {
                        before.click_count as int
                    }
                    &&& *final(input) == *old(input)
                }
            }),
    {
        let at = input.last_cursor;
        let click_count: i64 = if pressed {
            input.clicks.press(button, at.x, at.y, now_ms)
        } else {
            input.clicks.current_count()
        };
        let button_number: Option<i64> = match button {
            MouseButton::Left => None,
            MouseButton::Right => None,
            MouseButton::Middle => Some(2),
            MouseButton::Button4 => Some(3),
            MouseButton::Button5 => Some(4),
        };
        ButtonStamp { flags: input.injected_flags, click_count, button_number }
    }

    /// Inject a key.
    pub fn send_key(&self, input: &mut MacInput, scancode: u16, pressed: bool) -> (r: Vec<KeyPost>)
        ensures
            r@ == old(input).key_posts(scancode, pressed).0,
            *final(input) == (MacInput {
                injected_flags: old(input).key_posts(scancode, pressed).1,
                ..*old(input)
            }),
    {
        let mut posts: Vec<KeyPost> = Vec::new();
        if let Some(vk) = scancode_to_mac_vk(scancode) {
            if vk == VK_CAPS_LOCK {
                if pressed {
                    let flags = Some(KCG_EVENT_FLAG_MASK_ALPHA_SHIFT);
                    posts.push(KeyPost { vk, down: true, flags_changed: true, flags });
                    posts.push(KeyPost { vk, down: false, flags_changed: true, flags: Some(0) });
                }
            } else if modifier_flags_for_vk(vk).is_some() {
                posts.push(self.inject_modifier(input, vk, pressed));
            } else {
                let flags: Option<u64> = if input.injected_flags != 0 {
                    Some(input.injected_flags)
                } else {
                    None
                };
                posts.push(KeyPost { vk, down: pressed, flags_changed: false, flags });
            }
        }
        assert(posts@ =~= old(input).key_posts(scancode, pressed).0);
        posts
    }

    /// Inject a modifier key (Shift, Control, Option, Command) as a change of modifier flags:
    /// applications ignore it otherwise. The flag that it shares with the key on the other side
    /// stays set as long as that key is held.
    pub fn inject_modifier(&self, input: &mut MacInput, mac_vk: u16, pressed: bool) -> (r: KeyPost)
        requires
            modifier_flags(mac_vk) is Some,
        ensures
            *final(input) == (MacInput {
                injected_flags: old(input).flags_after(mac_vk, pressed),
                ..*old(input)
            }),
            r == (KeyPost {
                vk: mac_vk,
                down: pressed,
                flags_changed: true,
                flags: Some(old(input).flags_after(mac_vk, pressed)),
            }),
    {
        if let Some((indep, dep)) = modifier_flags_for_vk(mac_vk) {
            if pressed {
                input.injected_flags = input.injected_flags | (indep | dep);
            } else {
                let rest: u64 = input.injected_flags & !dep;
                let still_held = match indep {
                    KCG_EVENT_FLAG_MASK_SHIFT => rest & (NX_DEVICELSHIFTKEYMASK
                        | NX_DEVICERSHIFTKEYMASK) != 0,
                    KCG_EVENT_FLAG_MASK_CONTROL => rest & (NX_DEVICELCTLKEYMASK
                        | NX_DEVICERCTLKEYMASK) != 0,
                    KCG_EVENT_FLAG_MASK_ALTERNATE => rest & (NX_DEVICELALTKEYMASK
                        | NX_DEVICERALTKEYMASK) != 0,
                    _ => rest & (NX_DEVICELCMDKEYMASK | NX_DEVICERCMDKEYMASK) != 0,
                };
                input.injected_flags = if still_held {
                    rest
                } else {
                    rest & !indep
                };
            }
        }
        let flags = Some(input.injected_flags);
        KeyPost { vk: mac_vk, down: pressed, flags_changed: true, flags }
    }
}

/// Whether input is captured.
pub struct MacOSInputCapture {
    capturing: bool,
}

impl View for MacOSInputCapture {
    type V = bool;

    closed spec fn view(&self) -> bool {
        self.capturing
    }
}

impl MacOSInputCapture {
    pub fn new() -> (r: Self)
        ensures
            !r@,
    {
        MacOSInputCapture { capturing: false }
    }

    /// The capture of a process that may capture, or may not.
    pub fn with_permission(trusted: bool) -> (r: Self)
        ensures
            r@ == trusted,
    {
        MacOSInputCapture { capturing: trusted }
    }

    pub fn start_capture(&mut self) -> (r: Result<(), String>)
        ensures
            final(self)@,
            r is Ok,
    {
        self.capturing = true;
        Ok(())
    }

    pub fn stop_capture(&mut self) -> (r: Result<(), String>)
        ensures
            !final(self)@,
            r is Ok,
    {
        self.capturing = false;
        Ok(())
    }

    pub fn is_capturing(&self) -> (r: bool)
        ensures
            r == self@,
    {
        self.capturing
    }
}

/// The posts that warm up keyboard injection.
pub open spec fn priming_posts() -> Seq<KeyPost> {
    seq![
        KeyPost { vk: VK_PRIMING, down: true, flags_changed: false, flags: None },
        KeyPost { vk: VK_PRIMING, down: false, flags_changed: false, flags: None },
    ]
}


/// A display as macOS describes it, in whole pixels.
#[derive(Debug, Clone, Copy, PartialEq, Eq, Structural)]
pub struct Display {
    pub id: u32,
    pub x: i32,
    pub y: i32,
    pub width: i32,
    pub height: i32,
    pub main: bool,
}

/// The screen of a display.
pub open spec fn shows(s: ScreenInfo, d: Display) -> bool {
    &&& s.id@ == "display-"@ + text::decimal(d.id as nat)
    &&& s.x == d.x
    &&& s.y == d.y
    &&& s.width == d.width
    &&& s.height == d.height
    &&& s.primary == d.main
}

/// The screens of the active displays. `None` = they could not be listed. Where there is none, a
/// default one stands in.
pub fn get_screens_macos(displays: Option<Vec<Display>>) -> (r: Vec<ScreenInfo>)
    ensures
        match displays {
            Some(list) if list@.len() > 0 => {
                &&& r@.len() == list@.len()
                &&& forall|i: int| 0 <= i < r@.len() ==> shows(#[trigger] r@[i], list@[i])
            },
            _ => r@.len() == 1 && screen::is_default_screen(r@[0]),
        },
{
    let mut screens: Vec<ScreenInfo> = Vec::new();
    if let Some(list) = displays {
        let mut i: usize = 0;
        while i < list.len()
            invariant
                i <= list@.len(),
                screens@.len() == i,
                forall|j: int| 0 <= j < i ==> shows(#[trigger] screens@[j], list@[j]),
            decreases list@.len() - i,
        {
            let d = list[i];
            let mut id = "display-".to_string();
            push_decimal(&mut id, d.id as u64);
            screens.push(
                ScreenInfo {
                    id,
                    x: d.x,
                    y: d.y,
                    width: d.width,
                    height: d.height,
                    primary: d.main,
                },
            );
            i += 1;
        }
    }
    if screens.len() == 0 {
        screens.push(default_screen());
    }
    screens
}

/// Whether a change of the displays is complete. The system also tells when one begins.
pub fn reconfiguration_done(flags: u32) -> (r: bool)
    ensures
        r == (flags % 2 == 0),
{
    assert(flags & 1 == flags % 2) by (bit_vector);
    flags & 1 == 0
}

/// The types of the events that the event tap asks for, as bits.
pub const EVENT_MASK: u64 = 0x0E40_1CFE;

/// The event tap asks for the events that it can capture something of, and for no others.
pub proof fn lemma_event_mask(input: MacInput, ev: RawEvent)
    requires
        ev.event_type < 64,
    ensures
        ((EVENT_MASK >> ev.event_type) & 1 == 1) <==> is_move(ev.event_type) || input.captured(
            ev,
        ) is Some,
{
    let t = ev.event_type;
    assert(((0x0E40_1CFEu64 >> t) & 1 == 1) <==> (1 <= t <= 7 || 10 <= t <= 12 || t == 22 || 25 <= t
        <= 27)) by (bit_vector)
        requires
            t < 64,
    ;
}

/// An event that was injected here is let through and captured by nobody: what a peer sends is not
/// sent back.
pub proof fn lemma_injected_events_pass(input: MacInput, ev: RawEvent, capturing: bool, now_ms: u64)
    requires
        ev.marker == SHAREFLOW_EVENT_MARKER,
    ensures
        input.tapped(ev, capturing, now_ms).0 == input,
        input.tapped(ev, capturing, now_ms).1.send is None,
        input.tapped(ev, capturing, now_ms).1.pass,
{
}

/// While a remote machine is controlled, no event of this machine reaches its applications. The
/// cursor there stays on the screen.
pub proof fn lemma_suppressed_events_do_not_pass(
    input: MacInput,
    ev: RawEvent,
    now_ms: u64,
)
    requires
        input.suppress,
        ev.marker != SHAREFLOW_EVENT_MARKER,
        ev.event_type != KCG_EVENT_TAP_DISABLED_BY_TIMEOUT,
        input.cursor.on_screen(),
    ensures
        !input.tapped(ev, true, now_ms).1.pass,
        input.tapped(ev, true, now_ms).0.cursor.on_screen(),
{
}

/// Buttons are held independently: pressing or releasing one does not change whether another is
/// held, so that a drag goes on while other buttons are clicked.
pub proof fn lemma_buttons_are_independent(held: u8, a: MouseButton, b: MouseButton)
    requires
        held_bit(a) != held_bit(b),
    ensures
        (held | held_bit(b)) & held_bit(a) == held & held_bit(a),
        (held & !held_bit(b)) & held_bit(a) == held & held_bit(a),
        (held | held_bit(a)) & held_bit(a) != 0,
        (held & !held_bit(a)) & held_bit(a) == 0,
{
    let (x, y) = (held_bit(a), held_bit(b));
    assert((held | y) & x == held & x && (held & !y) & x == held & x && (held | x) & x != 0 && (held
        & !x) & x == 0) by (bit_vector)
        requires
            x != y,
            x == 1 || x == 2 || x == 4,
            y == 1 || y == 2 || y == 4,
    ;
}

/// The flag that two modifier keys share is set exactly while one of them is held.
pub open spec fn shared_flag_holds(flags: u64, indep: u64) -> bool {
    (flags & indep != 0) == (flags & family(indep) != 0)
}

/// The flags that modifier keys share are set exactly while one of the keys is held.
pub open spec fn consistent(flags: u64) -> bool {
    &&& shared_flag_holds(flags, KCG_EVENT_FLAG_MASK_SHIFT)
    &&& shared_flag_holds(flags, KCG_EVENT_FLAG_MASK_CONTROL)
    &&& shared_flag_holds(flags, KCG_EVENT_FLAG_MASK_ALTERNATE)
    &&& shared_flag_holds(flags, KCG_EVENT_FLAG_MASK_COMMAND)
}

/// The effect of a key on the flags `i` and `keys` of its own family.
proof fn lemma_own_bits(f: u64, i: u64, keys: u64, dep: u64)
    by (bit_vector)
    requires
        i != 0,
        dep != 0,
        i & keys == 0,
        dep & keys == dep,
        (f & i != 0) == (f & keys != 0),
    ensures
        (f | (i | dep)) & i != 0,
        (f | (i | dep)) & keys != 0,
        (f & !dep) & keys != 0 ==> (f & !dep) & i != 0,
        (f & !dep) & keys == 0 ==> ((f & !dep) & !i) & i == 0 && ((f & !dep) & !i) & keys == 0,
{
}

/// The effect of a key on each of the flags: its own, the one that it shares, and the others.
proof fn lemma_each_bit(f: u64, i: u64, keys: u64, dep: u64)
    by (bit_vector)
    requires
        i & keys == 0,
        dep & keys == dep,
        (f & i != 0) == (f & keys != 0),
    ensures
        (f | (i | dep)) & !(i | dep) == f & !(i | dep),
        (f & !dep) & dep == 0,
        ((f & !dep) & !i) & dep == 0,
        (f & !dep) & keys == f & (keys & !dep),
        (f & !dep) & keys != 0 ==> (f & !dep) & i != 0,
        ((f & !dep) & !i) & i == 0,
        (f & !dep) & !(i | dep) == f & !(i | dep),
        ((f & !dep) & !i) & !(i | dep) == f & !(i | dep),
{
}

/// Pressing and releasing a key of which the flag `i` is single.
proof fn lemma_undone(f: u64, i: u64, keys: u64, dep: u64)
    by (bit_vector)
    requires
        dep != 0,
        i & keys == 0,
        i == 0x2_0000 || i == 0x4_0000 || i == 0x8_0000 || i == 0x10_0000,
        dep & keys == dep,
        (f & i != 0) == (f & keys != 0),
        f & dep == 0,
    ensures
        ((f | (i | dep)) & !dep) & keys == f & keys,
        f & keys != 0 ==> (f | (i | dep)) & !dep == f,
        f & keys == 0 ==> ((f | (i | dep)) & !dep) & !i == f,
{
}

/// A key does not change the flags `m` of another family.
proof fn lemma_other_bits(f: u64, i: u64, dep: u64, m: u64)
    by (bit_vector)
    requires
        i & m == 0,
        dep & m == 0,
    ensures
        (f | (i | dep)) & m == f & m,
        (f & !dep) & m == f & m,
        ((f & !dep) & !i) & m == f & m,
{
}

/// The flag is one that two modifier keys share.
pub open spec fn is_shared_flag(m: u64) -> bool {
    m == KCG_EVENT_FLAG_MASK_SHIFT || m == KCG_EVENT_FLAG_MASK_CONTROL || m
        == KCG_EVENT_FLAG_MASK_ALTERNATE || m == KCG_EVENT_FLAG_MASK_COMMAND
}

proof fn lemma_flag_bits(vk: u16, m: u64)
    requires
        modifier_flags(vk) is Some,
        is_shared_flag(m),
    ensures
        ({
            let (i, d) = modifier_flags(vk)->0;
            &&& is_shared_flag(i)
            &&& d != 0
            &&& i & family(i) == 0
            &&& d & family(i) == d
            &&& m != i ==> i & m == 0 && d & m == 0 && i & family(m) == 0 && d & family(m) == 0
        }),
{
    let (i, d) = modifier_flags(vk)->0;
    let (k, n) = (family(i), family(m));
    assert((0x2u64 | 0x4u64) == 0x6 && (0x1u64 | 0x2000u64) == 0x2001 && (0x20u64 | 0x40u64) == 0x60
        && (0x8u64 | 0x10u64) == 0x18) by (bit_vector);
    assert(i & k == 0 && d & k == d && (m != i ==> i & m == 0 && d & m == 0 && i & n == 0 && d & n
        == 0)) by (bit_vector)
        requires
            i == 0x2_0000 && k == 0x6 && (d == 0x2 || d == 0x4) || i == 0x4_0000 && k == 0x2001 && (d
                == 0x1 || d == 0x2000) || i == 0x8_0000 && k == 0x60 && (d == 0x20 || d == 0x40) || i
                == 0x10_0000 && k == 0x18 && (d == 0x8 || d == 0x10),
            m == 0x2_0000 && n == 0x6 || m == 0x4_0000 && n == 0x2001 || m == 0x8_0000 && n == 0x60
                || m == 0x10_0000 && n == 0x18,
    ;
}

proof fn lemma_other_flags_kept(input: MacInput, vk: u16, pressed: bool, m: u64)
    requires
        modifier_flags(vk) is Some,
        is_shared_flag(m),
        m != (modifier_flags(vk)->0).0,
        shared_flag_holds(input.injected_flags, m),
    ensures
        shared_flag_holds(input.flags_after(vk, pressed), m),
{
    let (indep, dep) = modifier_flags(vk)->0;
    lemma_flag_bits(vk, m);
    lemma_other_bits(input.injected_flags, indep, dep, m);
    lemma_other_bits(input.injected_flags, indep, dep, family(m));
}

/// What a modifier key does to the modifier flags. Pressing it sets its own flag and the one that
/// it shares with the key on the other side. Releasing it clears its own flag, and leaves the
/// shared one set exactly if the key on the other side is held. All other flags stay as they are,
/// and every shared flag is set exactly while one of its keys is held.
pub proof fn lemma_modifier_key(input: MacInput, vk: u16, pressed: bool)
    requires
        modifier_flags(vk) is Some,
        consistent(input.injected_flags),
    ensures
        ({
            let (indep, dep) = modifier_flags(vk)->0;
            let before = input.injected_flags;
            let after = input.flags_after(vk, pressed);
            &&& pressed ==> after == before | (indep | dep)
            &&& !pressed ==> after & dep == 0
            &&& !pressed ==> ((after & indep != 0) <==> before & (family(indep) & !dep) != 0)
            &&& after & !(indep | dep) == before & !(indep | dep)
            &&& consistent(after)
        }),
{
    let (indep, dep) = modifier_flags(vk)->0;
    lemma_modifiers_do_not_stick(input, vk, pressed);
    lemma_flag_bits(vk, indep);
    lemma_each_bit(input.injected_flags, indep, family(indep), dep);
}

/// No modifier is stuck: the flag that two modifier keys share is set exactly while one of them is
/// held, whatever is pressed and released in whatever order; and releasing a key that was pressed
/// brings back the flags from before.
pub proof fn lemma_modifiers_do_not_stick(input: MacInput, vk: u16, pressed: bool)
    requires
        consistent(input.injected_flags),
    ensures
        consistent(input.flags_after(vk, pressed)),
        modifier_flags(vk) matches Some((indep, dep)) ==> input.injected_flags & dep == 0
            ==> without_modifier(
            with_modifier(input.injected_flags, indep, dep),
            indep,
            dep,
        ) == input.injected_flags,
{
    let f = input.injected_flags;
    if let Some((indep, dep)) = modifier_flags(vk) {
        lemma_flag_bits(vk, indep);
        lemma_own_bits(f, indep, family(indep), dep);
        if f & dep == 0 {
            lemma_undone(f, indep, family(indep), dep);
        }
        if indep != KCG_EVENT_FLAG_MASK_SHIFT {
            lemma_other_flags_kept(input, vk, pressed, KCG_EVENT_FLAG_MASK_SHIFT);
        }
        if indep != KCG_EVENT_FLAG_MASK_CONTROL {
            lemma_other_flags_kept(input, vk, pressed, KCG_EVENT_FLAG_MASK_CONTROL);
        }
        if indep != KCG_EVENT_FLAG_MASK_ALTERNATE {
            lemma_other_flags_kept(input, vk, pressed, KCG_EVENT_FLAG_MASK_ALTERNATE);
        }
        if indep != KCG_EVENT_FLAG_MASK_COMMAND {
            lemma_other_flags_kept(input, vk, pressed, KCG_EVENT_FLAG_MASK_COMMAND);
        }
    }
}

/// What is captured of an event goes by the number of its type: 1 and 2 are the press and the release
/// of the left button, 3 and 4 of the right, 25 and 26 of one of the others, 10 and 11 those of a
/// key, 12 is a change of the modifier keys, and 22 turns the wheels.
pub proof fn lemma_captured_types(input: MacInput, ev: RawEvent)
    requires
        0 <= ev.keycode < 0x1_0000,
    ensures
        ({
            let t = ev.event_type;
            let sent = input.captured(ev);
            &&& t == 1 || t == 2 ==> sent == Some(
                InputEvent::MouseButton(
                    MouseButtonEvent { button: MouseButton::Left, pressed: t == 1 },
                ),
            )
            &&& t == 3 || t == 4 ==> sent == Some(
                InputEvent::MouseButton(
                    MouseButtonEvent { button: MouseButton::Right, pressed: t == 3 },
                ),
            )
            &&& t == 25 || t == 26 ==> (sent matches Some(InputEvent::MouseButton(mb)) && mb.pressed
                == (t == 25) && (ev.button_number < 3
                || ev.button_number > 4 ==> mb.button is Middle) && (
            ev.button_number == 3 ==> mb.button is Button4) && (ev.button_number == 4
                ==> mb.button is Button5))
            &&& t == 10 || t == 11 ==> sent == Some(
                InputEvent::Key(
                    KeyEvent {
                        scancode: keycodes::mac_scancode(ev.keycode as u16),
                        pressed: t == 10,
                    },
                ),
            )
            &&& t == 12 ==> (sent matches Some(InputEvent::Key(ke)) && ke.scancode
                == keycodes::mac_scancode(ev.keycode as u16) && ke.pressed == modifier_pressed(
                ev.keycode as u16,
                ev.flags,
                input.prev_flags,
            ))
            &&& t == 22 ==> sent is Some && sent->0 is MouseScroll
            &&& 5 <= t <= 9 || 13 <= t <= 21 || t == 0 || t == 23 || t == 24 || t >= 27 ==> sent
                is None
        }),
{
}

/// One notch of a wheel travels as 120 units in its direction, as far as the number fits, and comes
/// back as one line.
pub proof fn lemma_notches(notches: i64)
    requires
        -0x8000_0000 <= notches < 0x8000_0000,
    ensures
        -17895697 <= notches <= 17895697 ==> wheel_units(notches) == notches * 120 && lines(
            wheel_units(notches) as int,
        ) == notches,
        notches > 17895697 ==> wheel_units(notches) == i32::MAX,
        notches < -17895698 ==> wheel_units(notches) == i32::MIN,
{
}

/// The horizontal part of a scroll stays horizontal, and the vertical part vertical.
pub proof fn lemma_scroll_axes(input: MacInput, ev: RawEvent)
    requires
        ev.event_type == 22,
    ensures
        input.captured(ev) matches Some(InputEvent::MouseScroll(ms)) && ms.dx == wheel_units(
            ev.scroll_horizontal,
        ) && ms.dy == wheel_units(ev.scroll_vertical),
{
}

/// Scrolling by any amount scrolls by at least one line, in the same direction, and by no more lines
/// than there are notches otherwise. Up and down are alike.
pub proof fn lemma_lines(units: int)
    ensures
        units > 0 ==> lines(units) >= 1,
        units >= 120 ==> lines(units) * 120 <= units < (lines(units) + 1) * 120,
        0 < units < 120 ==> lines(units) == 1,
        lines(0) == 0,
        lines(-units) == -lines(units),
{
}

/// A modifier key is down after a change of flags exactly if the flag of its kind is set, and Caps
/// Lock if its own is: 0x20000 for Shift, 0x40000 for Control, 0x80000 for Option, 0x100000 for
/// Command and 0x10000 for Caps Lock.
pub proof fn lemma_modifier_flags(vk: u16, flags: u64, prev: u64)
    ensures
        vk == 0x38 || vk == 0x3C ==> modifier_pressed(vk, flags, prev) == (flags & 0x2_0000 != 0),
        vk == 0x3B || vk == 0x3E ==> modifier_pressed(vk, flags, prev) == (flags & 0x4_0000 != 0),
        vk == 0x3A || vk == 0x3D ==> modifier_pressed(vk, flags, prev) == (flags & 0x8_0000 != 0),
        vk == 0x37 || vk == 0x36 ==> modifier_pressed(vk, flags, prev) == (flags & 0x10_0000 != 0),
        vk == 0x39 ==> modifier_pressed(vk, flags, prev) == (flags & 0x1_0000 != 0),
        modifier_flags(0x38) == Some((0x2_0000u64, 0x2u64)),
        modifier_flags(0x3C) == Some((0x2_0000u64, 0x4u64)),
        modifier_flags(0x3B) == Some((0x4_0000u64, 0x1u64)),
        modifier_flags(0x3E) == Some((0x4_0000u64, 0x2000u64)),
        modifier_flags(0x3A) == Some((0x8_0000u64, 0x20u64)),
        modifier_flags(0x3D) == Some((0x8_0000u64, 0x40u64)),
        modifier_flags(0x37) == Some((0x10_0000u64, 0x8u64)),
        modifier_flags(0x36) == Some((0x10_0000u64, 0x10u64)),
        vk < 0x36 || vk > 0x3E || vk == 0x39 ==> modifier_flags(vk) is None,
        family(0x2_0000) == 0x6 && family(0x4_0000) == 0x2001,
        family(0x8_0000) == 0x60 && family(0x10_0000) == 0x18,
        vk < 0x36 || vk > 0x3E ==> modifier_pressed(vk, flags, prev) == (flags > prev),
{
    assert((0x2u64 | 0x4u64) == 0x6 && (0x1u64 | 0x2000u64) == 0x2001 && (0x20u64 | 0x40u64) == 0x60
        && (0x8u64 | 0x10u64) == 0x18) by (bit_vector);
}

/// An event of a key changes what the flags were if it is a change of flags, and nothing else does.
pub proof fn lemma_seen_flags(input: MacInput, ev: RawEvent, now_ms: u64)
    requires
        ev.marker != 0x5346_4C57,
        ev.event_type != 0xFFFF_FFFE,
    ensures
        ev.event_type == 12 ==> input.tapped(ev, true, now_ms).0.prev_flags == ev.flags,
        ev.event_type != 12 ==> input.tapped(ev, true, now_ms).0.prev_flags == input.prev_flags,
        input.tapped(ev, true, now_ms).0.injected_flags == input.injected_flags,
        input.tapped(ev, true, now_ms).0.held == input.held,
        input.tapped(ev, true, now_ms).0.suppress == input.suppress,
{
}

/// What the event tap sees of other input than moves is captured. It reaches the applications unless
/// another machine is controlled. Before capture starts, and if it was injected here, it passes
/// unseen. A tap that was switched off is switched on again.
pub proof fn lemma_tap(input: MacInput, ev: RawEvent, capturing: bool, now_ms: u64)
    ensures
        ({
            let (after, verdict) = input.tapped(ev, capturing, now_ms);
            let t = ev.event_type;
            let seen = capturing && ev.marker != 0x5346_4C57 && t != 0xFFFF_FFFE;
            &&& t == 0xFFFF_FFFE <==> verdict.reenable
            &&& !seen ==> after == input && verdict.send is None && verdict.pass && verdict.warp
                is None
            &&& seen ==> verdict.pass == !input.suppress
            &&& seen && !(5 <= t <= 7 || t == 27) ==> verdict.send == input.captured(ev)
                && verdict.warp is None && after.cursor == input.cursor
        }),
{
}

/// While this machine has control, the position of the cursor is captured if there is a peer, at
/// most once in 16 milliseconds. It always reaches the applications and is remembered.
pub proof fn lemma_local_moves(input: MacInput, ev: RawEvent, now_ms: u64)
    requires
        !input.suppress,
        5 <= ev.event_type <= 7 || ev.event_type == 27,
        ev.marker != 0x5346_4C57,
        now_ms >= input.last_move_ms,
    ensures
        ({
            let (after, verdict) = input.tapped(ev, true, now_ms);
            let due = input.peers_connected && now_ms - input.last_move_ms >= 16;
            &&& verdict.pass && verdict.warp is None
            &&& after.last_cursor.x == ev.x && after.last_cursor.y == ev.y
            &&& due ==> verdict.send == Some(
                InputEvent::MouseMove(MouseMoveEvent { x: ev.x, y: ev.y }),
            ) && after.last_move_ms == now_ms
            &&& !due ==> verdict.send is None && after.last_move_ms == input.last_move_ms
            &&& after.cursor == input.cursor
        }),
{
}

/// While another machine is controlled, a movement moves the cursor there by as much, as far as its
/// screen goes, with or without a button held, and the local cursor is put back where it was.
pub proof fn lemma_remote_moves(input: MacInput, ev: RawEvent, now_ms: u64)
    requires
        input.suppress,
        5 <= ev.event_type <= 7 || ev.event_type == 27,
        ev.marker != 0x5346_4C57,
        -0x8000_0000 <= ev.delta_x < 0x8000_0000,
        -0x8000_0000 <= ev.delta_y < 0x8000_0000,
        input.cursor.has_room(),
    ensures
        ({
            let (after, verdict) = input.tapped(ev, true, now_ms);
            let c = input.cursor;
            let (dx, dy) = (ev.delta_x, ev.delta_y);
            &&& !verdict.pass
            &&& verdict.warp == Some(input.anchor) && after.anchor == input.anchor
            &&& after.last_cursor == input.last_cursor
            &&& dx == 0 && dy == 0 ==> verdict.send is None && after == input
            &&& dx != 0 || dy != 0 ==> {
                &&& verdict.send == Some(
                    InputEvent::MouseMove(
                        MouseMoveEvent { x: after.cursor.x, y: after.cursor.y },
                    ),
                )
                &&& c.left <= c.x + dx < c.right ==> after.cursor.x == c.x + dx
                &&& c.x + dx < c.left ==> after.cursor.x == c.left
                &&& c.x + dx >= c.right ==> after.cursor.x == c.right - 1
                &&& c.top <= c.y + dy < c.bottom ==> after.cursor.y == c.y + dy
                &&& c.y + dy < c.top ==> after.cursor.y == c.top
                &&& c.y + dy >= c.bottom ==> after.cursor.y == c.bottom - 1
            }
        }),
{
}

/// A button is injected as the event that it is captured from.
pub proof fn lemma_buttons_come_back(
    input: MacInput,
    ev: RawEvent,
    button: MouseButton,
    pressed: bool,
)
    requires
        ev.event_type == button_type(button, pressed).0,
        ev.button_number == button_type(button, pressed).1,
    ensures
        input.captured(ev) == Some(InputEvent::MouseButton(MouseButtonEvent { button, pressed })),
        button is Left <==> ev.button_number == 0,
        button is Right <==> ev.button_number == 1,
{
}

/// A move with a button held is a drag with it: with the left one before the right one before any
/// other. Without one it is a plain move.
pub proof fn lemma_drags(held: u8)
    ensures
        held & 1 != 0 ==> drag_type(held) == (6u32, 0u32),
        held & 1 == 0 && held & 2 != 0 ==> drag_type(held) == (7u32, 1u32),
        held & 1 == 0 && held & 2 == 0 && held & 4 != 0 ==> drag_type(held) == (27u32, 2u32),
        held & 1 == 0 && held & 2 == 0 && held & 4 == 0 ==> drag_type(held) == (5u32, 0u32),
        held_bit(MouseButton::Left) == 1 && held_bit(MouseButton::Right) == 2,
        held_bit(MouseButton::Middle) == 4 && held_bit(MouseButton::Button4) == 4,
        held_bit(MouseButton::Button5) == 4,
{
}

/// A press counts on from the last one if it is of the same button, less than 500 milliseconds after
/// it, and at most five pixels away in either direction.
pub proof fn lemma_double_clicks(
    clicks: ClickState,
    button: MouseButton,
    x: int,
    y: int,
    now_ms: u64,
)
    ensures
        clicks.continues(button, x, y, now_ms) <==> {
            &&& clicks.last_button == Some(button)
            &&& clicks.last_press_ms is Some && now_ms - (clicks.last_press_ms->0) < 500
            &&& -5 <= x - clicks.last_x <= 5
            &&& -5 <= y - clicks.last_y <= 5
        },
{
}

/// A key of a peer is injected once as the key of its scancode, pressed or released as it was there,
/// and with the modifier keys that are held. A key that a Mac does not have is dropped.
pub proof fn lemma_plain_keys(input: MacInput, vk: u16, pressed: bool)
    requires
        keycodes::mac_scancode(vk) != 0,
        vk < 0x36 || vk > 0x3E,
    ensures
        ({
            let (posts, flags) = input.key_posts(keycodes::mac_scancode(vk), pressed);
            &&& flags == input.injected_flags
            &&& posts.len() == 1
            &&& posts[0].vk == vk
            &&& posts[0].down == pressed
            &&& !posts[0].flags_changed
            &&& input.injected_flags != 0 ==> posts[0].flags == Some(input.injected_flags)
            &&& input.injected_flags == 0 ==> posts[0].flags is None
        }),
        forall|sc: u16|
            keycodes::mac_vk(sc) is None ==> (#[trigger] input.key_posts(sc, pressed)).0.len() == 0,
{
    keycodes::lemma_key_round_trip(vk);
}

/// A modifier key of a peer is injected as a change of flags, with the flags that follow from it, and
/// these are kept. Caps Lock is pressed and released at once when it is pressed, and its release is
/// dropped.
pub proof fn lemma_modifier_keys(input: MacInput, vk: u16, pressed: bool)
    requires
        vk == 0x37 || vk == 0x38 || vk == 0x39 || vk == 0x3A || vk == 0x3B || vk == 0x3C || vk == 0x3D
            || vk == 0x3E,
    ensures
        ({
            let (posts, flags) = input.key_posts(keycodes::mac_scancode(vk), pressed);
            &&& vk != 0x39 ==> posts.len() == 1 && posts[0].vk == vk && posts[0].down == pressed
                && posts[0].flags_changed && posts[0].flags == Some(flags) && flags
                == input.flags_after(vk, pressed)
            &&& vk == 0x39 && pressed ==> posts.len() == 2 && posts[0].vk == vk && posts[0].down
                && posts[1].vk == vk && !posts[1].down && posts[0].flags_changed
                && posts[1].flags_changed && posts[0].flags == Some(0x1_0000u64) && posts[1].flags
                == Some(0u64)
            &&& vk == 0x39 && !pressed ==> posts.len() == 0
            &&& vk == 0x39 ==> flags == input.injected_flags
        }),
{
    keycodes::lemma_key_round_trip(vk);
}

/// When suppression ends, each modifier key one of whose flags is set is released, and no other.
pub proof fn lemma_stuck_modifiers_are_released(flags: u64, vks: Seq<u16>)
    ensures
        forall|i: int|
            0 <= i < release_posts(flags, vks).len() ==> {
                let post = #[trigger] release_posts(flags, vks)[i];
                &&& !post.down && post.flags_changed && post.flags == Some(0u64)
                &&& vks.contains(post.vk)
                &&& modifier_flags(post.vk) matches Some((indep, dep)) && flags & (indep | dep) != 0
            },
        forall|i: int|
            0 <= i < vks.len() && (modifier_flags(#[trigger] vks[i]) matches Some((indep, dep))
                && flags & (indep | dep) != 0) ==> exists|j: int|
                0 <= j < release_posts(flags, vks).len() && (#[trigger] release_posts(flags, vks)[j]).vk
                    == vks[i],
    decreases vks.len(),
{
    reveal(Seq::filter);
    let pred = |vk: u16| flagged(flags, vk);
    if vks.len() > 0 {
        let front = vks.drop_last();
        lemma_stuck_modifiers_are_released(flags, front);
        let (some, all) = (release_posts(flags, front), release_posts(flags, vks));
        if flagged(flags, vks.last()) {
            assert(all =~= some.push(release_post(vks.last())));
        } else {
            assert(all =~= some);
        }
        assert forall|i: int| 0 <= i < all.len() implies {
            let post = #[trigger] all[i];
            &&& !post.down && post.flags_changed && post.flags == Some(0u64)
            &&& vks.contains(post.vk)
            &&& modifier_flags(post.vk) matches Some((indep, dep)) && flags & (indep | dep) != 0
        } by {
            if i < some.len() {
                let post = some[i];
                assert(front.contains(post.vk));
                let k = choose|k: int| 0 <= k < front.len() && front[k] == post.vk;
                assert(vks[k] == post.vk);
            } else {
                assert(vks[vks.len() - 1] == all[i].vk);
            }
        }
        assert forall|i: int|
            0 <= i < vks.len() && (modifier_flags(#[trigger] vks[i]) matches Some((indep, dep))
                && flags & (indep | dep) != 0) implies exists|j: int|
            0 <= j < all.len() && (#[trigger] all[j]).vk == vks[i] by {
            if i < front.len() {
                assert(front[i] == vks[i]);
                let j = choose|j: int| 0 <= j < some.len() && (#[trigger] some[j]).vk == front[i];
                assert(all[j].vk == vks[i]);
            } else {
                assert(all[all.len() - 1].vk == vks[i]);
            }
        }
    }
}

/// All modifier keys are looked at: both keys of Shift, Control, Option and Command.
pub proof fn lemma_all_modifiers(vk: u16)
    ensures
        modifier_vks().contains(vk) <==> modifier_flags(vk) is Some,
        modifier_vks().no_duplicates(),
{
    let all = modifier_vks();
    assert(all[0] == 0x38 && all[1] == 0x3C && all[2] == 0x3B && all[3] == 0x3E && all[4] == 0x3A
        && all[5] == 0x3D && all[6] == 0x37 && all[7] == 0x36);
}

/// Keyboard injection is warmed up by a press of Left Shift and its release.
pub proof fn lemma_priming()
    ensures
        priming_posts().len() == 2,
        priming_posts()[0].vk == 0x38 && priming_posts()[0].down,
        priming_posts()[1].vk == 0x38 && !priming_posts()[1].down,
{
}

/// A display is shown where it is, as large as it is, under its number.
pub proof fn lemma_displays(s: ScreenInfo, d: Display)
    requires
        shows(s, d),
    ensures
        s.x == d.x && s.y == d.y && s.width == d.width && s.height == d.height,
        s.primary == d.main,
        text::decimal_value(s.id@.skip(8)) == d.id,
        s.id@.take(8) == "display-"@,
{
    reveal_strlit("display-");
    text::lemma_decimal(d.id as nat);
    assert(s.id@.skip(8) =~= text::decimal(d.id as nat));
    assert(s.id@.take(8) =~= "display-"@);
}

/// Every event can be handled while the cursor has a screen to move on, and while this machine has
/// control.
pub proof fn lemma_tap_takes_events(input: MacInput, ev: RawEvent, capturing: bool)
    ensures
        input.cursor.left < input.cursor.right && input.cursor.top < input.cursor.bottom
            ==> input.takes(ev, capturing),
        !input.suppress || !capturing ==> input.takes(ev, capturing),
{
}

/// A clock that starts anew does not hold moves back.
pub proof fn lemma_clock_restarts(last_ms: u64, now_ms: u64)
    ensures
        now_ms >= last_ms ==> (move_due(last_ms, now_ms) <==> now_ms - last_ms >= 16),
        now_ms < last_ms && last_ms - now_ms <= 0xFFFF_FFFF_FFFF_FFF0 ==> move_due(last_ms, now_ms),
{
}

} // verus!
