//! Input on Linux, which is not implemented yet.
use crate::input::InputEvent;
use crate::protocol::{MouseButton, ScreenInfo};
use crate::screen;
use crate::screen::default_screen;
use vstd::prelude::*;

verus! {

/// What starting to capture input is refused with.
pub const CAPTURE_ERROR: &'static str =
    "Linux input capture not yet implemented (requires evdev). Run on Windows or macOS, or contribute an evdev-based implementation.";

pub const MOVE_ERROR: &'static str =
    "Linux mouse injection not yet implemented (requires uinput)";

pub const BUTTON_ERROR: &'static str =
    "Linux mouse button injection not yet implemented (requires uinput)";

pub const SCROLL_ERROR: &'static str =
    "Linux scroll injection not yet implemented (requires uinput)";

pub const KEY_ERROR: &'static str =
    "Linux key injection not yet implemented (requires uinput)";

/// The receiving end of a channel of the standard library.
#[verifier::external_type_specification]
#[verifier::external_body]
#[verifier::reject_recursive_types(T)]
pub struct ExReceiver<T>(std::sync::mpsc::Receiver<T>);

/// Whether input is captured.
pub struct LinuxInputCapture {
    capturing: bool,
}

impl View for LinuxInputCapture {
    type V = bool;

    closed spec fn view(&self) -> bool {
        self.capturing
    }
}

impl LinuxInputCapture {
    pub fn new() -> (r: Self)
        ensures
            !r@,
    {
        LinuxInputCapture { capturing: false }
    }

    /// No events arrive.
    pub fn new_with_channel() -> (r: (Self, Option<std::sync::mpsc::Receiver<InputEvent>>))
        ensures
            !(r.0)@,
            r.1 is None,
    {
        (LinuxInputCapture::new(), None)
    }

    pub fn start_capture(&mut self) -> (r: Result<(), String>)
        ensures
            *final(self) == *old(self),
            r is Err,
            (r->Err_0)@ == CAPTURE_ERROR@,
    {
        Err(CAPTURE_ERROR.to_string())
    }

    pub fn stop_capture(&mut self) -> (r: Result<(), String>)
        ensures
            !final(self)@,
            r is Ok,
    {
        self.capturing = false;
        Ok(())
    }

    pub fn is_capturing(&self) -> (r: bool)
        ensures
            r == self@,
    {
        self.capturing
    }
}

/// Refuses to inject anything.
pub struct LinuxInputInjector;

impl LinuxInputInjector {
    pub fn new() -> (r: Self)
        ensures
            r == LinuxInputInjector,
    {
        LinuxInputInjector
    }

    pub fn move_mouse(&self, _x: i32, _y: i32) -> (r: Result<(), String>)
        ensures
            r is Err,
            (r->Err_0)@ == MOVE_ERROR@,
    {
        Err(MOVE_ERROR.to_string())
    }

    pub fn press_mouse_button(
        &self,
        _button: MouseButton,
        _pressed: bool,
    ) -> (r: Result<(), String>)
        ensures
            r is Err,
            (r->Err_0)@ == BUTTON_ERROR@,
    {
        Err(BUTTON_ERROR.to_string())
    }

    pub fn scroll(&self, _dx: i32, _dy: i32) -> (r: Result<(), String>)
        ensures
            r is Err,
            (r->Err_0)@ == SCROLL_ERROR@,
    {
        Err(SCROLL_ERROR.to_string())
    }

    pub fn send_key(&self, _scancode: u16, _pressed: bool) -> (r: Result<(), String>)
        ensures
            r is Err,
            (r->Err_0)@ == KEY_ERROR@,
    {
        Err(KEY_ERROR.to_string())
    }
}

/// The one screen that is assumed.
pub fn get_screens_linux() -> (r: Vec<ScreenInfo>)
    ensures
        r@.len() == 1,
        screen::is_default_screen(r@[0]),
{
    let mut screens: Vec<ScreenInfo> = Vec::new();
    screens.push(default_screen());
    screens
}

} // verus!
