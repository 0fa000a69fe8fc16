//! Input events, and how each platform captures and injects them.
pub mod cursor;
pub mod keycodes;
pub mod linux;
pub mod macos;
pub mod windows;

use crate::protocol::{KeyEvent, Message, MouseButtonEvent, MouseMoveEvent, MouseScrollEvent};
use vstd::prelude::*;

verus! {

/// An event of the keyboard or the mouse of this machine.
#[derive(Debug, Clone, Copy, PartialEq, Eq, Structural)]
pub enum InputEvent {
    MouseMove(MouseMoveEvent),
    MouseButton(MouseButtonEvent),
    MouseScroll(MouseScrollEvent),
    Key(KeyEvent),
}

impl InputEvent {
    /// The message that carries the event to a peer.
    pub open spec fn spec_message(self) -> Message {
        match self {
            InputEvent::MouseMove(mv) => Message::MouseMove(mv),
            InputEvent::MouseButton(mb) => Message::MouseButton(mb),
            InputEvent::MouseScroll(ms) => Message::MouseScroll(ms),
            InputEvent::Key(ke) => Message::Key(ke),
        }
    }

    /// The message that carries the event to a peer.
    pub fn message(self) -> (r: Message)
        ensures
            r == self.spec_message(),
    {
        match self {
            InputEvent::MouseMove(mv) => Message::MouseMove(mv),
            InputEvent::MouseButton(mb) => Message::MouseButton(mb),
            InputEvent::MouseScroll(ms) => Message::MouseScroll(ms),
            InputEvent::Key(ke) => Message::Key(ke),
        }
    }
}

} // verus!
