//! The events that the manager reacts to.

use vstd::prelude::*;

use crate::keyboard::KeyboardEvent;

verus! {

/// A pointer button.
#[derive(Debug, Clone, Copy, PartialEq, Eq, Structural)]
pub enum MouseButton {
    Left,
    Middle,
    Right,
}

impl MouseButton {
    /// The button with the number `value`: 1 is the left, 2 the middle and 3
    /// the right button; there is no other.
    pub fn try_from(value: u8) -> (r: Result<MouseButton, ()>)
        ensures
            value == 1 ==> r == Ok::<MouseButton, ()>(MouseButton::Left),
            value == 2 ==> r == Ok::<MouseButton, ()>(MouseButton::Middle),
            value == 3 ==> r == Ok::<MouseButton, ()>(MouseButton::Right),
            !(1 <= value <= 3) ==> r is Err,
    {
        match value {
            1 => Ok(MouseButton::Left),
            2 => Ok(MouseButton::Middle),
            3 => Ok(MouseButton::Right),
            _ => Err(()),
        }
    }

    /// The number of the button.
    pub fn number(self) -> (r: u8)
        ensures
            r == match self {
                MouseButton::Left => 1u8,
                MouseButton::Middle => 2u8,
                MouseButton::Right => 3u8,
            },
    {
        match self {
            MouseButton::Left => 1,
            MouseButton::Middle => 2,
            MouseButton::Right => 3,
        }
    }
}

/// An event of the display server, as the manager sees it.
#[derive(Debug, Clone)]
pub enum Event {
    KeyPress(KeyboardEvent),
    KeyRelease(KeyboardEvent),
    /// The wheel turned: -1 is up, 1 is down.
    MouseScroll(i32),
    ButtonPress(MouseButton),
    ButtonRelease(MouseButton),
    MouseMove { window_x: i16, window_y: i16, absolute_x: i16, absolute_y: i16 },
    /// The window asks to be mapped.
    MapRequest(u32),
    /// The pointer entered the window.
    EnterNotify(u32),
    /// The window was unmapped.
    UnmapNotify(u32),
    /// The window was destroyed.
    DestroyNotify(u32),
}

} // verus!
