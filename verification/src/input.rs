//! Window events turned into the input that the interface consumes.

use vstd::prelude::*;
use crate::geometry::Point;

verus! {

/// How far one line of the scroll wheel scrolls, in units.
pub const SCROLL_SCALE: u16 = 22;

/// What a turn of the wheel is measured in.
#[derive(Clone, Copy, Debug, PartialEq, Eq, Structural)]
pub enum WheelUnit {
    Lines,
    Pixels,
}

/// A key of the keyboard, as the window reports it.
#[derive(Clone, Copy, Debug, PartialEq, Eq, Structural)]
pub enum KeyCode {
    Back,
    Delete,
    Up,
    Down,
    Left,
    Right,
    /// Any key that the interface has no use for.
    Other,
}

/// A navigation or editing key, as the interface knows it.
#[derive(Clone, Copy, Debug, PartialEq, Eq, Structural)]
pub enum NavKey {
    /// No key of the interface.
    Unmapped,
    Backspace,
    Del,
    Up,
    Down,
    Left,
    Right,
}

/// A button of the pointer, as the window reports it.
#[derive(Clone, Copy, Debug, PartialEq, Eq, Structural)]
pub enum PointerButton {
    Left,
    Middle,
    Right,
    /// Any further button.
    Other,
}

/// A button of the pointer, as the interface knows it.
#[derive(Clone, Copy, Debug, PartialEq, Eq, Structural)]
pub enum GuiButton {
    Left,
    Middle,
    Right,
    /// Stands for every button that the interface does not track.
    Max,
}

/// An event of the window.
#[derive(Clone, Copy, Debug, PartialEq, Eq, Structural)]
pub enum WindowInput {
    /// A character was typed.
    Character(char),
    /// A key went down or up; `code` is `None` where the window could not
    /// name the key.
    Keyboard { code: Option<KeyCode>, pressed: bool },
    /// The pointer moved to this position.
    CursorMoved { x: i32, y: i32 },
    /// A button of the pointer went down or up.
    Mouse { button: PointerButton, pressed: bool },
    /// The wheel turned. By how much stays with the host, which has it as a
    /// fraction.
    Wheel { unit: WheelUnit },
}

/// An input of the interface.
#[derive(Clone, Copy, Debug, PartialEq, Eq, Structural)]
pub enum GuiInput {
    Unicode(char),
    Key { key: NavKey, down: bool },
    Motion { x: i32, y: i32 },
    Button { button: GuiButton, x: i32, y: i32, down: bool },
    /// Scroll by the turn of the wheel times `per_line`.
    Scroll { per_line: u16 },
}

/// The interface's name for a key.
pub open spec fn nav_key(code: KeyCode) -> NavKey {
    match code {
        KeyCode::Back => NavKey::Backspace,
        KeyCode::Delete => NavKey::Del,
        KeyCode::Up => NavKey::Up,
        KeyCode::Down => NavKey::Down,
        KeyCode::Left => NavKey::Left,
        KeyCode::Right => NavKey::Right,
        KeyCode::Other => NavKey::Unmapped,
    }
}

/// The interface's name for a button.
pub open spec fn gui_button(button: PointerButton) -> GuiButton {
    match button {
        PointerButton::Left => GuiButton::Left,
        PointerButton::Middle => GuiButton::Middle,
        PointerButton::Right => GuiButton::Right,
        PointerButton::Other => GuiButton::Max,
    }
}

/// What the interface is fed for `event` while the pointer was last seen at
/// `pointer`: a button event happens where the pointer is, a turn of the
/// wheel in lines scrolls `SCROLL_SCALE` units a line, and a turn in pixels
/// and a key without a name are dropped.
pub open spec fn input_for(pointer: Point, event: WindowInput) -> Option<GuiInput> {
    match event {
        WindowInput::Character(c) => Some(GuiInput::Unicode(c)),
        WindowInput::Keyboard { code: Some(code), pressed } => Some(
            GuiInput::Key { key: nav_key(code), down: pressed },
        ),
        WindowInput::Keyboard { code: None, pressed } => None,
        WindowInput::CursorMoved { x, y } => Some(GuiInput::Motion { x, y }),
        WindowInput::Mouse { button, pressed } => Some(
            GuiInput::Button { button: gui_button(button), x: pointer.x, y: pointer.y, down: pressed },
        ),
        WindowInput::Wheel { unit: WheelUnit::Lines } => Some(
            GuiInput::Scroll { per_line: SCROLL_SCALE },
        ),
        WindowInput::Wheel { unit: WheelUnit::Pixels } => None,
    }
}

/// Where the pointer is after `event`, having been at `pointer`.
pub open spec fn pointer_after(pointer: Point, event: WindowInput) -> Point {
    match event {
        WindowInput::CursorMoved { x, y } => Point { x, y },
        _ => pointer,
    }
}

/// The interface's name for a key.
pub fn map_key(code: KeyCode) -> (key: NavKey)
    ensures
        key == nav_key(code),
{
    match code {
        KeyCode::Back => NavKey::Backspace,
        KeyCode::Delete => NavKey::Del,
        KeyCode::Up => NavKey::Up,
        KeyCode::Down => NavKey::Down,
        KeyCode::Left => NavKey::Left,
        KeyCode::Right => NavKey::Right,
        KeyCode::Other => NavKey::Unmapped,
    }
}

/// The interface's name for a button.
pub fn map_button(button: PointerButton) -> (mapped: GuiButton)
    ensures
        mapped == gui_button(button),
{
    match button {
        PointerButton::Left => GuiButton::Left,
        PointerButton::Middle => GuiButton::Middle,
        PointerButton::Right => GuiButton::Right,
        PointerButton::Other => GuiButton::Max,
    }
}

/// Remembers where the pointer was last seen, so that button events can be
/// given a position.
#[derive(Clone, Copy, Debug, PartialEq, Eq, Structural)]
pub struct InputTracker {
    pub pointer: Point,
}

impl InputTracker {
    /// A tracker with the pointer at the origin.
    pub fn new() -> (tracker: InputTracker)
        ensures
            tracker.pointer == (Point { x: 0, y: 0 }),
    {
        InputTracker { pointer: Point { x: 0, y: 0 } }
    }

    /// Takes one event of the window and says what to feed the interface.
    pub fn feed(&mut self, event: WindowInput) -> (input: Option<GuiInput>)
        ensures
            input == input_for(old(self).pointer, event),
            final(self).pointer == pointer_after(old(self).pointer, event),
    {
        match event {
            WindowInput::Character(c) => Some(GuiInput::Unicode(c)),
            WindowInput::Keyboard { code, pressed } => match code {
                Some(code) => Some(GuiInput::Key { key: map_key(code), down: pressed }),
                None => None,
            },
            WindowInput::CursorMoved { x, y } => {
                self.pointer = Point { x, y };
                Some(GuiInput::Motion { x, y })
            },
            WindowInput::Mouse { button, pressed } => Some(
                GuiInput::Button {
                    button: map_button(button),
                    x: self.pointer.x,
                    y: self.pointer.y,
                    down: pressed,
                },
            ),
            WindowInput::Wheel { unit } => match unit {
                WheelUnit::Lines => Some(GuiInput::Scroll { per_line: SCROLL_SCALE }),
                WheelUnit::Pixels => None,
            },
        }
    }
}

} // verus!
