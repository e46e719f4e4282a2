//! Keys, modifiers and buttons as the shell names them.

use vstd::prelude::*;

verus! {

/// Keyboard keys the shell cares about.
#[derive(Clone, Copy, Debug, PartialEq, Eq, Hash, Structural)]
pub enum Key {
    A, B, C, D, E, F, G, H, I, J, K, L, M,
    N, O, P, Q, R, S, T, U, V, W, X, Y, Z,
    Num0, Num1, Num2, Num3, Num4, Num5, Num6, Num7, Num8, Num9,
    Space,
    Enter,
    Escape,
    Tab,
    Backspace,
    Delete,
    Up, Down, Left, Right,
    Home, End,
    PageUp, PageDown,
    Shift, Control, Alt,
    /// Super, Windows or Command.
    Meta,
    F1, F2, F3, F4, F5, F6, F7, F8, F9, F10, F11, F12,
    Unknown,
}

/// Active modifier keys.
#[derive(Clone, Copy, Debug, PartialEq, Eq, Structural)]
pub struct Modifiers {
    pub shift: bool,
    pub control: bool,
    pub alt: bool,
    pub meta: bool,
}

/// Mouse buttons.
#[derive(Clone, Copy, Debug, PartialEq, Eq, Hash, Structural)]
pub enum MouseButton {
    Left,
    Right,
    Middle,
}

impl Modifiers {
    /// No modifier held.
    pub fn none() -> (m: Modifiers)
        ensures
            m == (Modifiers { shift: false, control: false, alt: false, meta: false }),
    {
        Modifiers { shift: false, control: false, alt: false, meta: false }
    }

    /// Whether any modifier is held.
    pub fn any(&self) -> (held: bool)
        ensures
            held == (self.shift || self.control || self.alt || self.meta),
    {
        self.shift || self.control || self.alt || self.meta
    }

    /// The modifiers after `key` went down or up. A key that is no modifier
    /// changes nothing.
    pub open spec fn after_key(self, key: Key, pressed: bool) -> Modifiers {
        match key {
            Key::Shift => Modifiers { shift: pressed, ..self },
            Key::Control => Modifiers { control: pressed, ..self },
            Key::Alt => Modifiers { alt: pressed, ..self },
            Key::Meta => Modifiers { meta: pressed, ..self },
            _ => self,
        }
    }

    /// Takes a key transition in.
    pub fn track(&mut self, key: Key, pressed: bool)
        ensures
            *final(self) == old(self).after_key(key, pressed),
    {
        match key {
            Key::Shift => {
                self.shift = pressed;
            },
            Key::Control => {
                self.control = pressed;
            },
            Key::Alt => {
                self.alt = pressed;
            },
            Key::Meta => {
                self.meta = pressed;
            },
            _ => {},
        }
    }
}

/// The key that an evdev key code stands for. Both shift keys are `Shift`;
/// a code that the shell has no name for is `Unknown`.
pub open spec fn evdev_to_key_spec(code: u16) -> Key {
    if code == 1 {
        Key::Escape
    } else if code == 14 {
        Key::Backspace
    } else if code == 15 {
        Key::Tab
    } else if code == 28 {
        Key::Enter
    } else if code == 29 {
        Key::Control
    } else if code == 42 || code == 54 {
        Key::Shift
    } else if code == 56 {
        Key::Alt
    } else if code == 57 {
        Key::Space
    } else {
        Key::Unknown
    }
}

/// Converts an evdev key code to a key.
pub fn evdev_to_key(code: u16) -> (key: Key)
    ensures
        key == evdev_to_key_spec(code),
{
    match code {
        1 => Key::Escape,
        14 => Key::Backspace,
        15 => Key::Tab,
        28 => Key::Enter,
        29 => Key::Control,
        42 => Key::Shift,
        54 => Key::Shift,
        56 => Key::Alt,
        57 => Key::Space,
        _ => Key::Unknown,
    }
}

} // verus!
