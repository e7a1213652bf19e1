//! Key presses, as the interface reads them.

use vstd::prelude::*;

verus! {

/// Which key was pressed.
#[derive(Clone, Copy, Debug, PartialEq, Eq, Structural)]
pub enum KeyCode {
    Char(char),
    Enter,
    Esc,
    Backspace,
    Delete,
    Left,
    Right,
    Up,
    Down,
    Home,
    End,
    /// Any key the interface does not act on.
    Other,
}

/// A key press with the modifiers that the interface looks at.
#[derive(Clone, Copy, Debug, PartialEq, Eq, Structural)]
pub struct Key {
    pub code: KeyCode,
    pub ctrl: bool,
    pub alt: bool,
}

impl Key {
    /// A key pressed without modifiers.
    pub fn plain(code: KeyCode) -> (r: Key)
        ensures
            r == (Key { code, ctrl: false, alt: false }),
    {
        Key { code, ctrl: false, alt: false }
    }

    /// A key pressed with Control.
    pub fn ctrl(code: KeyCode) -> (r: Key)
        ensures
            r == (Key { code, ctrl: true, alt: false }),
    {
        Key { code, ctrl: true, alt: false }
    }
}

} // verus!
