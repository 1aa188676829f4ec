use vstd::prelude::*;

verus! {

/// The key that was pressed, as far as the editor tells keys apart.
#[derive(Clone, Copy, Debug, PartialEq, Eq, Structural)]
pub enum KeyCode {
    Up,
    Down,
    Left,
    Right,
    Enter,
    Backspace,
    Delete,
    /// A printable character.
    Char(char),
    /// Any key the editor does not act on (function keys, Home, Tab, ...).
    Other,
}

/// The modifier keys held with a key, as far as the editor tells them apart.
#[derive(Clone, Copy, Debug, PartialEq, Eq, Structural)]
pub enum KeyModifiers {
    /// No modifier at all.
    Plain,
    /// Control and nothing else.
    Control,
    /// Alt and nothing else.
    Alt,
    /// Any other set of modifiers (Shift, or several at once).
    Combined,
}

/// One key press.
#[derive(Clone, Copy, Debug, PartialEq, Eq, Structural)]
pub struct KeyEvent {
    pub code: KeyCode,
    pub modifiers: KeyModifiers,
}

impl KeyEvent {
    pub fn new(code: KeyCode, modifiers: KeyModifiers) -> (e: KeyEvent)
        ensures
            e.code == code,
            e.modifiers == modifiers,
    {
        KeyEvent { code, modifiers }
    }
}

} // verus!
