//! Terminal events as the editor reads them: a key with its modifiers, or
//! a mouse action with its screen position. The host translates the raw
//! terminal events into these before handing them to the state machine.

use vstd::prelude::*;

verus! {

/// A key, reduced to what the editor distinguishes.
#[derive(Clone, Copy, Debug, PartialEq, Eq, Structural)]
pub enum KeyCode {
    /// A printable character key.
    Char(char),
    Up,
    Down,
    Left,
    Right,
    Home,
    End,
    Esc,
    Enter,
    Backspace,
    /// Any key the editor does not react to.
    Other,
}

/// One key press with the modifiers that were held.
#[derive(Clone, Copy, Debug, PartialEq, Eq, Structural)]
pub struct KeyEvent {
    pub code: KeyCode,
    pub control: bool,
    pub alt: bool,
}

/// One mouse action at a screen position.
#[derive(Clone, Copy, Debug, PartialEq, Eq, Structural)]
pub struct MouseEvent {
    /// True for a press of the primary button; everything else is ignored.
    pub left_press: bool,
    /// Screen row of the pointer.
    pub row: u16,
    /// Screen column of the pointer.
    pub column: u16,
    /// Whether the nibble-granularity modifier was held.
    pub alt: bool,
}

/// A terminal event.
#[derive(Clone, Copy, Debug, PartialEq, Eq, Structural)]
pub enum Event {
    Key(KeyEvent),
    Mouse(MouseEvent),
    /// Resizes and other events the state machine ignores.
    Other,
}

} // verus!
