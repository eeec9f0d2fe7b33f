//! The decoded, platform-independent representation of a single user
//! keystroke.  Raw terminal decoding is the host's business; the overlay
//! only ever sees one of these logical events.

use vstd::prelude::*;

verus! {

/// A logical key event.  The overlay reacts to printable characters,
/// `Backspace`, `Enter` and `Esc`; every other key is ignored.
#[derive(Clone, Copy, PartialEq, Eq, Debug)]
pub enum Key {
    Backspace,
    Tab,
    Enter,
    Esc,
    Delete,
    Up,
    Down,
    Left,
    Right,
    Char(char),
    Ctrl(char),
}

} // verus!
