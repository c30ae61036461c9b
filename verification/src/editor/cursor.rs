//! Cursor and editing-mode types of the editor.

use vstd::prelude::*;

verus! {

/// Which nibble of the byte under the cursor is being edited.
#[derive(Clone, Copy, PartialEq, Eq, Debug, Structural)]
pub enum NibblePosition {
    /// High nibble (first hex digit).
    High,
    /// Low nibble (second hex digit).
    Low,
}

/// Whether typing inserts new bytes or overwrites existing ones.
#[derive(Clone, Copy, PartialEq, Eq, Debug, Structural)]
pub enum WriteMode {
    /// Typing replaces existing bytes in place.
    Overwrite,
    /// Typing inserts new bytes, shifting later bytes right.
    Insert,
}

/// Which editing mode is active (hex nibble vs ASCII character).
#[derive(Clone, Copy, PartialEq, Eq, Debug, Structural)]
pub enum EditMode {
    /// Two keystrokes per byte (nibble level).
    Hex,
    /// One keystroke per byte (character level).
    Ascii,
}

impl Default for WriteMode {
    fn default() -> (r: Self)
        ensures
            r == WriteMode::Overwrite,
    {
        WriteMode::Overwrite
    }
}

impl Default for EditMode {
    fn default() -> (r: Self)
        ensures
            r == EditMode::Hex,
    {
        EditMode::Hex
    }
}

} // verus!
