//! Editor: buffer management, history, and edit operations.

pub mod bookmarks;
pub mod buffer;
pub mod cursor;
pub mod go_to_offset;
pub mod history;
pub mod laws;
pub mod savepoints;
pub mod search;

use vstd::prelude::*;

verus! {

/// Whether a byte is printable ASCII (space 0x20 through tilde 0x7E).
pub open spec fn spec_printable(b: u8) -> bool {
    0x20 <= b && b <= 0x7E
}

/// Check if a byte is printable ASCII (space 0x20 through tilde 0x7E).
pub fn is_printable_ascii(b: u8) -> (r: bool)
    ensures
        r == spec_printable(b),
{
    0x20 <= b && b <= 0x7E
}

/// Check if a char is printable ASCII (space 0x20 through tilde 0x7E).
pub fn is_printable_ascii_char(ch: char) -> (r: bool)
    ensures
        r == (0x20 <= (ch as u32) && (ch as u32) <= 0x7E),
{
    let code = ch as u32;
    0x20 <= code && code <= 0x7E
}

} // verus!
