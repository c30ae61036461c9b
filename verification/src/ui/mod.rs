//! State of the interface panels and dialogs, and the logic they share.

pub mod bookmarks;
pub mod go_to_offset_dialog;
pub mod hex_editor;
pub mod savepoints;
pub mod search_dialog;
pub mod shortcuts_dialog;

use vstd::prelude::*;

verus! {

/// The modifier key text shown in shortcut hints: the command symbol (with a
/// space after it) on macOS, `Ctrl+` elsewhere.
pub fn modifier_key(mac: bool) -> (r: &'static str)
    ensures
        r@ == if mac {
            "⌘ "@
        } else {
            "Ctrl+"@
        },
{
    if mac {
        "⌘ "
    } else {
        "Ctrl+"
    }
}

} // verus!
