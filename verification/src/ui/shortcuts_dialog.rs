//! State of the keyboard shortcuts help dialog.

use vstd::prelude::*;

verus! {

/// State for the keyboard shortcuts help dialog.
pub struct ShortcutsDialogState {
    /// Whether the dialog is visible.
    pub dialog_open: bool,
}

impl Default for ShortcutsDialogState {
    fn default() -> (r: Self)
        ensures
            !r.dialog_open,
    {
        ShortcutsDialogState { dialog_open: false }
    }
}

impl ShortcutsDialogState {
    /// Open the dialog.
    pub fn open_dialog(&mut self)
        ensures
            final(self).dialog_open,
    {
        self.dialog_open = true;
    }

    /// Close the dialog.
    pub fn close_dialog(&mut self)
        ensures
            !final(self).dialog_open,
    {
        self.dialog_open = false;
    }
}

} // verus!
