//! State of the save points panel.

use vstd::prelude::*;

verus! {

/// State for the save points panel.
pub struct SavePointsPanelState {
    /// The save point whose name is being edited, if any.
    pub editing_id: Option<u64>,
    /// Buffer for editing a name.
    pub edit_buffer: String,
    /// Buffer for a new save point's name.
    pub new_name_buffer: String,
    /// Whether the create dialog is open.
    pub show_create_dialog: bool,
    /// Pending create action.
    pub pending_create: bool,
}

impl Default for SavePointsPanelState {
    fn default() -> (r: Self)
        ensures
            r.editing_id is None,
            r.edit_buffer@ == Seq::<char>::empty(),
            r.new_name_buffer@ == Seq::<char>::empty(),
            !r.show_create_dialog,
            !r.pending_create,
    {
        SavePointsPanelState {
            editing_id: None,
            edit_buffer: String::new(),
            new_name_buffer: String::new(),
            show_create_dialog: false,
            pending_create: false,
        }
    }
}

impl SavePointsPanelState {
    /// Whether this panel is in a text-entry state that should take keyboard
    /// priority: a rename in progress or the create dialog.
    pub fn wants_keyboard_priority(&self) -> (r: bool)
        ensures
            r == (self.editing_id is Some || self.show_create_dialog),
    {
        self.editing_id.is_some() || self.show_create_dialog
    }

    /// Abandon any rename or create-dialog state in progress.
    pub fn cancel_edits(&mut self)
        ensures
            final(self).editing_id is None,
            !final(self).show_create_dialog,
            final(self).new_name_buffer@ == Seq::<char>::empty(),
            final(self).edit_buffer == old(self).edit_buffer,
            final(self).pending_create == old(self).pending_create,
    {
        self.editing_id = None;
        self.show_create_dialog = false;
        self.new_name_buffer = String::new();
    }
}

} // verus!
