//! State of the confirmation and warning dialogs.

use vstd::prelude::*;
use crate::editor::bookmarks::BookmarkView;
use crate::editor::buffer::{EditorState, EditorView, next_gen, recorded};
use crate::editor::history::EditStep;
use crate::formats::traits::RiskLevel;

verus! {

/// A destructive action awaiting user confirmation.
#[derive(Clone, Copy, Debug, PartialEq, Eq, Structural)]
pub enum ConfirmAction {
    DeleteSavePoint(u64),
    RestoreSavePoint(u64),
    DeleteBookmark(u64),
    DeleteBookmarkAnnotation(u64),
}

/// Type of a pending edit.
#[derive(Clone, Copy, Debug)]
pub enum PendingEditType {
    /// Nibble edit (hex mode): nibble value 0-15.
    Nibble(u8),
    /// ASCII edit: character to write.
    Ascii(char),
    /// Backspace key (insert mode: delete the previous byte).
    Backspace,
    /// Delete key (insert mode: delete the byte at the cursor).
    Delete,
}

/// An edit awaiting user confirmation.
#[derive(Clone, Copy, Debug)]
pub struct PendingEdit {
    /// The type of edit.
    pub edit_type: PendingEditType,
    /// The byte offset being edited.
    pub offset: usize,
    /// Risk level of the section being edited.
    pub risk_level: RiskLevel,
}

/// State for the close confirmation and high-risk edit warning dialogs.
pub struct DialogState {
    /// Whether the close confirmation dialog is showing.
    pub show_close: bool,
    /// Pending close action (true = confirmed close).
    pub pending_close: bool,
    /// Whether high-risk edit warnings are suppressed for this session.
    pub suppress_high_risk_warnings: bool,
    /// Pending high-risk edit waiting for user confirmation.
    pub pending_high_risk_edit: Option<PendingEdit>,
    /// Checkbox state for "don't warn again" in the high-risk dialog.
    pub high_risk_dont_show: bool,
    /// A destructive action awaiting user confirmation (delete/restore).
    pub pending_confirm: Option<ConfirmAction>,
    /// True for the first frame after `pending_confirm` is set, so the
    /// renderer can give initial keyboard focus to the Cancel button.
    pub confirm_just_opened: bool,
}

impl Default for DialogState {
    fn default() -> (r: Self)
        ensures
            !r.show_close,
            !r.pending_close,
            !r.suppress_high_risk_warnings,
            r.pending_high_risk_edit is None,
            !r.high_risk_dont_show,
            r.pending_confirm is None,
            !r.confirm_just_opened,
    {
        DialogState {
            show_close: false,
            pending_close: false,
            suppress_high_risk_warnings: false,
            pending_high_risk_edit: None,
            high_risk_dont_show: false,
            pending_confirm: None,
            confirm_just_opened: false,
        }
    }
}

impl DialogState {
    /// Queue a destructive action for confirmation and arm the initial-focus
    /// seeding; the two fields are always set together.
    pub fn open_confirm(&mut self, action: ConfirmAction)
        ensures
            final(self).pending_confirm == Some(action),
            final(self).confirm_just_opened,
            final(self).show_close == old(self).show_close,
            final(self).pending_close == old(self).pending_close,
            final(self).suppress_high_risk_warnings == old(self).suppress_high_risk_warnings,
            final(self).pending_high_risk_edit == old(self).pending_high_risk_edit,
            final(self).high_risk_dont_show == old(self).high_risk_dont_show,
    {
        self.pending_confirm = Some(action);
        self.confirm_just_opened = true;
    }
}

/// The title of the confirmation dialog for `a`.
pub open spec fn confirm_title(a: ConfirmAction) -> Seq<char> {
    match a {
        ConfirmAction::DeleteSavePoint(_) => "Delete Save Point"@,
        ConfirmAction::RestoreSavePoint(_) => "Restore Save Point"@,
        ConfirmAction::DeleteBookmark(_) => "Delete Bookmark"@,
        ConfirmAction::DeleteBookmarkAnnotation(_) => "Delete Note"@,
    }
}

/// The warning line of the confirmation dialog for `a`.
pub open spec fn confirm_warning(a: ConfirmAction) -> Seq<char> {
    match a {
        ConfirmAction::DeleteSavePoint(_) => "This save point will be permanently removed."@,
        ConfirmAction::RestoreSavePoint(_) =>
            "Restoring will replace the current working buffer with this save point's bytes. Any unsaved changes since this save point will be lost."@,
        ConfirmAction::DeleteBookmark(_) => "This bookmark will be permanently removed."@,
        ConfirmAction::DeleteBookmarkAnnotation(_) => "The note on this bookmark will be cleared."@,
    }
}

/// The label of the confirm button of the dialog for `a`.
pub open spec fn confirm_label(a: ConfirmAction) -> Seq<char> {
    match a {
        ConfirmAction::DeleteSavePoint(_) => "Delete"@,
        ConfirmAction::RestoreSavePoint(_) => "Restore"@,
        ConfirmAction::DeleteBookmark(_) => "Delete"@,
        ConfirmAction::DeleteBookmarkAnnotation(_) => "Delete Note"@,
    }
}

/// The texts of the confirmation dialog for `action`: its title, its body
/// lines (the warning, then the question) and the label of its confirm
/// button.
pub fn confirm_dialog_text(action: ConfirmAction) -> (r: (&'static str, &'static str, &'static str, &'static str))
    ensures
        r.0@ == confirm_title(action),
        r.1@ == confirm_warning(action),
        r.2@ == "Continue?"@,
        r.3@ == confirm_label(action),
{
    match action {
        ConfirmAction::DeleteSavePoint(_) => (
            "Delete Save Point",
            "This save point will be permanently removed.",
            "Continue?",
            "Delete",
        ),
        ConfirmAction::RestoreSavePoint(_) => (
            "Restore Save Point",
            "Restoring will replace the current working buffer with this save point's bytes. Any unsaved changes since this save point will be lost.",
            "Continue?",
            "Restore",
        ),
        ConfirmAction::DeleteBookmark(_) => (
            "Delete Bookmark",
            "This bookmark will be permanently removed.",
            "Continue?",
            "Delete",
        ),
        ConfirmAction::DeleteBookmarkAnnotation(_) => (
            "Delete Note",
            "The note on this bookmark will be cleared.",
            "Continue?",
            "Delete Note",
        ),
    }
}

/// Whether `id` names one of the save points of `v`.
pub open spec fn has_save_point(v: EditorView, id: u64) -> bool {
    exists|i: int| 0 <= i < v.save_points.len() && #[trigger] v.save_points[i].id == id
}

/// Whether `id` names one of the bookmarks of `v`.
pub open spec fn has_bookmark(v: EditorView, id: u64) -> bool {
    exists|i: int| 0 <= i < v.bookmarks.len() && #[trigger] v.bookmarks[i].id == id
}

/// Apply a confirmed destructive action to the editor. Returns whether the
/// working buffer was replaced (a save point was restored), so that the
/// preview must be rebuilt.
pub fn apply_confirm_action(editor: &mut EditorState, action: ConfirmAction) -> (rebuilt: bool)
    requires
        old(editor).wf(),
    ensures
        final(editor).wf(),
        match action {
            ConfirmAction::DeleteSavePoint(id) => {
                let sps = old(editor)@.save_points;
                &&& !rebuilt
                &&& (sps.len() > 0 && sps.last().id == id) ==> final(editor)@ == (EditorView {
                    save_points: sps.drop_last(),
                    ..old(editor)@
                })
                &&& !(sps.len() > 0 && sps.last().id == id) ==> final(editor)@ == old(editor)@
            },
            ConfirmAction::RestoreSavePoint(id) => {
                &&& rebuilt == has_save_point(old(editor)@, id)
                &&& !rebuilt ==> final(editor)@ == old(editor)@
                &&& rebuilt ==> forall|i: int|
                    0 <= i < old(editor)@.save_points.len() && #[trigger] old(
                        editor,
                    )@.save_points[i].id == id ==> {
                        let snap = old(editor)@.save_points[i].snapshot;
                        &&& final(editor)@ == (EditorView {
                            working: snap,
                            undo: final(editor)@.undo,
                            redo: final(editor)@.redo,
                            modified: snap != old(editor)@.original,
                            edit_generation: next_gen(old(editor)@.edit_generation),
                            ..old(editor)@
                        })
                        &&& snap == old(editor)@.working ==> final(editor)@.undo == old(
                            editor,
                        )@.undo && final(editor)@.redo == old(editor)@.redo
                        &&& snap != old(editor)@.working ==> recorded(
                            old(editor)@,
                            final(editor)@,
                            EditStep::Range {
                                offset: 0,
                                old_values: old(editor)@.working,
                                new_values: snap,
                            },
                        )
                    }
            },
            ConfirmAction::DeleteBookmark(id) => {
                &&& !rebuilt
                &&& !has_bookmark(old(editor)@, id) ==> final(editor)@ == old(editor)@
                &&& has_bookmark(old(editor)@, id) ==> exists|i: int|
                    0 <= i < old(editor)@.bookmarks.len() && #[trigger] old(editor)@.bookmarks[i].id
                        == id && final(editor)@ == (EditorView {
                        bookmarks: old(editor)@.bookmarks.remove(i),
                        ..old(editor)@
                    })
            },
            ConfirmAction::DeleteBookmarkAnnotation(id) => {
                &&& !rebuilt
                &&& !has_bookmark(old(editor)@, id) ==> final(editor)@ == old(editor)@
                &&& has_bookmark(old(editor)@, id) ==> exists|i: int|
                    0 <= i < old(editor)@.bookmarks.len() && #[trigger] old(editor)@.bookmarks[i].id
                        == id && final(editor)@ == (EditorView {
                        bookmarks: old(editor)@.bookmarks.update(
                            i,
                            BookmarkView {
                                annotation: Seq::empty(),
                                ..old(editor)@.bookmarks[i]
                            },
                        ),
                        ..old(editor)@
                    })
            },
        },
{
    match action {
        ConfirmAction::DeleteSavePoint(id) => {
            let _ = editor.delete_save_point(id);
            false
        },
        ConfirmAction::RestoreSavePoint(id) => editor.restore_save_point(id),
        ConfirmAction::DeleteBookmark(id) => {
            let _ = editor.remove_bookmark(id);
            false
        },
        ConfirmAction::DeleteBookmarkAnnotation(id) => {
            let ghost before = old(editor)@;
            let marks = editor.bookmarks_mut();
            let ghost m0 = marks.marks();
            let ghost idx = marks.index_of(id);
            let found = marks.set_annotation(id, String::new());
            proof {
                if found {
                    assert(before.bookmarks[idx].id == id);
                }
            }
            false
        },
    }
}

} // verus!
