//! State of the bookmarks panel.

use vstd::prelude::*;

verus! {

/// State for the bookmarks panel.
pub struct BookmarksPanelState {
    /// Bookmark ID currently being renamed (if any).
    pub renaming: Option<u64>,
    /// Text for renaming.
    pub rename_text: String,
    /// Bookmark ID whose annotation is being edited (if any).
    pub editing_annotation: Option<u64>,
    /// Text for annotation editing.
    pub annotation_text: String,
}

impl Default for BookmarksPanelState {
    fn default() -> (r: Self)
        ensures
            r.renaming is None,
            r.rename_text@ == Seq::<char>::empty(),
            r.editing_annotation is None,
            r.annotation_text@ == Seq::<char>::empty(),
    {
        BookmarksPanelState {
            renaming: None,
            rename_text: String::new(),
            editing_annotation: None,
            annotation_text: String::new(),
        }
    }
}

} // verus!
