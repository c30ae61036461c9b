//! Verified core of a databending hex editor: an editable byte buffer with
//! undo/redo, save points, bookmarks and search, structure parsers for BMP,
//! JPEG, GIF and PNG files, and the state of the editor's dialogs and panels.

pub mod dialogs;
pub mod editor;
pub mod formats;
pub mod input;
pub mod preview;
pub mod sections;
pub mod settings;
pub mod text;
pub mod ui;
