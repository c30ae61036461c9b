use lib::dialogs::{apply_confirm_action, confirm_dialog_text, ConfirmAction};
use lib::editor::buffer::EditorState;
use lib::editor::cursor::{EditMode, NibblePosition};
use lib::settings::{is_supported_extension, RecentFiles, MAX_RECENT_FILES};
use lib::ui::go_to_offset_dialog::attempt_navigate;
use lib::dialogs::PendingEditType;
use lib::editor::cursor::WriteMode;
use lib::formats::traits::RiskLevel;
use lib::ui::hex_editor::{
    apply_paste_bytes, copy_as_ascii, copy_as_hex, decide_removal, decide_typed_char,
    handle_navigation_key, parse_hex_input, parse_paste_input, EditDecision, NavigationKey,
};
use std::path::Path;

fn app_with_editor() -> EditorState {
    EditorState::new(vec![0xAA; 16])
}

#[test]
fn apply_confirm_action_deletes_save_point() {
    let mut editor = app_with_editor();
    let id = editor.create_save_point("sp".into());
    assert_eq!(editor.save_point_count(), 1);

    apply_confirm_action(&mut editor, ConfirmAction::DeleteSavePoint(id));

    assert_eq!(editor.save_point_count(), 0);
}

#[test]
fn apply_confirm_action_restore_save_point_marks_preview_dirty() {
    let mut editor = app_with_editor();
    let id = editor.create_save_point("checkpoint".into());
    // Mutate the working buffer so restore has something to undo.
    editor.edit_byte(0, 0xFF);
    assert_eq!(editor.working()[0], 0xFF);

    let dirty = apply_confirm_action(&mut editor, ConfirmAction::RestoreSavePoint(id));

    assert_eq!(editor.working()[0], 0xAA);
    assert!(dirty);
}

#[test]
fn apply_confirm_action_restore_unknown_id_does_not_mark_dirty() {
    let mut editor = app_with_editor();

    let dirty = apply_confirm_action(&mut editor, ConfirmAction::RestoreSavePoint(9_999));

    assert!(!dirty);
}

#[test]
fn apply_confirm_action_deletes_bookmark() {
    let mut editor = app_with_editor();
    let id = editor.add_bookmark(4, "bm".into());
    assert_eq!(editor.bookmarks().all().len(), 1);

    apply_confirm_action(&mut editor, ConfirmAction::DeleteBookmark(id));

    assert_eq!(editor.bookmarks().all().len(), 0);
}

#[test]
fn apply_confirm_action_clears_bookmark_annotation() {
    let mut editor = app_with_editor();
    let id = editor.add_bookmark(4, "bm".into());
    let _ = editor.bookmarks_mut().set_annotation(id, "note".into());
    assert_eq!(editor.bookmarks().all()[0].annotation, "note");

    apply_confirm_action(&mut editor, ConfirmAction::DeleteBookmarkAnnotation(id));

    let bookmarks = editor.bookmarks().all();
    assert_eq!(bookmarks[0].annotation, "");
    assert_eq!(bookmarks.len(), 1, "bookmark itself should remain");
}

#[test]
fn test_add_recent_file() {
    let mut recent = RecentFiles::new();

    recent.add_recent_file("/path/to/file1.bmp".to_string());
    recent.add_recent_file("/path/to/file2.bmp".to_string());

    assert_eq!(recent.recent_files().len(), 2);
    assert_eq!(recent.recent_files()[0], "/path/to/file2.bmp");
    assert_eq!(recent.recent_files()[1], "/path/to/file1.bmp");
}

#[test]
fn test_add_recent_file_moves_to_front() {
    let mut recent = RecentFiles::new();

    recent.add_recent_file("/path/to/file1.bmp".to_string());
    recent.add_recent_file("/path/to/file2.bmp".to_string());
    recent.add_recent_file("/path/to/file1.bmp".to_string()); // Re-add file1

    assert_eq!(recent.recent_files().len(), 2);
    assert_eq!(recent.recent_files()[0], "/path/to/file1.bmp");
    assert_eq!(recent.recent_files()[1], "/path/to/file2.bmp");
}

#[test]
fn test_recent_files_max_limit() {
    let mut recent = RecentFiles::new();

    for i in 0..15 {
        recent.add_recent_file(format!("/path/to/file{}.bmp", i));
    }

    assert_eq!(recent.recent_files().len(), MAX_RECENT_FILES);
    // Most recent should be at front
    assert_eq!(recent.recent_files()[0], "/path/to/file14.bmp");
}

#[test]
fn test_clear_recent_files() {
    let mut recent = RecentFiles::new();
    recent.add_recent_file("/path/to/file1.bmp".to_string());
    recent.clear_recent_files();
    assert!(recent.recent_files().is_empty());
}

fn extension_of(name: &str) -> Option<&str> {
    Path::new(name).extension().and_then(|e| e.to_str())
}

#[test]
fn test_is_supported_extension() {
    assert!(is_supported_extension(extension_of("photo.bmp")));
    assert!(is_supported_extension(extension_of("photo.jpg")));
    assert!(is_supported_extension(extension_of("photo.jpeg")));
    assert!(is_supported_extension(extension_of("photo.BMP")));
    assert!(is_supported_extension(extension_of("photo.JPG")));
    assert!(is_supported_extension(extension_of("photo.gif")));
    assert!(is_supported_extension(extension_of("photo.GIF")));
    assert!(!is_supported_extension(extension_of("document.txt")));
    assert!(!is_supported_extension(extension_of("noext")));
}

#[test]
fn copy_as_hex_of_selection_and_single_byte() {
    let mut editor = EditorState::new(vec![0x00, 0x0A, 0xFF, 0x41]);
    // No selection: the byte at the target offset.
    assert_eq!(copy_as_hex(&editor, 2), "FF");
    editor.set_cursor(1);
    editor.extend_selection_to(3);
    assert_eq!(editor.selection(), Some((1, 4)));
    assert_eq!(copy_as_hex(&editor, 0), "0A FF 41");
}

#[test]
fn copy_as_ascii_replaces_unprintable_bytes() {
    let mut editor = EditorState::new(vec![0x48, 0x00, 0x20, 0x7E, 0x7F]);
    editor.set_cursor(0);
    editor.extend_selection_to(4);
    assert_eq!(copy_as_ascii(&editor, 0), "H. ~.");
    // Past the end the range is empty.
    let plain = EditorState::new(vec![0x48]);
    assert_eq!(copy_as_ascii(&plain, 5), "");
}

#[test]
fn parse_hex_input_accepts_both_spellings() {
    assert_eq!(parse_hex_input("FF 00 1a"), Some(vec![0xFF, 0x00, 0x1A]));
    assert_eq!(parse_hex_input("FF001a"), Some(vec![0xFF, 0x00, 0x1A]));
    assert_eq!(parse_hex_input("F"), None);
    assert_eq!(parse_hex_input(""), None);
    assert_eq!(parse_hex_input("zz"), None);
}

#[test]
fn parse_paste_input_by_mode() {
    assert_eq!(parse_paste_input("DE AD", EditMode::Hex), Some(vec![0xDE, 0xAD]));
    assert_eq!(parse_paste_input("Hi\n!", EditMode::Ascii), Some(b"Hi!".to_vec()));
    assert_eq!(parse_paste_input("\n\t", EditMode::Ascii), None);
    // Non-ASCII characters contribute no byte.
    assert_eq!(parse_paste_input("aé", EditMode::Ascii), Some(b"a".to_vec()));
}

#[test]
fn apply_paste_bytes_overwrite_clamps_at_end() {
    let mut editor = EditorState::new(vec![0, 1, 2, 3]);
    apply_paste_bytes(&mut editor, 2, &[0xAA, 0xBB, 0xCC]);
    assert_eq!(editor.working(), &[0, 1, 0xAA, 0xBB]);
    assert_eq!(editor.len(), 4);
    assert!(editor.is_modified());
}

#[test]
fn apply_paste_bytes_insert_mode_inserts() {
    let mut editor = EditorState::new(vec![0, 1, 2, 3]);
    editor.toggle_write_mode();
    apply_paste_bytes(&mut editor, 1, &[0xAA, 0xBB]);
    assert_eq!(editor.working(), &[0, 0xAA, 0xBB, 1, 2, 3]);
    assert!(editor.undo());
    assert_eq!(editor.working(), &[0, 1, 2, 3]);
}

#[test]
fn attempt_navigate_moves_cursor_or_reports() {
    let mut editor = EditorState::new(vec![0; 32]);
    assert_eq!(attempt_navigate(&mut editor, "0x10"), Ok(16));
    assert_eq!(editor.cursor(), 16);
    assert_eq!(editor.nibble(), NibblePosition::High);
    assert_eq!(
        attempt_navigate(&mut editor, "40"),
        Err("Offset 0x28 (40) is beyond file size (0x20 / 32 bytes)".to_string())
    );
    assert_eq!(editor.cursor(), 16);
    assert_eq!(
        attempt_navigate(&mut editor, ""),
        Err("Please enter an offset".to_string())
    );
}

#[test]
fn navigation_keys_move_and_select() {
    let mut editor = EditorState::new(vec![0; 600]);
    handle_navigation_key(&mut editor, NavigationKey::PageDown, false);
    assert_eq!(editor.cursor(), 256);
    handle_navigation_key(&mut editor, NavigationKey::ArrowUp, false);
    assert_eq!(editor.cursor(), 240);
    handle_navigation_key(&mut editor, NavigationKey::ArrowRight, true);
    assert_eq!(editor.cursor(), 241);
    assert_eq!(editor.selection(), Some((240, 242)));
    handle_navigation_key(&mut editor, NavigationKey::End, false);
    assert_eq!(editor.cursor(), 599);
    assert_eq!(editor.selection(), None);
    handle_navigation_key(&mut editor, NavigationKey::PageDown, false);
    assert_eq!(editor.cursor(), 599);
    handle_navigation_key(&mut editor, NavigationKey::Home, true);
    assert_eq!(editor.cursor(), 0);
    assert_eq!(editor.selection(), Some((0, 600)));
    handle_navigation_key(&mut editor, NavigationKey::ArrowLeft, false);
    assert_eq!(editor.cursor(), 0);
}

#[test]
fn typed_chars_are_decided_by_mode_and_risk() {
    assert!(matches!(
        decide_typed_char('b', EditMode::Hex, 3, false, false, None),
        EditDecision::Apply(PendingEditType::Nibble(11))
    ));
    assert!(matches!(
        decide_typed_char('g', EditMode::Hex, 3, false, false, None),
        EditDecision::Ignore
    ));
    assert!(matches!(
        decide_typed_char('g', EditMode::Ascii, 3, false, false, None),
        EditDecision::Apply(PendingEditType::Ascii('g'))
    ));
    match decide_typed_char('7', EditMode::Hex, 9, false, true, Some(RiskLevel::Critical)) {
        EditDecision::Confirm(p) => {
            assert!(matches!(p.edit_type, PendingEditType::Nibble(7)));
            assert_eq!(p.offset, 9);
            assert_eq!(p.risk_level, RiskLevel::Critical);
        }
        other => panic!("expected confirmation, got {:?}", other),
    }
    assert!(matches!(
        decide_typed_char('7', EditMode::Hex, 9, true, false, None),
        EditDecision::Ignore
    ));
}

#[test]
fn removal_keys_warn_only_in_insert_mode() {
    assert!(matches!(
        decide_removal(false, WriteMode::Overwrite, 2, false, true, Some(RiskLevel::High)),
        EditDecision::Apply(PendingEditType::Backspace)
    ));
    assert!(matches!(
        decide_removal(true, WriteMode::Insert, 2, false, true, Some(RiskLevel::High)),
        EditDecision::Confirm(_)
    ));
    assert!(matches!(
        decide_removal(true, WriteMode::Insert, 2, false, true, None),
        EditDecision::Ignore
    ));
    assert!(matches!(
        decide_removal(true, WriteMode::Insert, 2, true, false, None),
        EditDecision::Ignore
    ));
}

#[test]
fn confirmation_dialog_texts_follow_the_action() {
    let (title, warning, question, label) = confirm_dialog_text(ConfirmAction::DeleteSavePoint(1));
    assert_eq!(title, "Delete Save Point");
    assert_eq!(warning, "This save point will be permanently removed.");
    assert_eq!(question, "Continue?");
    assert_eq!(label, "Delete");
    let (title, _, _, label) = confirm_dialog_text(ConfirmAction::RestoreSavePoint(1));
    assert_eq!((title, label), ("Restore Save Point", "Restore"));
    let (title, warning, _, label) = confirm_dialog_text(ConfirmAction::DeleteBookmarkAnnotation(7));
    assert_eq!(title, "Delete Note");
    assert_eq!(warning, "The note on this bookmark will be cleared.");
    assert_eq!(label, "Delete Note");
    let (title, _, _, label) = confirm_dialog_text(ConfirmAction::DeleteBookmark(7));
    assert_eq!((title, label), ("Delete Bookmark", "Delete"));
}
