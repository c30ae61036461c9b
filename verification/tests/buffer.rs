use lib::editor::buffer::EditorState;
use lib::editor::cursor::NibblePosition;

#[test]
fn test_new_editor_state() {
    let data = vec![0x00, 0x01, 0x02, 0x03];
    let editor = EditorState::new(data.clone());

    assert_eq!(editor.original(), &data);
    assert_eq!(editor.working(), &data);
    assert!(!editor.is_modified());
}

#[test]
fn test_edit_byte() {
    let data = vec![0x00, 0x01, 0x02, 0x03];
    let mut editor = EditorState::new(data.clone());

    editor.edit_byte(1, 0xFF);

    assert_eq!(editor.original(), &data);
    assert_eq!(editor.working(), &[0x00, 0xFF, 0x02, 0x03]);
    assert!(editor.is_modified());
}

#[test]
fn test_undo_redo() {
    let data = vec![0x00, 0x01, 0x02, 0x03];
    let mut editor = EditorState::new(data.clone());

    editor.edit_byte(1, 0xFF);
    assert_eq!(editor.working()[1], 0xFF);

    assert!(editor.undo());
    assert_eq!(editor.working()[1], 0x01);
    assert!(!editor.is_modified());

    assert!(editor.redo());
    assert_eq!(editor.working()[1], 0xFF);
    assert!(editor.is_modified());
}

#[test]
fn test_nibble_editing() {
    let data = vec![0x00, 0x01, 0x02, 0x03];
    let mut editor = EditorState::new(data);

    // Should start at high nibble
    assert_eq!(editor.nibble(), NibblePosition::High);
    assert_eq!(editor.cursor(), 0);

    // Edit high nibble with 'A' (10)
    let advanced = editor.edit_nibble(0xA);
    assert!(!advanced); // Should not advance after high nibble
    assert_eq!(editor.nibble(), NibblePosition::Low);
    assert_eq!(editor.working()[0], 0xA0); // High nibble changed, low stayed

    // Edit low nibble with 'B' (11)
    let advanced = editor.edit_nibble(0xB);
    assert!(advanced); // Should advance after completing byte
    assert_eq!(editor.nibble(), NibblePosition::High);
    assert_eq!(editor.working()[0], 0xAB); // Full byte is now 0xAB
    assert_eq!(editor.cursor(), 1); // Cursor moved to next byte
}

#[test]
fn test_nibble_editing_undo() {
    let data = vec![0x00, 0x01, 0x02, 0x03];
    let mut editor = EditorState::new(data.clone());

    // Edit high nibble
    editor.edit_nibble(0xF);
    assert_eq!(editor.working()[0], 0xF0);

    // Edit low nibble (same byte - will be coalesced with high nibble edit)
    editor.edit_nibble(0xE);
    assert_eq!(editor.working()[0], 0xFE);

    // Undo should restore to original state (edits are coalesced)
    // Since both nibble edits are to the same byte and within 500ms,
    // they are coalesced into a single operation
    editor.undo();
    assert_eq!(editor.working()[0], 0x00);

    // No more undo available since both edits were coalesced
    assert!(!editor.can_undo());
}

#[test]
fn test_save_point_create_and_restore() {
    let data = vec![0x00, 0x01, 0x02, 0x03];
    let mut editor = EditorState::new(data.clone());

    // Make some edits
    editor.edit_nibble(0xA);
    editor.edit_nibble(0xB);
    assert_eq!(editor.working()[0], 0xAB);

    // Create a save point
    let sp_id = editor.create_save_point("First checkpoint".to_string());
    assert_eq!(editor.save_point_count(), 1);

    // Make more edits
    editor.edit_nibble(0xC);
    editor.edit_nibble(0xD);
    assert_eq!(editor.working()[1], 0xCD);

    // Restore to save point
    assert!(editor.restore_save_point(sp_id));
    assert_eq!(editor.working()[0], 0xAB);
    assert_eq!(editor.working()[1], 0x01); // Should be back to original

    // Undo should restore the state before the save point restoration
    assert!(editor.undo());
    assert_eq!(editor.working()[1], 0xCD);
}

#[test]
fn test_save_point_rename() {
    let data = vec![0x00, 0x01, 0x02, 0x03];
    let mut editor = EditorState::new(data);

    let sp_id = editor.create_save_point("Original name".to_string());
    assert!(editor.rename_save_point(sp_id, "New name".to_string()));

    let sps = editor.save_points();
    assert_eq!(sps[0].name, "New name");
}

#[test]
fn test_save_point_delete() {
    let data = vec![0x00, 0x01, 0x02, 0x03];
    let mut editor = EditorState::new(data);

    let sp1 = editor.create_save_point("SP1".to_string());
    let sp2 = editor.create_save_point("SP2".to_string());

    // Can only delete leaf (sp2)
    assert!(!editor.can_delete_save_point(sp1));
    assert!(editor.can_delete_save_point(sp2));

    assert!(editor.delete_save_point(sp2));
    assert_eq!(editor.save_point_count(), 1);

    // Now sp1 is the leaf
    assert!(editor.delete_save_point(sp1));
    assert_eq!(editor.save_point_count(), 0);
}

#[test]
fn test_edit_ascii_printable() {
    let data = vec![0x00, 0x01, 0x02, 0x03];
    let mut editor = EditorState::new(data);

    // Edit with 'A' (0x41)
    assert!(editor.edit_ascii('A'));
    assert_eq!(editor.working()[0], 0x41);
    assert_eq!(editor.cursor(), 1); // Cursor should advance

    // Edit with space (0x20) - lower bound of printable
    assert!(editor.edit_ascii(' '));
    assert_eq!(editor.working()[1], 0x20);
    assert_eq!(editor.cursor(), 2);

    // Edit with '~' (0x7E) - upper bound of printable
    assert!(editor.edit_ascii('~'));
    assert_eq!(editor.working()[2], 0x7E);
    assert_eq!(editor.cursor(), 3);
}

#[test]
fn test_edit_ascii_rejects_non_printable() {
    let data = vec![0x00, 0x01, 0x02, 0x03];
    let mut editor = EditorState::new(data);

    // Try tab (0x09) - should be rejected
    assert!(!editor.edit_ascii('\t'));
    assert_eq!(editor.working()[0], 0x00); // Unchanged
    assert_eq!(editor.cursor(), 0); // Cursor should not advance

    // Try newline (0x0A) - should be rejected
    assert!(!editor.edit_ascii('\n'));
    assert_eq!(editor.working()[0], 0x00);

    // Try DEL (0x7F) - should be rejected
    assert!(!editor.edit_ascii('\x7F'));
    assert_eq!(editor.working()[0], 0x00);
}

#[test]
fn test_edit_ascii_undo() {
    let data = vec![0x00, 0x01, 0x02, 0x03];
    let mut editor = EditorState::new(data.clone());

    editor.edit_ascii('A');
    assert_eq!(editor.working()[0], 0x41);

    editor.undo();
    assert_eq!(editor.working()[0], 0x00);
    assert!(!editor.is_modified());
}

#[test]
fn test_edit_ascii_at_end() {
    let data = vec![0x00, 0x01];
    let mut editor = EditorState::new(data);

    // Move cursor to last byte
    editor.set_cursor(1);

    // Edit - should work but cursor stays at last position
    assert!(editor.edit_ascii('Z'));
    assert_eq!(editor.working()[1], b'Z');
    assert_eq!(editor.cursor(), 1); // Cursor stays at last byte (can't advance past end)
}

// ========== Insert/Delete Tests ==========

#[test]
fn test_insert_byte() {
    let data = vec![0x00, 0x01, 0x02, 0x03];
    let mut editor = EditorState::new(data);

    editor.insert_byte(1, 0xFF);
    assert_eq!(editor.working(), &[0x00, 0xFF, 0x01, 0x02, 0x03]);
    assert_eq!(editor.len(), 5);
    assert!(editor.is_modified());
}

#[test]
fn test_insert_byte_at_start() {
    let data = vec![0x00, 0x01, 0x02];
    let mut editor = EditorState::new(data);

    editor.insert_byte(0, 0xFF);
    assert_eq!(editor.working(), &[0xFF, 0x00, 0x01, 0x02]);
}

#[test]
fn test_insert_byte_at_end() {
    let data = vec![0x00, 0x01, 0x02];
    let mut editor = EditorState::new(data);

    editor.insert_byte(3, 0xFF);
    assert_eq!(editor.working(), &[0x00, 0x01, 0x02, 0xFF]);
}

#[test]
fn test_insert_bytes() {
    let data = vec![0x00, 0x01, 0x02, 0x03];
    let mut editor = EditorState::new(data);

    editor.insert_bytes(2, &[0xAA, 0xBB]);
    assert_eq!(editor.working(), &[0x00, 0x01, 0xAA, 0xBB, 0x02, 0x03]);
    assert_eq!(editor.len(), 6);
}

#[test]
fn test_delete_byte() {
    let data = vec![0x00, 0x01, 0x02, 0x03];
    let mut editor = EditorState::new(data);

    let deleted = editor.delete_byte(1);
    assert_eq!(deleted, Some(0x01));
    assert_eq!(editor.working(), &[0x00, 0x02, 0x03]);
    assert_eq!(editor.len(), 3);
    assert!(editor.is_modified());
}

#[test]
fn test_delete_byte_out_of_bounds() {
    let data = vec![0x00, 0x01, 0x02];
    let mut editor = EditorState::new(data);

    let deleted = editor.delete_byte(10);
    assert_eq!(deleted, None);
    assert_eq!(editor.len(), 3);
}

#[test]
fn test_insert_byte_undo_redo() {
    let data = vec![0x00, 0x01, 0x02, 0x03];
    let mut editor = EditorState::new(data.clone());

    editor.insert_byte(1, 0xFF);
    assert_eq!(editor.working(), &[0x00, 0xFF, 0x01, 0x02, 0x03]);

    // Undo should remove the inserted byte
    assert!(editor.undo());
    assert_eq!(editor.working(), &data);
    assert!(!editor.is_modified());

    // Redo should re-insert
    assert!(editor.redo());
    assert_eq!(editor.working(), &[0x00, 0xFF, 0x01, 0x02, 0x03]);
    assert!(editor.is_modified());
}

#[test]
fn test_delete_byte_undo_redo() {
    let data = vec![0x00, 0x01, 0x02, 0x03];
    let mut editor = EditorState::new(data.clone());

    editor.delete_byte(1);
    assert_eq!(editor.working(), &[0x00, 0x02, 0x03]);

    // Undo should re-insert the deleted byte
    assert!(editor.undo());
    assert_eq!(editor.working(), &data);
    assert!(!editor.is_modified());

    // Redo should delete again
    assert!(editor.redo());
    assert_eq!(editor.working(), &[0x00, 0x02, 0x03]);
}

#[test]
fn test_insert_bytes_undo() {
    let data = vec![0x00, 0x01, 0x02];
    let mut editor = EditorState::new(data.clone());

    editor.insert_bytes(1, &[0xAA, 0xBB]);
    assert_eq!(editor.working(), &[0x00, 0xAA, 0xBB, 0x01, 0x02]);

    assert!(editor.undo());
    assert_eq!(editor.working(), &data);
}

#[test]
fn test_length_changed_flag() {
    let data = vec![0x00, 0x01, 0x02, 0x03];
    let mut editor = EditorState::new(data);

    // Flag should be false initially
    assert!(!editor.take_length_changed());

    // Insert should set the flag
    editor.insert_byte(0, 0xFF);
    assert!(editor.take_length_changed());

    // Should be cleared after take
    assert!(!editor.take_length_changed());

    // Delete should also set the flag
    editor.delete_byte(0);
    assert!(editor.take_length_changed());
}

// ========== Bookmark Offset Adjustment Tests ==========

#[test]
fn test_insert_adjusts_bookmarks() {
    let data = vec![0x00, 0x01, 0x02, 0x03, 0x04];
    let mut editor = EditorState::new(data);

    // Add bookmarks at various positions
    editor.add_bookmark(1, "Before".to_string());
    editor.add_bookmark(3, "After".to_string());

    // Insert byte at position 2 — bookmark at 3 should shift to 4
    editor.insert_byte(2, 0xFF);

    let bookmarks = editor.bookmarks().all();
    assert_eq!(bookmarks[0].offset, 1); // Before insert point: unchanged
    assert_eq!(bookmarks[1].offset, 4); // After insert point: shifted +1
}

#[test]
fn test_delete_adjusts_bookmarks() {
    let data = vec![0x00, 0x01, 0x02, 0x03, 0x04];
    let mut editor = EditorState::new(data);

    editor.add_bookmark(1, "Before".to_string());
    editor.add_bookmark(2, "Deleted".to_string());
    editor.add_bookmark(4, "After".to_string());

    // Delete byte at position 2 — bookmark at 2 removed, bookmark at 4 shifts to 3
    editor.delete_byte(2);

    let bookmarks = editor.bookmarks().all();
    assert_eq!(bookmarks.len(), 2); // One removed
    assert_eq!(bookmarks[0].offset, 1); // Before: unchanged
    assert_eq!(bookmarks[1].offset, 3); // After: shifted -1
}

#[test]
fn test_insert_byte_on_empty_buffer() {
    let mut editor = EditorState::new(vec![]);

    editor.insert_byte(0, 0xAA);
    assert_eq!(editor.working(), &[0xAA]);
    assert_eq!(editor.len(), 1);

    // Undo should return to empty
    assert!(editor.undo());
    assert_eq!(editor.working(), &[] as &[u8]);
    assert_eq!(editor.len(), 0);
}

#[test]
fn test_delete_byte_on_empty_buffer() {
    let mut editor = EditorState::new(vec![]);

    // Should be a no-op
    let deleted = editor.delete_byte(0);
    assert_eq!(deleted, None);
    assert_eq!(editor.len(), 0);
}

// ========== Replace Bytes Tests ==========

#[test]
fn test_replace_bytes() {
    let data = vec![0x00, 0x01, 0x02, 0x03, 0x04];
    let mut editor = EditorState::new(data);

    editor.replace_bytes(1, &[0xAA, 0xBB]);
    assert_eq!(editor.working(), &[0x00, 0xAA, 0xBB, 0x03, 0x04]);
    assert!(editor.is_modified());

    // Single undo should revert the entire replacement
    assert!(editor.undo());
    assert_eq!(editor.working(), &[0x00, 0x01, 0x02, 0x03, 0x04]);
    assert!(!editor.is_modified());

    // Redo should re-apply the entire replacement
    assert!(editor.redo());
    assert_eq!(editor.working(), &[0x00, 0xAA, 0xBB, 0x03, 0x04]);
}

#[test]
fn test_replace_bytes_no_change() {
    let data = vec![0x00, 0x01, 0x02, 0x03];
    let mut editor = EditorState::new(data);

    // Replacing with same values should be a no-op
    editor.replace_bytes(1, &[0x01, 0x02]);
    assert!(!editor.is_modified());
    assert!(!editor.can_undo());
}

#[test]
fn test_replace_bytes_at_end() {
    let data = vec![0x00, 0x01, 0x02];
    let mut editor = EditorState::new(data);

    // Replace that would extend past buffer should be clamped
    editor.replace_bytes(2, &[0xAA, 0xBB, 0xCC]);
    assert_eq!(editor.working(), &[0x00, 0x01, 0xAA]);
}

#[test]
fn test_insert_clears_save_points() {
    let data = vec![0x00, 0x01, 0x02, 0x03];
    let mut editor = EditorState::new(data);

    // Create a save point
    editor.edit_byte(0, 0xFF);
    editor.create_save_point("SP1".to_string());
    assert_eq!(editor.save_point_count(), 1);

    // Insert should clear save points
    editor.insert_byte(0, 0xAA);
    assert_eq!(editor.save_point_count(), 0);
}

#[test]
fn deleting_an_older_save_point_is_refused() {
    let mut editor = EditorState::new(vec![0x00, 0x01]);
    let sp1 = editor.create_save_point("SP1".to_string());
    let sp2 = editor.create_save_point("SP2".to_string());
    assert!(!editor.delete_save_point(sp1));
    assert_eq!(editor.save_point_count(), 2);
    assert!(!editor.delete_save_point(sp2 + 1));
    assert_eq!(editor.save_point_count(), 2);
    assert!(editor.delete_save_point(sp2));
    assert_eq!(editor.save_points()[0].id(), sp1);
}

#[test]
fn restoring_a_created_save_point_gives_its_bytes() {
    let mut editor = EditorState::new(vec![0x00, 0x01, 0x02]);
    editor.edit_byte(1, 0xAA);
    let id = editor.create_save_point("mid".to_string());
    editor.edit_byte(2, 0xBB);
    let before = editor.edit_generation();
    assert!(editor.restore_save_point(id));
    assert_eq!(editor.working(), &[0x00, 0xAA, 0x02]);
    assert!(editor.edit_generation() > before);
    assert!(editor.undo());
    assert_eq!(editor.working(), &[0x00, 0xAA, 0xBB]);
}
