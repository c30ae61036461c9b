use lib::editor::buffer::EditorState;
use lib::editor::cursor::{EditMode, NibblePosition, WriteMode};

#[test]
fn test_edit_mode_default() {
    let data = vec![0x00, 0x01, 0x02, 0x03];
    let editor = EditorState::new(data);
    assert_eq!(editor.edit_mode(), EditMode::Hex);
}

#[test]
fn test_edit_mode_set_toggles() {
    let data = vec![0x00, 0x01, 0x02, 0x03];
    let mut editor = EditorState::new(data);

    assert_eq!(editor.edit_mode(), EditMode::Hex);
    editor.set_edit_mode(EditMode::Ascii);
    assert_eq!(editor.edit_mode(), EditMode::Ascii);
    editor.set_edit_mode(EditMode::Hex);
    assert_eq!(editor.edit_mode(), EditMode::Hex);
}

#[test]
fn test_set_edit_mode_resets_nibble() {
    let data = vec![0x00, 0x01, 0x02, 0x03];
    let mut editor = EditorState::new(data);

    let _ = editor.edit_nibble(0xA);
    assert_eq!(editor.nibble(), NibblePosition::Low);

    editor.set_edit_mode(EditMode::Ascii);
    assert_eq!(editor.nibble(), NibblePosition::High);
}

#[test]
fn test_set_edit_mode() {
    let data = vec![0x00, 0x01, 0x02, 0x03];
    let mut editor = EditorState::new(data);

    let _ = editor.edit_nibble(0xA);
    assert_eq!(editor.nibble(), NibblePosition::Low);

    editor.set_edit_mode(EditMode::Ascii);
    assert_eq!(editor.edit_mode(), EditMode::Ascii);
    assert_eq!(editor.nibble(), NibblePosition::High);

    editor.set_edit_mode(EditMode::Hex);
    assert_eq!(editor.edit_mode(), EditMode::Hex);
    assert_eq!(editor.nibble(), NibblePosition::High);
}

#[test]
fn test_write_mode_default() {
    let data = vec![0x00, 0x01, 0x02, 0x03];
    let editor = EditorState::new(data);
    assert_eq!(editor.write_mode(), WriteMode::Overwrite);
}

#[test]
fn test_write_mode_toggle() {
    let data = vec![0x00, 0x01, 0x02, 0x03];
    let mut editor = EditorState::new(data);

    editor.toggle_write_mode();
    assert_eq!(editor.write_mode(), WriteMode::Insert);

    editor.toggle_write_mode();
    assert_eq!(editor.write_mode(), WriteMode::Overwrite);
}

#[test]
fn test_edit_nibble_with_mode_overwrite() {
    let data = vec![0x00, 0x01, 0x02, 0x03];
    let mut editor = EditorState::new(data);

    let advanced = editor.edit_nibble_with_mode(0xA);
    assert!(!advanced);
    assert_eq!(editor.working()[0], 0xA0);
    assert_eq!(editor.nibble(), NibblePosition::Low);

    let advanced = editor.edit_nibble_with_mode(0xB);
    assert!(advanced);
    assert_eq!(editor.working()[0], 0xAB);
    assert_eq!(editor.cursor(), 1);
}

#[test]
fn test_edit_nibble_with_mode_insert() {
    let data = vec![0x00, 0x01, 0x02, 0x03];
    let mut editor = EditorState::new(data);
    editor.toggle_write_mode();

    let advanced = editor.edit_nibble_with_mode(0xA);
    assert!(!advanced);
    assert_eq!(editor.len(), 5);
    assert_eq!(editor.working()[0], 0xA0);
    assert_eq!(editor.nibble(), NibblePosition::Low);
    assert_eq!(editor.cursor(), 0);

    let advanced = editor.edit_nibble_with_mode(0xB);
    assert!(advanced);
    assert_eq!(editor.working()[0], 0xAB);
    assert_eq!(editor.cursor(), 1);
    assert_eq!(editor.nibble(), NibblePosition::High);
    assert_eq!(editor.working(), &[0xAB, 0x00, 0x01, 0x02, 0x03]);
}

#[test]
fn test_edit_nibble_insert_undo() {
    let data = vec![0x00, 0x01, 0x02, 0x03];
    let mut editor = EditorState::new(data.clone());
    editor.toggle_write_mode();

    let _ = editor.edit_nibble_with_mode(0xA);
    let _ = editor.edit_nibble_with_mode(0xB);
    assert_eq!(editor.working(), &[0xAB, 0x00, 0x01, 0x02, 0x03]);

    let _ = editor.undo();
    assert_eq!(editor.working()[0], 0xA0);

    let _ = editor.undo();
    assert_eq!(editor.working(), &data);
}

#[test]
fn test_edit_ascii_with_mode_overwrite() {
    let data = vec![0x00, 0x01, 0x02, 0x03];
    let mut editor = EditorState::new(data);

    assert!(editor.edit_ascii_with_mode('A'));
    assert_eq!(editor.working()[0], 0x41);
    assert_eq!(editor.cursor(), 1);
}

#[test]
fn test_edit_ascii_with_mode_insert() {
    let data = vec![0x00, 0x01, 0x02, 0x03];
    let mut editor = EditorState::new(data);
    editor.toggle_write_mode();

    assert!(editor.edit_ascii_with_mode('H'));
    assert_eq!(editor.len(), 5);
    assert_eq!(editor.working()[0], b'H');
    assert_eq!(editor.cursor(), 1);
    assert_eq!(editor.working(), &[b'H', 0x00, 0x01, 0x02, 0x03]);
}

#[test]
fn test_handle_backspace_overwrite() {
    let data = vec![0x00, 0x01, 0x02, 0x03];
    let mut editor = EditorState::new(data.clone());

    editor.set_cursor(2);
    editor.handle_backspace();
    assert_eq!(editor.cursor(), 1);
    assert_eq!(editor.working(), &data);
}

#[test]
fn test_handle_backspace_insert() {
    let data = vec![0x00, 0x01, 0x02, 0x03];
    let mut editor = EditorState::new(data);
    editor.toggle_write_mode();

    editor.set_cursor(2);
    editor.handle_backspace();
    assert_eq!(editor.cursor(), 1);
    assert_eq!(editor.working(), &[0x00, 0x02, 0x03]);
}

#[test]
fn test_handle_backspace_insert_at_start() {
    let data = vec![0x00, 0x01, 0x02];
    let mut editor = EditorState::new(data.clone());
    editor.toggle_write_mode();

    editor.set_cursor(0);
    editor.handle_backspace();
    assert_eq!(editor.cursor(), 0);
    assert_eq!(editor.working(), &data);
}

#[test]
fn test_handle_delete_overwrite() {
    let data = vec![0x00, 0x01, 0x02, 0x03];
    let mut editor = EditorState::new(data.clone());

    editor.set_cursor(1);
    editor.handle_delete();
    assert_eq!(editor.working(), &data);
}

#[test]
fn test_handle_delete_insert() {
    let data = vec![0x00, 0x01, 0x02, 0x03];
    let mut editor = EditorState::new(data);
    editor.toggle_write_mode();

    editor.set_cursor(1);
    editor.handle_delete();
    assert_eq!(editor.working(), &[0x00, 0x02, 0x03]);
    assert_eq!(editor.cursor(), 1);
}

#[test]
fn insert_mode_low_nibble_bumps_the_generation() {
    let mut editor = EditorState::new(vec![0x00, 0x01, 0x02, 0x03]);
    editor.toggle_write_mode();
    assert_eq!(editor.write_mode(), WriteMode::Insert);
    let _ = editor.edit_nibble_with_mode(0xA);
    assert_eq!(editor.edit_generation(), 1);
    assert!(editor.edit_nibble_with_mode(0xB));
    assert_eq!(editor.edit_generation(), 2);
    // A low nibble equal to the one already there changes nothing.
    editor.set_cursor(0);
    let _ = editor.edit_nibble_with_mode(0x0);
    assert_eq!(editor.edit_generation(), 3);
    assert!(editor.edit_nibble_with_mode(0x0));
    assert_eq!(editor.edit_generation(), 3);
}
