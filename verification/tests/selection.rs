use lib::editor::buffer::EditorState;

#[test]
fn test_selection_with_shift_arrow() {
    let data = vec![0x00, 0x01, 0x02, 0x03, 0x04, 0x05];
    let mut editor = EditorState::new(data);

    editor.set_cursor(2);
    assert_eq!(editor.cursor(), 2);
    assert!(editor.selection().is_none());

    editor.move_cursor_with_selection(1);
    assert_eq!(editor.cursor(), 3);
    assert_eq!(editor.selection(), Some((2, 4)));

    editor.move_cursor_with_selection(1);
    assert_eq!(editor.cursor(), 4);
    assert_eq!(editor.selection(), Some((2, 5)));

    editor.move_cursor_with_selection(-1);
    assert_eq!(editor.cursor(), 3);
    assert_eq!(editor.selection(), Some((2, 4)));
}

#[test]
fn test_selection_backwards() {
    let data = vec![0x00, 0x01, 0x02, 0x03, 0x04, 0x05];
    let mut editor = EditorState::new(data);

    editor.set_cursor(4);

    editor.move_cursor_with_selection(-1);
    assert_eq!(editor.cursor(), 3);
    assert_eq!(editor.selection(), Some((3, 5)));

    editor.move_cursor_with_selection(-1);
    assert_eq!(editor.cursor(), 2);
    assert_eq!(editor.selection(), Some((2, 5)));
}

#[test]
fn test_set_cursor_with_selection() {
    let data = vec![0x00, 0x01, 0x02, 0x03, 0x04, 0x05];
    let mut editor = EditorState::new(data);

    editor.set_cursor(1);

    editor.set_cursor_with_selection(4, true);
    assert_eq!(editor.cursor(), 4);
    assert_eq!(editor.selection(), Some((1, 5)));

    editor.set_cursor_with_selection(2, false);
    assert_eq!(editor.cursor(), 2);
    assert!(editor.selection().is_none());
}

#[test]
fn test_selection_with_extend_to() {
    let data = vec![0x00, 0x01, 0x02, 0x03, 0x04, 0x05];
    let mut editor = EditorState::new(data);

    editor.set_cursor(2);

    editor.extend_selection_to(5);
    assert_eq!(editor.cursor(), 5);
    assert_eq!(editor.selection(), Some((2, 6)));

    editor.extend_selection_to(0);
    assert_eq!(editor.cursor(), 0);
    assert_eq!(editor.selection(), Some((0, 3)));
}

#[test]
fn test_clear_selection_clears_anchor() {
    let data = vec![0x00, 0x01, 0x02, 0x03];
    let mut editor = EditorState::new(data);

    editor.set_cursor(1);
    editor.move_cursor_with_selection(1);
    assert!(editor.selection().is_some());

    editor.clear_selection();
    assert!(editor.selection().is_none());

    editor.move_cursor_with_selection(1);
    assert_eq!(editor.selection(), Some((2, 4)));
}
