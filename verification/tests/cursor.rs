use lib::editor::buffer::EditorState;

#[test]
fn test_cursor_movement() {
    let data = vec![0x00, 0x01, 0x02, 0x03];
    let mut editor = EditorState::new(data);

    assert_eq!(editor.cursor(), 0);

    editor.set_cursor(2);
    assert_eq!(editor.cursor(), 2);

    editor.move_cursor(1);
    assert_eq!(editor.cursor(), 3);

    // Should clamp at max
    editor.move_cursor(10);
    assert_eq!(editor.cursor(), 3);

    // Should clamp at 0
    editor.move_cursor(-10);
    assert_eq!(editor.cursor(), 0);
}
