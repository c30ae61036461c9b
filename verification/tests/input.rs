use lib::editor::cursor::EditMode;
use lib::input::{bookmark_name, save_point_name, shortcut_actions, Modifiers, PressedKeys};

fn no_keys() -> PressedKeys {
    PressedKeys {
        o: false,
        e: false,
        f: false,
        g: false,
        z: false,
        y: false,
        s: false,
        d: false,
        r: false,
        m: false,
        f1: false,
        f3: false,
    }
}

const CTRL: Modifiers = Modifiers { ctrl: true, shift: false, alt: false };
const CTRL_SHIFT: Modifiers = Modifiers { ctrl: true, shift: true, alt: false };
const NONE: Modifiers = Modifiers { ctrl: false, shift: false, alt: false };
const SHIFT: Modifiers = Modifiers { ctrl: false, shift: true, alt: false };

#[test]
fn undo_and_redo_shortcuts() {
    let keys = PressedKeys { z: true, ..no_keys() };
    let a = shortcut_actions(&keys, &CTRL, Some(EditMode::Hex), false);
    assert!(a.undo && !a.redo);
    let a = shortcut_actions(&keys, &CTRL_SHIFT, Some(EditMode::Hex), false);
    assert!(!a.undo && a.redo);
    let keys = PressedKeys { y: true, ..no_keys() };
    assert!(shortcut_actions(&keys, &CTRL, Some(EditMode::Hex), false).redo);
    // Without a file nothing but Open is available.
    assert!(!shortcut_actions(&keys, &CTRL, None, false).redo);
}

#[test]
fn open_works_without_a_file_and_mode_toggles() {
    let keys = PressedKeys { o: true, m: true, ..no_keys() };
    let a = shortcut_actions(&keys, &CTRL, None, false);
    assert!(a.open);
    assert_eq!(a.set_edit_mode, None);
    let a = shortcut_actions(&keys, &CTRL, Some(EditMode::Hex), false);
    assert_eq!(a.set_edit_mode, Some(EditMode::Ascii));
    let a = shortcut_actions(&keys, &CTRL, Some(EditMode::Ascii), false);
    assert_eq!(a.set_edit_mode, Some(EditMode::Hex));
    // Without Ctrl/Cmd the letters do nothing.
    let a = shortcut_actions(&keys, &NONE, Some(EditMode::Hex), false);
    assert!(!a.open);
    assert_eq!(a.set_edit_mode, None);
}

#[test]
fn f3_steps_search_only_when_the_dialog_takes_keys() {
    let keys = PressedKeys { f3: true, f1: true, ..no_keys() };
    let a = shortcut_actions(&keys, &NONE, Some(EditMode::Hex), true);
    assert!(a.search_next && !a.search_prev && a.show_shortcuts);
    let a = shortcut_actions(&keys, &SHIFT, Some(EditMode::Hex), true);
    assert!(!a.search_next && a.search_prev);
    let a = shortcut_actions(&keys, &NONE, Some(EditMode::Hex), false);
    assert!(!a.search_next && !a.search_prev);
    let a = shortcut_actions(&keys, &CTRL, Some(EditMode::Hex), true);
    assert!(!a.search_next && !a.search_prev);
}

#[test]
fn names_of_created_items() {
    assert_eq!(save_point_name(0), "Save Point 1");
    assert_eq!(save_point_name(41), "Save Point 42");
    assert_eq!(bookmark_name(0x1A), "Bookmark at 0x0000001A");
    assert_eq!(bookmark_name(0x123456789), "Bookmark at 0x123456789");
}
