//! Keyboard shortcuts: which actions the keys pressed in a frame ask for,
//! and the names given to save points and bookmarks created from them.

use vstd::prelude::*;
use crate::editor::cursor::EditMode;
use crate::text::{decimal, hex_upper, owned, push_char, push_decimal, push_hex};

verus! {

/// The modifier keys held during a frame. `ctrl` is Ctrl, or Cmd on macOS.
#[derive(Clone, Copy, Debug, PartialEq, Eq, Structural)]
pub struct Modifiers {
    pub ctrl: bool,
    pub shift: bool,
    pub alt: bool,
}

/// The shortcut keys pressed during a frame.
#[derive(Clone, Copy, Debug, PartialEq, Eq, Structural)]
pub struct PressedKeys {
    pub o: bool,
    pub e: bool,
    pub f: bool,
    pub g: bool,
    pub z: bool,
    pub y: bool,
    pub s: bool,
    pub d: bool,
    pub r: bool,
    pub m: bool,
    pub f1: bool,
    pub f3: bool,
}

/// Actions asked for by keyboard input, carried out after input handling.
#[derive(Clone, Copy, Debug, PartialEq, Eq, Structural)]
pub struct InputActions {
    pub open: bool,
    pub export: bool,
    pub search: bool,
    pub go_to: bool,
    pub undo: bool,
    pub redo: bool,
    pub create_save_point: bool,
    pub add_bookmark: bool,
    pub refresh_preview: bool,
    pub set_edit_mode: Option<EditMode>,
    pub show_shortcuts: bool,
    pub search_next: bool,
    pub search_prev: bool,
}

/// The other edit mode.
pub open spec fn toggled(mode: EditMode) -> EditMode {
    match mode {
        EditMode::Hex => EditMode::Ascii,
        EditMode::Ascii => EditMode::Hex,
    }
}

/// The actions the keys ask for. `edit_mode` is the mode of the loaded
/// file (none when no file is loaded); `search_keys` tells whether the
/// search dialog is open with nothing stacked above it.
pub open spec fn actions_for(
    keys: PressedKeys,
    mods: Modifiers,
    edit_mode: Option<EditMode>,
    search_keys: bool,
) -> InputActions {
    let file = edit_mode is Some;
    let c = mods.ctrl;
    let f3 = search_keys && !c && !mods.alt && keys.f3;
    InputActions {
        open: c && keys.o,
        export: c && keys.e && file,
        search: c && keys.f && file,
        go_to: c && keys.g && file,
        undo: c && !mods.shift && keys.z && file,
        redo: (c && mods.shift && keys.z && file) || (c && keys.y && file),
        create_save_point: c && keys.s && file,
        add_bookmark: c && keys.d && file,
        refresh_preview: c && keys.r && file,
        set_edit_mode: if c && keys.m {
            match edit_mode {
                Some(m) => Some(toggled(m)),
                None => None,
            }
        } else {
            None
        },
        show_shortcuts: keys.f1,
        search_next: f3 && !mods.shift,
        search_prev: f3 && mods.shift,
    }
}

/// The actions asked for by the keys pressed in a frame: Ctrl/Cmd with O
/// (open), and, with a file loaded, E (export), F (find), G (go to), Z
/// (undo; redo with Shift), Y (redo), S (save point), D (bookmark), R
/// (refresh preview), M (switch edit mode); F1 (shortcuts help); F3 (next
/// match; previous with Shift) when the search dialog takes keys and no
/// Ctrl/Cmd or Alt is held.
pub fn shortcut_actions(
    keys: &PressedKeys,
    mods: &Modifiers,
    edit_mode: Option<EditMode>,
    search_keys: bool,
) -> (r: InputActions)
    ensures
        r == actions_for(*keys, *mods, edit_mode, search_keys),
{
    let file = edit_mode.is_some();
    let c = mods.ctrl;
    let f3 = search_keys && !c && !mods.alt && keys.f3;
    let set_edit_mode = if c && keys.m {
        match edit_mode {
            Some(EditMode::Hex) => Some(EditMode::Ascii),
            Some(EditMode::Ascii) => Some(EditMode::Hex),
            None => None,
        }
    } else {
        None
    };
    InputActions {
        open: c && keys.o,
        export: c && keys.e && file,
        search: c && keys.f && file,
        go_to: c && keys.g && file,
        undo: c && !mods.shift && keys.z && file,
        redo: (c && mods.shift && keys.z && file) || (c && keys.y && file),
        create_save_point: c && keys.s && file,
        add_bookmark: c && keys.d && file,
        refresh_preview: c && keys.r && file,
        set_edit_mode,
        show_shortcuts: keys.f1,
        search_next: f3 && !mods.shift,
        search_prev: f3 && mods.shift,
    }
}

/// The name of the save point created when there are `count` of them: `Save
/// Point N` with N = count + 1.
pub open spec fn save_point_name_spec(count: nat) -> Seq<char> {
    "Save Point "@ + decimal(count + 1)
}

/// The name of a save point created from the keyboard when `count` exist.
pub fn save_point_name(count: usize) -> (r: String)
    requires
        count < usize::MAX,
    ensures
        r@ == save_point_name_spec(count as nat),
{
    let mut name = owned("Save Point ");
    push_decimal(&mut name, count + 1);
    name
}

/// `d` with zeros in front, to `width` characters at least.
pub open spec fn zero_padded(d: Seq<char>, width: nat) -> Seq<char> {
    if d.len() < width {
        Seq::new((width - d.len()) as nat, |i: int| '0') + d
    } else {
        d
    }
}

/// The name of a bookmark added at `offset`: `Bookmark at 0x` and the offset
/// in upper-case hex, at least 8 digits.
pub open spec fn bookmark_name_spec(offset: nat) -> Seq<char> {
    "Bookmark at 0x"@ + zero_padded(hex_upper(offset), 8)
}

/// The number of hex digits of `n`.
fn hex_len(n: usize) -> (r: usize)
    ensures
        r == hex_upper(n as nat).len(),
        r <= n + 1,
    decreases n,
{
    if n < 16 {
        1
    } else {
        hex_len(n / 16) + 1
    }
}

/// The name of a bookmark added from the keyboard at `offset`.
pub fn bookmark_name(offset: usize) -> (r: String)
    ensures
        r@ == bookmark_name_spec(offset as nat),
{
    let mut name = owned("Bookmark at 0x");
    let ghost prefix = name@;
    let digits = hex_len(offset);
    let mut pad: usize = 0;
    let width: usize = if digits < 8 {
        8 - digits
    } else {
        0
    };
    while pad < width
        invariant
            width == if digits < 8 {
                8 - digits
            } else {
                0
            },
            pad <= width,
            name@ == prefix + Seq::new(pad as nat, |i: int| '0'),
        decreases width - pad,
    {
        push_char(&mut name, '0');
        pad += 1;
        assert(name@ =~= prefix + Seq::new(pad as nat, |i: int| '0'));
    }
    push_hex(&mut name, offset);
    assert(name@ =~= bookmark_name_spec(offset as nat));
    name
}

} // verus!
