//! Logic of the hex editor view: its context menu state, the text put on
//! the clipboard by Copy, and the bytes taken from it by Paste.

use vstd::prelude::*;
use vstd::string::StringSliceAdditionalSpecFns;
use vstd::utf8::encode_utf8;
use crate::dialogs::{PendingEdit, PendingEditType};
use crate::editor::buffer::{EditorState, EditorView, last_index, min_int, moved, recorded};
use crate::editor::cursor::{EditMode, NibblePosition, WriteMode};
use crate::formats::traits::RiskLevel;
use crate::editor::go_to_offset::chars_of;
use crate::editor::history::{EditStep, splice_bytes};
use crate::editor::buffer::{bookmarks_after_insert, next_gen};
use crate::text::{hex_char, push_char, push_hex_byte, spec_digit_value};

verus! {

/// State for the context menu.
pub struct ContextMenuState {
    /// The byte offset where the context menu was opened.
    pub target_offset: Option<usize>,
}

impl Default for ContextMenuState {
    fn default() -> (r: Self)
        ensures
            r.target_offset is None,
    {
        ContextMenuState { target_offset: None }
    }
}

/// The two upper-case hex digits of a byte.
pub open spec fn hex_pair(b: u8) -> Seq<char> {
    seq![hex_char(b as int / 16), hex_char(b as int % 16)]
}

/// Bytes as upper-case hex pairs separated by single spaces.
pub open spec fn hex_text(b: Seq<u8>) -> Seq<char>
    decreases b.len(),
{
    if b.len() == 0 {
        Seq::empty()
    } else if b.len() == 1 {
        hex_pair(b[0])
    } else {
        hex_text(b.drop_last()) + seq![' '] + hex_pair(b.last())
    }
}

/// The character a byte is copied as in ASCII: itself when printable
/// (space through tilde), `.` otherwise.
pub open spec fn ascii_shown(b: u8) -> char {
    if 0x20 <= b <= 0x7E {
        b as char
    } else {
        '.'
    }
}

/// The range that Copy takes: the selection, or the byte at `target`, each
/// end clamped to the buffer.
pub open spec fn copy_range(v: EditorView, target: usize) -> (int, int) {
    let len = v.working.len() as int;
    match v.selection {
        Some((s, e)) => (min_int(s as int, len), min_int(e as int, len)),
        None => (min_int(target as int, len), min_int(target + 1, len)),
    }
}

/// Whether Copy can take its range: a well-ordered one, and room for the
/// byte after `target` when there is no selection.
pub open spec fn copy_range_ok(v: EditorView, target: usize) -> bool {
    &&& v.selection is None ==> target < usize::MAX
    &&& copy_range(v, target).0 <= copy_range(v, target).1
}

/// The bytes Copy takes.
fn copied_bytes(editor: &EditorState, target_offset: usize) -> (r: &[u8])
    requires
        copy_range_ok(editor@, target_offset),
    ensures
        r@ == editor@.working.subrange(
            copy_range(editor@, target_offset).0,
            copy_range(editor@, target_offset).1,
        ),
{
    let (start, end) = match editor.selection() {
        Some(range) => range,
        None => (target_offset, target_offset + 1),
    };
    editor.bytes_in_range(start, end)
}

/// The text Copy as Hex puts on the clipboard: the selected bytes (or the
/// byte at `target_offset`) as hex pairs separated by spaces.
pub fn copy_as_hex(editor: &EditorState, target_offset: usize) -> (r: String)
    requires
        copy_range_ok(editor@, target_offset),
    ensures
        r@ == hex_text(
            editor@.working.subrange(
                copy_range(editor@, target_offset).0,
                copy_range(editor@, target_offset).1,
            ),
        ),
{
    let bytes = copied_bytes(editor, target_offset);
    let mut text = String::new();
    let mut i: usize = 0;
    while i < bytes.len()
        invariant
            i <= bytes@.len(),
            text@ == hex_text(bytes@.subrange(0, i as int)),
        decreases bytes@.len() - i,
    {
        let ghost before = text@;
        if i > 0 {
            push_char(&mut text, ' ');
        }
        push_hex_byte(&mut text, bytes[i]);
        proof {
            let p = bytes@.subrange(0, i + 1);
            assert(p.drop_last() =~= bytes@.subrange(0, i as int));
            if i == 0 {
                assert(before =~= Seq::<char>::empty());
                assert(text@ =~= hex_pair(p[0]));
            } else {
                assert(text@ =~= before + seq![' '] + hex_pair(p.last()));
            }
        }
        i += 1;
    }
    assert(bytes@.subrange(0, bytes@.len() as int) =~= bytes@);
    text
}

/// The text Copy as ASCII puts on the clipboard: the selected bytes (or the
/// byte at `target_offset`), printable ones as themselves, others as `.`.
pub fn copy_as_ascii(editor: &EditorState, target_offset: usize) -> (r: String)
    requires
        copy_range_ok(editor@, target_offset),
    ensures
        r@ == editor@.working.subrange(
            copy_range(editor@, target_offset).0,
            copy_range(editor@, target_offset).1,
        ).map_values(|b: u8| ascii_shown(b)),
{
    let bytes = copied_bytes(editor, target_offset);
    let mut text = String::new();
    let mut i: usize = 0;
    while i < bytes.len()
        invariant
            i <= bytes@.len(),
            text@ == bytes@.subrange(0, i as int).map_values(|b: u8| ascii_shown(b)),
        decreases bytes@.len() - i,
    {
        let b = bytes[i];
        let c = if 0x20 <= b && b <= 0x7E {
            b as char
        } else {
            '.'
        };
        let ghost before = text@;
        push_char(&mut text, c);
        proof {
            assert(bytes@.subrange(0, i + 1).map_values(|b: u8| ascii_shown(b)) =~= before.push(
                ascii_shown(b),
            ));
        }
        i += 1;
    }
    assert(bytes@.subrange(0, bytes@.len() as int) =~= bytes@);
    text
}

/// Whether `c` is an ASCII hex digit.
pub open spec fn is_hex_digit(c: char) -> bool {
    spec_digit_value(c) < 16
}

/// The hex digits of `s`, in order.
pub open spec fn hex_digits(s: Seq<char>) -> Seq<char>
    decreases s.len(),
{
    if s.len() == 0 {
        Seq::empty()
    } else if is_hex_digit(s.last()) {
        hex_digits(s.drop_last()).push(s.last())
    } else {
        hex_digits(s.drop_last())
    }
}

/// The bytes written by pairs of hex digits.
pub open spec fn pair_bytes(d: Seq<char>) -> Seq<u8> {
    Seq::new(
        d.len() / 2,
        |i: int| (spec_digit_value(d[2 * i]) * 16 + spec_digit_value(d[2 * i + 1])) as u8,
    )
}

/// The bytes written in hex in `s` ("FF 00" or "FF00"; other characters are
/// ignored): none when there are no digits or an odd number of them.
pub open spec fn hex_input_bytes(s: Seq<char>) -> Option<Seq<u8>> {
    let d = hex_digits(s);
    if d.len() == 0 || d.len() % 2 != 0 {
        None
    } else {
        Some(pair_bytes(d))
    }
}

/// Parse hex input into bytes; accepts "FF FF FF" and "FFFFFF".
pub fn parse_hex_input(input: &str) -> (r: Option<Vec<u8>>)
    ensures
        match hex_input_bytes(input@) {
            Some(b) => r matches Some(v) && v@ == b,
            None => r is None,
        },
{
    let chars = chars_of(input);
    let mut clean: Vec<char> = Vec::new();
    let mut i: usize = 0;
    while i < chars.len()
        invariant
            chars@ == input@,
            i <= chars@.len(),
            clean@ == hex_digits(chars@.subrange(0, i as int)),
        decreases chars@.len() - i,
    {
        let c = chars[i];
        proof {
            assert(chars@.subrange(0, i + 1).drop_last() =~= chars@.subrange(0, i as int));
        }
        if c.to_digit(16).is_some() {
            clean.push(c);
        }
        i += 1;
    }
    assert(chars@.subrange(0, chars@.len() as int) =~= chars@);
    proof {
        lemma_hex_digits(chars@);
    }
    let n = clean.len();
    if n == 0 || n % 2 != 0 {
        return None;
    }
    let mut bytes: Vec<u8> = Vec::new();
    let mut k: usize = 0;
    while k < n / 2
        invariant
            n == clean@.len(),
            n % 2 == 0,
            k <= n / 2,
            forall|j: int| 0 <= j < n ==> is_hex_digit(#[trigger] clean@[j]),
            bytes@ == pair_bytes(clean@).subrange(0, k as int),
        decreases n / 2 - k,
    {
        let hi = clean[2 * k].to_digit(16).unwrap();
        let lo = clean[2 * k + 1].to_digit(16).unwrap();
        bytes.push((hi * 16 + lo) as u8);
        proof {
            assert(bytes@ =~= pair_bytes(clean@).subrange(0, k + 1));
        }
        k += 1;
    }
    assert(pair_bytes(clean@).subrange(0, (n / 2) as int) =~= pair_bytes(clean@));
    Some(bytes)
}

/// Every character that `hex_digits` keeps is a hex digit.
proof fn lemma_hex_digits(s: Seq<char>)
    ensures
        forall|j: int| 0 <= j < hex_digits(s).len() ==> is_hex_digit(#[trigger] hex_digits(s)[j]),
    decreases s.len(),
{
    if s.len() > 0 {
        lemma_hex_digits(s.drop_last());
        let r = hex_digits(s.drop_last());
        if is_hex_digit(s.last()) {
            assert forall|j: int| 0 <= j < r.push(s.last()).len() implies is_hex_digit(
                #[trigger] r.push(s.last())[j],
            ) by {
                if j < r.len() {
                    assert(r.push(s.last())[j] == r[j]);
                }
            }
        }
    }
}

/// The printable ASCII bytes (space through tilde) of `b`, in order.
pub open spec fn printable_bytes(b: Seq<u8>) -> Seq<u8>
    decreases b.len(),
{
    if b.len() == 0 {
        Seq::empty()
    } else if 0x20 <= b.last() <= 0x7E {
        printable_bytes(b.drop_last()).push(b.last())
    } else {
        printable_bytes(b.drop_last())
    }
}

/// The bytes Paste takes from clipboard text: in hex mode the bytes written
/// in hex; in ASCII mode the printable ASCII bytes of its UTF-8 encoding, if
/// there is any.
pub open spec fn paste_bytes(text: Seq<char>, mode: EditMode) -> Option<Seq<u8>> {
    match mode {
        EditMode::Hex => hex_input_bytes(text),
        EditMode::Ascii => {
            let b = printable_bytes(encode_utf8(text));
            if b.len() == 0 {
                None
            } else {
                Some(b)
            }
        },
    }
}

/// Parse pasted text into bytes according to the edit mode.
pub fn parse_paste_input(text: &str, mode: EditMode) -> (r: Option<Vec<u8>>)
    ensures
        match paste_bytes(text@, mode) {
            Some(b) => r matches Some(v) && v@ == b,
            None => r is None,
        },
{
    match mode {
        EditMode::Hex => parse_hex_input(text),
        EditMode::Ascii => {
            let raw = text.as_bytes();
            let mut bytes: Vec<u8> = Vec::new();
            let mut i: usize = 0;
            while i < raw.len()
                invariant
                    raw@ == encode_utf8(text@),
                    i <= raw@.len(),
                    bytes@ == printable_bytes(raw@.subrange(0, i as int)),
                decreases raw@.len() - i,
            {
                let b = raw[i];
                proof {
                    assert(raw@.subrange(0, i + 1).drop_last() =~= raw@.subrange(0, i as int));
                }
                if 0x20 <= b && b <= 0x7E {
                    bytes.push(b);
                }
                i += 1;
            }
            assert(raw@.subrange(0, raw@.len() as int) =~= raw@);
            if bytes.len() == 0 {
                None
            } else {
                Some(bytes)
            }
        },
    }
}

/// `w` with the bytes from `offset` on overwritten by `b`, as far as `w` goes.
pub open spec fn pasted_over(w: Seq<u8>, offset: int, b: Seq<u8>) -> Seq<u8> {
    Seq::new(w.len(), |k: int| if offset <= k < offset + b.len() { b[k - offset] } else { w[k] })
}

/// The generation counter after `n` more edits.
pub open spec fn gen_after(g: u64, n: nat) -> u64
    decreases n,
{
    if n == 0 {
        g
    } else {
        next_gen(gen_after(g, (n - 1) as nat))
    }
}

/// How many bytes of `w` pasting `b` over it from `offset` changes.
pub open spec fn changed_count(w: Seq<u8>, offset: int, b: Seq<u8>) -> nat
    decreases b.len(),
{
    if b.len() == 0 {
        0
    } else {
        let k = offset + b.len() - 1;
        changed_count(w, offset, b.drop_last()) + if k < w.len() && w[k] != b.last() {
            1nat
        } else {
            0nat
        }
    }
}

/// Apply pasted bytes at `offset`: inserted in insert mode; in overwrite
/// mode written over the bytes from `offset` on, those past the end of the
/// buffer being dropped.
pub fn apply_paste_bytes(editor: &mut EditorState, offset: usize, bytes: &[u8])
    requires
        old(editor).wf(),
        offset + bytes@.len() <= usize::MAX,
    ensures
        final(editor).wf(),
        old(editor)@.write_mode == WriteMode::Insert && bytes@.len() == 0 ==> final(editor)@ == old(
            editor,
        )@,
        old(editor)@.write_mode == WriteMode::Insert && bytes@.len() > 0 ==> {
            let at = min_int(offset as int, old(editor)@.working.len() as int);
            &&& recorded(
                old(editor)@,
                final(editor)@,
                EditStep::Insert { offset: at, values: bytes@ },
            )
            &&& final(editor)@ == (EditorView {
                working: splice_bytes(old(editor)@.working, at, 0, bytes@),
                undo: final(editor)@.undo,
                redo: final(editor)@.redo,
                modified: true,
                edit_generation: next_gen(old(editor)@.edit_generation),
                save_points: Seq::empty(),
                bookmarks: bookmarks_after_insert(
                    old(editor)@.bookmarks,
                    at as usize,
                    bytes@.len() as usize,
                ),
                length_changed: true,
                ..old(editor)@
            })
        },
        old(editor)@.write_mode == WriteMode::Overwrite ==> final(editor)@ == (EditorView {
            working: pasted_over(old(editor)@.working, offset as int, bytes@),
            undo: final(editor)@.undo,
            redo: final(editor)@.redo,
            modified: old(editor)@.modified || final(editor)@.working != old(editor)@.working,
            edit_generation: gen_after(
                old(editor)@.edit_generation,
                changed_count(old(editor)@.working, offset as int, bytes@),
            ),
            ..old(editor)@
        }),
{
    if editor.write_mode() == WriteMode::Insert {
        editor.insert_bytes(offset, bytes);
        return;
    }
    let ghost start = editor@;
    let mut i: usize = 0;
    while i < bytes.len()
        invariant
            editor.wf(),
            start.write_mode == WriteMode::Overwrite,
            offset + bytes@.len() <= usize::MAX,
            i <= bytes@.len(),
            editor@.working == pasted_over(start.working, offset as int, bytes@.subrange(0, i as int)),
            editor@.modified == (start.modified || editor@.working != start.working),
            editor@.edit_generation == gen_after(
                start.edit_generation,
                changed_count(start.working, offset as int, bytes@.subrange(0, i as int)),
            ),
            editor@ == (EditorView {
                working: editor@.working,
                undo: editor@.undo,
                redo: editor@.redo,
                modified: editor@.modified,
                edit_generation: editor@.edit_generation,
                ..start
            }),
        decreases bytes@.len() - i,
    {
        let target = offset + i;
        let ghost before = editor@;
        if target < editor.len() {
            editor.edit_byte(target, bytes[i]);
        }
        proof {
            let done = bytes@.subrange(0, i + 1);
            assert(done.drop_last() =~= bytes@.subrange(0, i as int));
            assert(editor@.working =~= pasted_over(start.working, offset as int, done));
            if target < before.working.len() && before.working[target as int] != bytes@[i as int] {
                assert(before.working[target as int] == start.working[target as int]);
                assert(editor@.working[target as int] != start.working[target as int]);
            } else {
                assert(editor@.working =~= before.working);
            }
        }
        i += 1;
    }
    assert(bytes@.subrange(0, bytes@.len() as int) =~= bytes@);
}

/// Number of bytes per row of the hex view.
pub const BYTES_PER_ROW: usize = 16;

/// A navigation key of the hex view.
#[derive(Clone, Copy, Debug, PartialEq, Eq, Structural)]
pub enum NavigationKey {
    ArrowLeft,
    ArrowRight,
    ArrowUp,
    ArrowDown,
    PageUp,
    PageDown,
    Home,
    End,
}

/// How far an arrow or page key moves the cursor: a byte, a row (16
/// bytes) or 16 rows; 0 for Home and End.
pub open spec fn key_step(key: NavigationKey) -> int {
    match key {
        NavigationKey::ArrowLeft => -1,
        NavigationKey::ArrowRight => 1,
        NavigationKey::ArrowUp => -16,
        NavigationKey::ArrowDown => 16,
        NavigationKey::PageUp => -256,
        NavigationKey::PageDown => 256,
        _ => 0,
    }
}

/// `v` with the selection cleared and the cursor at `p`, clamped to the
/// last byte.
pub open spec fn cursor_placed(v: EditorView, p: int) -> EditorView {
    EditorView {
        selection: None,
        selection_anchor: None,
        cursor: min_int(p, last_index(v.working.len() as int)) as usize,
        nibble: NibblePosition::High,
        ..v
    }
}

/// `v` with the selection extended from its anchor (or the cursor) to `pos`,
/// clamped to the last byte, and the cursor there.
pub open spec fn selection_extended(v: EditorView, pos: int) -> EditorView {
    let len = v.working.len() as int;
    let p = min_int(pos, last_index(len));
    let anchor: int = match v.selection_anchor {
        Some(a) => a as int,
        None => v.cursor as int,
    };
    let (start, end) = if p >= anchor {
        (anchor, p + 1)
    } else {
        (p, anchor + 1)
    };
    EditorView {
        selection: Some((start as usize, min_int(end, len) as usize)),
        selection_anchor: Some(anchor as usize),
        cursor: p as usize,
        nibble: NibblePosition::High,
        ..v
    }
}

/// The editor after a navigation key: arrows and page keys move the
/// cursor, Home and End go to the first and last byte; with Shift the
/// selection is extended instead of cleared.
pub open spec fn navigated(v: EditorView, key: NavigationKey, shift: bool) -> EditorView {
    let len = v.working.len() as int;
    let last = last_index(len);
    match key {
        NavigationKey::Home => if shift {
            selection_extended(v, 0)
        } else {
            cursor_placed(v, 0)
        },
        NavigationKey::End => if shift {
            selection_extended(v, last)
        } else {
            cursor_placed(v, last)
        },
        _ => {
            let target = moved(v.cursor, key_step(key));
            if !shift {
                cursor_placed(v, target)
            } else if key_step(key) < 0 {
                selection_extended(v, target)
            } else {
                selection_extended(v, min_int(target, last))
            }
        },
    }
}

/// Handle a navigation key pressed in the hex view.
pub fn handle_navigation_key(editor: &mut EditorState, key: NavigationKey, shift: bool)
    requires
        old(editor).wf(),
    ensures
        final(editor).wf(),
        final(editor)@ == navigated(old(editor)@, key, shift),
{
    let step: isize = match key {
        NavigationKey::ArrowLeft => -1,
        NavigationKey::ArrowRight => 1,
        NavigationKey::ArrowUp => -16,
        NavigationKey::ArrowDown => 16,
        NavigationKey::PageUp => -256,
        NavigationKey::PageDown => 256,
        NavigationKey::Home => {
            if shift {
                editor.extend_selection_to(0);
            } else {
                editor.clear_selection();
                editor.set_cursor(0);
            }
            return;
        },
        NavigationKey::End => {
            let len = editor.len();
            let last = if len == 0 {
                0
            } else {
                len - 1
            };
            if shift {
                editor.extend_selection_to(last);
            } else {
                editor.clear_selection();
                editor.set_cursor(last);
            }
            return;
        },
    };
    if shift {
        editor.move_cursor_with_selection(step);
    } else {
        editor.clear_selection();
        editor.move_cursor(step);
    }
}

/// What to do with an edit the user typed.
#[derive(Clone, Copy, Debug)]
pub enum EditDecision {
    /// Nothing (the key does not edit in this mode, or the region is protected).
    Ignore,
    /// Apply the edit now.
    Apply(PendingEditType),
    /// Ask for confirmation first: the edit is in a high-risk region.
    Confirm(PendingEdit),
}

/// The decision for an edit of type `t` at the cursor, once it is known to
/// edit something: confirmation when a warning is due (nothing when the
/// risk level is unknown), applied otherwise.
pub open spec fn warned(t: PendingEditType, at: usize, warn: bool, risk: Option<RiskLevel>) -> EditDecision {
    if warn {
        match risk {
            Some(r) => EditDecision::Confirm(PendingEdit { edit_type: t, offset: at, risk_level: r }),
            None => EditDecision::Ignore,
        }
    } else {
        EditDecision::Apply(t)
    }
}

fn warn_or_apply(t: PendingEditType, at: usize, warn: bool, risk: Option<RiskLevel>) -> (r: EditDecision)
    ensures
        r == warned(t, at, warn, risk),
{
    if warn {
        match risk {
            Some(r) => EditDecision::Confirm(PendingEdit { edit_type: t, offset: at, risk_level: r }),
            None => EditDecision::Ignore,
        }
    } else {
        EditDecision::Apply(t)
    }
}

/// The decision for a typed character: in hex mode a hex digit edits a
/// nibble, in ASCII mode a printable character edits a byte; nothing
/// happens when the cursor is protected.
pub open spec fn typed_char_decision(
    c: char,
    mode: EditMode,
    at: usize,
    protected: bool,
    warn: bool,
    risk: Option<RiskLevel>,
) -> EditDecision {
    if protected {
        EditDecision::Ignore
    } else {
        match mode {
            EditMode::Hex => if spec_digit_value(c) < 16 {
                warned(PendingEditType::Nibble(spec_digit_value(c) as u8), at, warn, risk)
            } else {
                EditDecision::Ignore
            },
            EditMode::Ascii => if 0x20 <= (c as u32) <= 0x7E {
                warned(PendingEditType::Ascii(c), at, warn, risk)
            } else {
                EditDecision::Ignore
            },
        }
    }
}

/// Decide what a character typed at the cursor (offset `cursor_pos`) does.
pub fn decide_typed_char(
    c: char,
    mode: EditMode,
    cursor_pos: usize,
    cursor_protected: bool,
    should_warn: bool,
    risk: Option<RiskLevel>,
) -> (r: EditDecision)
    ensures
        r == typed_char_decision(c, mode, cursor_pos, cursor_protected, should_warn, risk),
{
    if cursor_protected {
        return EditDecision::Ignore;
    }
    match mode {
        EditMode::Hex => match c.to_digit(16) {
            Some(nibble) => warn_or_apply(
                PendingEditType::Nibble(nibble as u8),
                cursor_pos,
                should_warn,
                risk,
            ),
            None => EditDecision::Ignore,
        },
        EditMode::Ascii => {
            let code = c as u32;
            if 0x20 <= code && code <= 0x7E {
                warn_or_apply(PendingEditType::Ascii(c), cursor_pos, should_warn, risk)
            } else {
                EditDecision::Ignore
            }
        },
    }
}

/// The decision for Backspace (`delete` false) or Delete (`delete` true):
/// a warning is due only in insert mode, where the key removes a byte;
/// nothing happens when the cursor is protected.
pub open spec fn removal_decision(
    delete: bool,
    write_mode: WriteMode,
    at: usize,
    protected: bool,
    warn: bool,
    risk: Option<RiskLevel>,
) -> EditDecision {
    let t = if delete {
        PendingEditType::Delete
    } else {
        PendingEditType::Backspace
    };
    if protected {
        EditDecision::Ignore
    } else {
        warned(t, at, warn && write_mode == WriteMode::Insert, risk)
    }
}

/// Decide what Backspace (`delete` false) or Delete (`delete` true) does at
/// the cursor.
pub fn decide_removal(
    delete: bool,
    write_mode: WriteMode,
    cursor_pos: usize,
    cursor_protected: bool,
    should_warn: bool,
    risk: Option<RiskLevel>,
) -> (r: EditDecision)
    ensures
        r == removal_decision(delete, write_mode, cursor_pos, cursor_protected, should_warn, risk),
{
    if cursor_protected {
        return EditDecision::Ignore;
    }
    let t = if delete {
        PendingEditType::Delete
    } else {
        PendingEditType::Backspace
    };
    warn_or_apply(t, cursor_pos, should_warn && write_mode == WriteMode::Insert, risk)
}

} // verus!
