//! Logic of the "Go to offset" dialog.

use vstd::prelude::*;
use crate::editor::buffer::{EditorState, EditorView, last_index, min_int};
use crate::editor::cursor::NibblePosition;
use crate::editor::go_to_offset::{parse_offset, parse_offset_result};
use crate::text::{decimal, hex_upper, owned, push_decimal, push_hex};

verus! {

/// The error shown for an offset past the end of a file of `len` bytes.
pub open spec fn beyond_message(offset: nat, len: nat) -> Seq<char> {
    "Offset 0x"@ + hex_upper(offset) + " ("@ + decimal(offset) + ") is beyond file size (0x"@
        + hex_upper(len) + " / "@ + decimal(len) + " bytes)"@
}

/// The error for an offset past the end of a file of `len` bytes.
fn beyond_file(offset: usize, len: usize) -> (r: String)
    ensures
        r@ == beyond_message(offset as nat, len as nat),
{
    let mut m = owned("Offset 0x");
    push_hex(&mut m, offset);
    m.append(" (");
    push_decimal(&mut m, offset);
    m.append(") is beyond file size (0x");
    push_hex(&mut m, len);
    m.append(" / ");
    push_decimal(&mut m, len);
    m.append(" bytes)");
    m
}

/// Move the editor's cursor to the offset written in `input` (decimal, or
/// hex after `0x`). Returns the offset, so that the view can scroll to it,
/// or the error to show: the parse error, or that the offset is past the end
/// of the file (the editor is then left as it was).
pub fn attempt_navigate(editor: &mut EditorState, input: &str) -> (r: Result<usize, String>)
    requires
        old(editor).wf(),
    ensures
        final(editor).wf(),
        match parse_offset_result(input@) {
            Err(m) => r is Err && r->Err_0@ == m && final(editor)@ == old(editor)@,
            Ok(o) => if o >= old(editor)@.working.len() {
                &&& r is Err
                &&& r->Err_0@ == beyond_message(o as nat, old(editor)@.working.len())
                &&& final(editor)@ == old(editor)@
            } else {
                &&& r == Ok::<usize, String>(o)
                &&& final(editor)@ == (EditorView {
                    cursor: o,
                    nibble: NibblePosition::High,
                    ..old(editor)@
                })
            },
        },
{
    let offset = match parse_offset(input) {
        Ok(o) => o,
        Err(m) => {
            return Err(m);
        },
    };
    let file_len = editor.len();
    if offset >= file_len {
        return Err(beyond_file(offset, file_len));
    }
    editor.set_cursor(offset);
    assert(min_int(offset as int, last_index(file_len as int)) == offset);
    Ok(offset)
}

} // verus!
