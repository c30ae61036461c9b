//! Byte buffer management with edit tracking.
//!
//! The editor keeps two buffers: `original`, loaded once and never modified,
//! and `working`, to which every edit applies. Undo and redo act on the working
//! buffer; the original stays available for comparison and export.

use vstd::prelude::*;
use super::bookmarks::{
    Bookmark,
    BookmarkManager,
    BookmarkView,
    kept_after_delete,
    sorted_by_offset,
    shifted_after_delete,
    shifted_after_insert,
};
use super::cursor::{EditMode, NibblePosition, WriteMode};
use super::history::{
    EditOperation,
    EditStep,
    History,
    MAX_HISTORY_SIZE,
    apply_step,
    copy_bytes,
    fits_after,
    fits_before,
    lemma_apply_then_revert,
    lemma_record_keeps_chain,
    lemma_revert_then_apply,
    record_step,
    redo_chain_ok,
    revert_step,
    splice_bytes,
    undo_chain_ok,
};
use super::savepoints::{
    SavePoint,
    SavePointCall,
    SavePointManager,
    SavePointView,
    lemma_snapshot_at,
    points_after,
    snapshot_of,
};
use super::bookmarks::is_partition_point;

verus! {

/// Everything an [`EditorState`] holds, as mathematical values.
pub ghost struct EditorView {
    pub original: Seq<u8>,
    pub working: Seq<u8>,
    pub undo: Seq<EditStep>,
    pub redo: Seq<EditStep>,
    pub save_points: Seq<SavePointView>,
    pub save_point_next_id: u64,
    pub bookmarks: Seq<BookmarkView>,
    pub bookmark_next_id: u64,
    pub cursor: usize,
    pub nibble: NibblePosition,
    pub selection: Option<(usize, usize)>,
    pub selection_anchor: Option<usize>,
    pub modified: bool,
    pub edit_mode: EditMode,
    pub write_mode: WriteMode,
    pub length_changed: bool,
    pub edit_generation: u64,
}

/// The generation counter after one more edit (wrapping at `u64::MAX`).
pub open spec fn next_gen(g: u64) -> u64 {
    if g == u64::MAX {
        0
    } else {
        (g + 1) as u64
    }
}

/// `min(a, b)` on integers.
pub open spec fn min_int(a: int, b: int) -> int {
    if a <= b {
        a
    } else {
        b
    }
}

/// The history is consistent with the working buffer: every undo step can be
/// reverted in turn, every redo step applied in turn, and the two together hold
/// at most [`MAX_HISTORY_SIZE`] steps; save points have the
/// buffer's length; cursor and anchor leave room for one more position.
pub open spec fn history_consistent(v: EditorView) -> bool {
    &&& undo_chain_ok(v.undo, v.working)
    &&& redo_chain_ok(v.redo, v.working)
    &&& v.undo.len() + v.redo.len() <= MAX_HISTORY_SIZE
    &&& forall|i: int|
        0 <= i < v.save_points.len() ==> (#[trigger] v.save_points[i]).snapshot.len()
            == v.working.len()
    &&& v.cursor < usize::MAX
    &&& (v.selection_anchor matches Some(a) ==> a < usize::MAX)
}

/// Save point identifiers are unique, positive and below the next one; bookmarks
/// are sorted by offset and their identifiers unique and below the next one.
pub open spec fn ids_ok(v: EditorView) -> bool {
    &&& v.save_point_next_id >= 1
    &&& forall|i: int|
        0 <= i < v.save_points.len() ==> 1 <= #[trigger] v.save_points[i].id < v.save_point_next_id
    &&& forall|i: int, j: int|
        0 <= i < j < v.save_points.len() ==> #[trigger] v.save_points[i].id
            != #[trigger] v.save_points[j].id
    &&& sorted_by_offset(v.bookmarks)
    &&& forall|i: int| 0 <= i < v.bookmarks.len() ==> #[trigger] v.bookmarks[i].id < v.bookmark_next_id
    &&& forall|i: int, j: int|
        0 <= i < j < v.bookmarks.len() ==> #[trigger] v.bookmarks[i].id
            != #[trigger] v.bookmarks[j].id
}

/// `new.undo`/`new.redo` are the result of recording step `e` on `old`'s history
/// (coalesced with the previous step or not, depending on timing).
pub open spec fn recorded(old: EditorView, new: EditorView, e: EditStep) -> bool {
    &&& new.undo == record_step(old.undo, e, false) || new.undo == record_step(old.undo, e, true)
    &&& new.redo == Seq::<EditStep>::empty()
}

/// `new` is `old` with the byte at `offset` overwritten by `value`; an actual
/// change is recorded in the history and marks the buffer modified.
pub open spec fn overwrote(old: EditorView, new: EditorView, offset: int, value: u8) -> bool {
    &&& new.working == old.working.update(offset, value)
    &&& if old.working[offset] == value {
        &&& new.undo == old.undo
        &&& new.redo == old.redo
        &&& new.modified == old.modified
        &&& new.edit_generation == old.edit_generation
    } else {
        &&& recorded(
            old,
            new,
            EditStep::Single { offset, old_value: old.working[offset], new_value: value },
        )
        &&& new.modified
        &&& new.edit_generation == next_gen(old.edit_generation)
    }
}

/// The last valid cursor position for a buffer of length `len`.
pub open spec fn last_index(len: int) -> int {
    if len == 0 {
        0
    } else {
        len - 1
    }
}

/// The cursor after moving one byte forward, if there is a byte to move to.
pub open spec fn advanced(cursor: usize, len: int) -> usize {
    if cursor + 1 < len {
        (cursor + 1) as usize
    } else {
        cursor
    }
}

/// The cursor clamped after the buffer shrank to `len` bytes.
pub open spec fn clamped(cursor: usize, len: int) -> usize {
    if len > 0 && cursor > len - 1 {
        (len - 1) as usize
    } else {
        cursor
    }
}

/// The byte after writing nibble `v` into the high or low half of `b`.
pub open spec fn with_nibble(b: u8, v: u8, pos: NibblePosition) -> u8 {
    match pos {
        NibblePosition::High => (v * 16 + b % 16) as u8,
        NibblePosition::Low => ((b / 16) * 16 + v) as u8,
    }
}

/// The bookmarks after deleting `count` bytes at `offset`.
pub open spec fn bookmarks_after_delete(m: Seq<BookmarkView>, offset: usize, count: usize) -> Seq<
    BookmarkView,
> {
    m.filter(|b: BookmarkView| kept_after_delete(b, offset, count)).map_values(
        |b: BookmarkView| shifted_after_delete(b, offset, count),
    )
}

/// The bookmarks after inserting `count` bytes at `offset`.
pub open spec fn bookmarks_after_insert(m: Seq<BookmarkView>, offset: usize, count: usize) -> Seq<
    BookmarkView,
> {
    m.map_values(|b: BookmarkView| shifted_after_insert(b, offset, count))
}

/// `new` is `old` after inserting `value` at `offset` (clamped to the end):
/// recorded, save points cleared, bookmarks shifted.
pub open spec fn inserted_byte(old: EditorView, new: EditorView, offset: usize, value: u8) -> bool {
    let at = min_int(offset as int, old.working.len() as int);
    &&& recorded(old, new, EditStep::Insert { offset: at, values: seq![value] })
    &&& new == (EditorView {
        working: old.working.insert(at, value),
        undo: new.undo,
        redo: new.redo,
        modified: true,
        edit_generation: next_gen(old.edit_generation),
        save_points: Seq::empty(),
        bookmarks: bookmarks_after_insert(old.bookmarks, at as usize, 1),
        length_changed: true,
        ..old
    })
}

/// `new` is `old` after deleting the (existing) byte at `offset`: recorded,
/// save points cleared, bookmarks adjusted, cursor clamped.
pub open spec fn deleted_byte(old: EditorView, new: EditorView, offset: usize) -> bool {
    let w = old.working.remove(offset as int);
    &&& recorded(
        old,
        new,
        EditStep::Delete { offset: offset as int, values: seq![old.working[offset as int]] },
    )
    &&& new == (EditorView {
        working: w,
        undo: new.undo,
        redo: new.redo,
        modified: true,
        edit_generation: next_gen(old.edit_generation),
        save_points: Seq::empty(),
        bookmarks: bookmarks_after_delete(old.bookmarks, offset, 1),
        length_changed: true,
        cursor: clamped(old.cursor, w.len() as int),
        ..old
    })
}

/// `new` is `old` after overwriting the low nibble of the byte under the cursor
/// in insert mode, then advancing the cursor; an actual change is recorded
/// and bumps the generation.
pub open spec fn set_low_nibble_inserting(old: EditorView, new: EditorView, v: u8) -> bool {
    let c = old.cursor;
    let len = old.working.len() as int;
    if c < len {
        let cur = old.working[c as int];
        let nv = with_nibble(cur, v, NibblePosition::Low);
        &&& new.working == old.working.update(c as int, nv)
        &&& if cur == nv {
            new.undo == old.undo && new.redo == old.redo && new.modified == old.modified
        } else {
            recorded(old, new, EditStep::Single { offset: c as int, old_value: cur, new_value: nv })
                && new.modified
        }
        &&& new.edit_generation == if cur == nv {
            old.edit_generation
        } else {
            next_gen(old.edit_generation)
        }
        &&& new == (EditorView {
            working: new.working,
            undo: new.undo,
            redo: new.redo,
            modified: new.modified,
            edit_generation: new.edit_generation,
            nibble: NibblePosition::High,
            cursor: advanced(c, len),
            ..old
        })
    } else {
        new == (EditorView { nibble: NibblePosition::High, ..old })
    }
}

/// The editor state after undoing the last step of `old` (which has one).
pub open spec fn undone(old: EditorView) -> EditorView {
    let e = old.undo.last();
    let w = revert_step(e, old.working);
    let base = EditorView {
        working: w,
        undo: old.undo.drop_last(),
        redo: old.redo.push(e),
        modified: w != old.original,
        edit_generation: next_gen(old.edit_generation),
        ..old
    };
    match e {
        EditStep::Insert { offset, values } => EditorView {
            bookmarks: bookmarks_after_delete(old.bookmarks, offset as usize, values.len() as usize),
            save_points: Seq::empty(),
            length_changed: true,
            cursor: clamped(old.cursor, w.len() as int),
            ..base
        },
        EditStep::Delete { offset, values } => EditorView {
            bookmarks: bookmarks_after_insert(old.bookmarks, offset as usize, values.len() as usize),
            save_points: Seq::empty(),
            length_changed: true,
            ..base
        },
        _ => base,
    }
}

/// The editor state after redoing the last undone step of `old` (which has one).
pub open spec fn redone(old: EditorView) -> EditorView {
    let e = old.redo.last();
    let w = apply_step(e, old.working);
    let base = EditorView {
        working: w,
        redo: old.redo.drop_last(),
        undo: old.undo.push(e),
        modified: w != old.original,
        edit_generation: next_gen(old.edit_generation),
        ..old
    };
    match e {
        EditStep::Insert { offset, values } => EditorView {
            bookmarks: bookmarks_after_insert(old.bookmarks, offset as usize, values.len() as usize),
            save_points: Seq::empty(),
            length_changed: true,
            ..base
        },
        EditStep::Delete { offset, values } => EditorView {
            bookmarks: bookmarks_after_delete(old.bookmarks, offset as usize, values.len() as usize),
            save_points: Seq::empty(),
            length_changed: true,
            cursor: clamped(old.cursor, w.len() as int),
            ..base
        },
        _ => base,
    }
}

/// The position `cursor + offset`, saturating at 0 and at `usize::MAX`.
pub open spec fn moved(cursor: usize, offset: int) -> int {
    let p = cursor + offset;
    if p < 0 {
        0
    } else if p > usize::MAX {
        usize::MAX as int
    } else {
        p
    }
}

/// `new` is `old` after writing `values` at `offset`, cut at the buffer end,
/// as one undoable step; nothing changes when no byte would.
pub open spec fn bytes_replaced(old: EditorView, new: EditorView, offset: usize, values: Seq<u8>) -> bool {
    let w = old.working;
    let k = min_int(values.len() as int, w.len() - offset);
    let olds = w.subrange(offset as int, offset + k);
    let news = values.subrange(0, k);
    if k == 0 || olds == news {
        new == old
    } else {
        &&& recorded(
            old,
            new,
            EditStep::Range { offset: offset as int, old_values: olds, new_values: news },
        )
        &&& new == (EditorView {
            working: splice_bytes(w, offset as int, k, news),
            undo: new.undo,
            redo: new.redo,
            modified: true,
            edit_generation: next_gen(old.edit_generation),
            ..old
        })
    }
}

/// `new` is `old` after writing `values` at each of `offsets`, as one
/// undoable step from the first write to the end of the last; nothing changes
/// when no byte would.
pub open spec fn all_bytes_replaced(old: EditorView, new: EditorView, offsets: Seq<usize>, values: Seq<u8>) -> bool {
    let w = old.working;
    let written = written_at_all(w, offsets, values);
    let first = offsets[0] as int;
    let end = offsets.last() + values.len();
    if offsets.len() == 0 || values.len() == 0 || w.subrange(first, end)
        == written.subrange(first, end) {
        new == old
    } else {
        &&& recorded(
            old,
            new,
            EditStep::Range {
                offset: first,
                old_values: w.subrange(first, end),
                new_values: written.subrange(first, end),
            },
        )
        &&& new == (EditorView {
            working: written,
            undo: new.undo,
            redo: new.redo,
            modified: true,
            edit_generation: next_gen(old.edit_generation),
            ..old
        })
    }
}

/// `w` with `v` written at each offset of `offsets`, in order.
pub open spec fn written_at_all(w: Seq<u8>, offsets: Seq<usize>, v: Seq<u8>) -> Seq<u8>
    decreases offsets.len(),
{
    if offsets.len() == 0 {
        w
    } else {
        splice_bytes(written_at_all(w, offsets.drop_last(), v), offsets.last() as int, v.len() as int, v)
    }
}

/// Writes that all fall inside `[lo, hi)` keep the length and every byte
/// outside that range.
pub proof fn lemma_written_outside(w: Seq<u8>, offsets: Seq<usize>, v: Seq<u8>, lo: int, hi: int)
    requires
        hi <= w.len(),
        forall|i: int| 0 <= i < offsets.len() ==> lo <= #[trigger] offsets[i] && offsets[i] + v.len() <= hi,
    ensures
        written_at_all(w, offsets, v).len() == w.len(),
        forall|k: int|
            0 <= k < w.len() && !(lo <= k < hi) ==> #[trigger] written_at_all(w, offsets, v)[k]
                == w[k],
    decreases offsets.len(),
{
    if offsets.len() > 0 {
        let rest = offsets.drop_last();
        assert forall|i: int| 0 <= i < rest.len() implies lo <= #[trigger] rest[i] && rest[i] + v.len()
            <= hi by {
            assert(rest[i] == offsets[i]);
        }
        lemma_written_outside(w, rest, v, lo, hi);
        assert(offsets.last() == offsets[offsets.len() - 1]);
    }
}

/// `cursor` moved by `offset`, saturating at both ends of `usize`.
fn step_position(cursor: usize, offset: isize) -> (r: usize)
    ensures
        r == moved(cursor, offset as int),
{
    if offset < 0 {
        let back = ((-(offset + 1)) as usize) + 1;
        cursor.saturating_sub(back)
    } else {
        cursor.saturating_add(offset as usize)
    }
}

/// Editor state: the two buffers, history, save points, bookmarks and cursor.
pub struct EditorState {
    original: Vec<u8>,
    working: Vec<u8>,
    history: History,
    save_points: SavePointManager,
    bookmarks: BookmarkManager,
    cursor: usize,
    nibble: NibblePosition,
    selection: Option<(usize, usize)>,
    selection_anchor: Option<usize>,
    modified: bool,
    edit_mode: EditMode,
    write_mode: WriteMode,
    length_changed: bool,
    edit_generation: u64,
}

impl View for EditorState {
    type V = EditorView;

    closed spec fn view(&self) -> EditorView {
        EditorView {
            original: self.original@,
            working: self.working@,
            undo: self.history.undo_steps(),
            redo: self.history.redo_steps(),
            save_points: self.save_points.points(),
            save_point_next_id: self.save_points.next_id(),
            bookmarks: self.bookmarks.marks(),
            bookmark_next_id: self.bookmarks.next_id(),
            cursor: self.cursor,
            nibble: self.nibble,
            selection: self.selection,
            selection_anchor: self.selection_anchor,
            modified: self.modified,
            edit_mode: self.edit_mode,
            write_mode: self.write_mode,
            length_changed: self.length_changed,
            edit_generation: self.edit_generation,
        }
    }
}

/// `v` with `new` spliced in place of `remove` bytes at `at`.
fn splice_vec(v: &Vec<u8>, at: usize, remove: usize, new: &[u8]) -> (r: Vec<u8>)
    requires
        at + remove <= v@.len(),
    ensures
        r@ == splice_bytes(v@, at as int, remove as int, new@),
{
    let mut r: Vec<u8> = Vec::new();
    let mut i: usize = 0;
    while i < at
        invariant
            i <= at,
            at + remove <= v@.len(),
            r@ == v@.subrange(0, i as int),
        decreases at - i,
    {
        r.push(v[i]);
        i += 1;
        assert(r@ =~= v@.subrange(0, i as int));
    }
    let mut j: usize = 0;
    while j < new.len()
        invariant
            j <= new@.len(),
            at + remove <= v@.len(),
            r@ == v@.subrange(0, at as int) + new@.subrange(0, j as int),
        decreases new@.len() - j,
    {
        r.push(new[j]);
        j += 1;
        assert(r@ =~= v@.subrange(0, at as int) + new@.subrange(0, j as int));
    }
    let vl = v.len();
    assert(at + remove <= vl);
    let mut k: usize = at + remove;
    while k < v.len()
        invariant
            at + remove <= k <= v@.len(),
            r@ == v@.subrange(0, at as int) + new@ + v@.subrange(
                at + remove,
                k as int,
            ),
        decreases v@.len() - k,
    {
        r.push(v[k]);
        k += 1;
        assert(r@ =~= v@.subrange(0, at as int) + new@ + v@.subrange(at + remove, k as int));
    }
    assert(new@.subrange(0, new@.len() as int) =~= new@);
    r
}

/// Whether two byte slices are equal.
fn bytes_eq(a: &[u8], b: &[u8]) -> (r: bool)
    ensures
        r == (a@ == b@),
{
    if a.len() != b.len() {
        return false;
    }
    let mut i: usize = 0;
    while i < a.len()
        invariant
            i <= a@.len(),
            a@.len() == b@.len(),
            forall|k: int| 0 <= k < i ==> a@[k] == b@[k],
        decreases a@.len() - i,
    {
        if a[i] != b[i] {
            return false;
        }
        i += 1;
    }
    assert(a@ =~= b@);
    true
}

/// The next generation counter (wrapping).
fn bump(g: u64) -> (r: u64)
    ensures
        r == next_gen(g),
{
    if g == u64::MAX {
        0
    } else {
        g + 1
    }
}

impl EditorState {
    /// Identifiers are fresh and bookmarks sorted, the history is consistent
    /// with the working buffer, and the internal indexes are up to date.
    pub open spec fn wf(&self) -> bool {
        &&& ids_ok(self@)
        &&& history_consistent(self@)
        &&& self.indexes_ok()
    }

    /// The managers' internal indexes by identifier agree with their lists.
    pub closed spec fn indexes_ok(&self) -> bool {
        &&& self.save_points.index_ok()
        &&& self.bookmarks.index_ok()
    }

    /// The save point and bookmark managers are well formed.
    proof fn lemma_managers_wf(&self)
        requires
            ids_ok(self@),
            self.indexes_ok(),
        ensures
            self.save_points.wf(),
            self.bookmarks.wf(),
    {
        let p = self.save_points.points();
        assert(p == self@.save_points);
        assert forall|i: int| 0 <= i < p.len() implies 1 <= #[trigger] p[i].id
            < self.save_points.next_id() by {
            assert(self@.save_points[i] == p[i]);
        }
    }

    /// Create an editor on the bytes of a file.
    pub fn new(bytes: Vec<u8>) -> (r: Self)
        ensures
            r.wf(),
            r@ == (EditorView {
                original: bytes@,
                working: bytes@,
                undo: Seq::empty(),
                redo: Seq::empty(),
                save_points: Seq::empty(),
                save_point_next_id: 1,
                bookmarks: Seq::empty(),
                bookmark_next_id: 0,
                cursor: 0,
                nibble: NibblePosition::High,
                selection: None,
                selection_anchor: None,
                modified: false,
                edit_mode: EditMode::Hex,
                write_mode: WriteMode::Overwrite,
                length_changed: false,
                edit_generation: 0,
            }),
    {
        let working = copy_bytes(&bytes);
        EditorState {
            working,
            original: bytes,
            history: History::new(),
            save_points: SavePointManager::new(),
            bookmarks: BookmarkManager::new(),
            cursor: 0,
            nibble: NibblePosition::High,
            selection: None,
            selection_anchor: None,
            modified: false,
            edit_mode: EditMode::Hex,
            write_mode: WriteMode::Overwrite,
            length_changed: false,
            edit_generation: 0,
        }
    }

    /// The original (unmodified) bytes.
    pub fn original(&self) -> (r: &[u8])
        ensures
            r@ == self@.original,
    {
        self.original.as_slice()
    }

    /// The working (edited) bytes.
    pub fn working(&self) -> (r: &[u8])
        ensures
            r@ == self@.working,
    {
        self.working.as_slice()
    }

    /// The edit generation counter (bumped on every edit, undo and redo).
    pub fn edit_generation(&self) -> (r: u64)
        ensures
            r == self@.edit_generation,
    {
        self.edit_generation
    }

    /// Return and reset the flag telling whether the buffer length changed.
    pub fn take_length_changed(&mut self) -> (r: bool)
        requires
            old(self).wf(),
        ensures
            final(self).wf(),
            r == old(self)@.length_changed,
            final(self)@ == (EditorView { length_changed: false, ..old(self)@ }),
    {
        let changed = self.length_changed;
        self.length_changed = false;
        changed
    }

    /// Overwrite the byte at `offset` (in bounds) with `value`, recording a change.
    fn overwrite_at(&mut self, offset: usize, value: u8)
        requires
            old(self).wf(),
            offset < old(self)@.working.len(),
        ensures
            final(self).wf(),
            overwrote(old(self)@, final(self)@, offset as int, value),
            final(self)@ == (EditorView {
                working: final(self)@.working,
                undo: final(self)@.undo,
                redo: final(self)@.redo,
                modified: final(self)@.modified,
                edit_generation: final(self)@.edit_generation,
                ..old(self)@
            }),
    {
        let current = self.working[offset];
        if current != value {
            let op = EditOperation::Single { offset, old_value: current, new_value: value };
            let ghost e = op@;
            proof {
                lemma_record_keeps_chain(self@.undo, e, false, self@.working);
                lemma_record_keeps_chain(self@.undo, e, true, self@.working);
            }
            self.history.push(op);
            self.working.set(offset, value);
            self.modified = true;
            self.edit_generation = bump(self.edit_generation);
            proof {
                assert(self@.working =~= apply_step(e, old(self)@.working));
            }
        } else {
            proof {
                assert(self@.working =~= old(self)@.working.update(offset as int, value));
            }
        }
    }

    /// Overwrite the byte under the cursor with a printable ASCII character and
    /// advance the cursor. Returns whether the character was accepted.
    pub fn edit_ascii(&mut self, ch: char) -> (r: bool)
        requires
            old(self).wf(),
        ensures
            final(self).wf(),
            r == (0x20 <= (ch as u32) <= 0x7E && old(self)@.cursor < old(self)@.working.len()),
            !r ==> final(self)@ == old(self)@,
            r ==> overwrote(old(self)@, final(self)@, old(self)@.cursor as int, ch as u8),
            r ==> final(self)@ == (EditorView {
                working: final(self)@.working,
                undo: final(self)@.undo,
                redo: final(self)@.redo,
                modified: final(self)@.modified,
                edit_generation: final(self)@.edit_generation,
                cursor: advanced(old(self)@.cursor, old(self)@.working.len() as int),
                ..old(self)@
            }),
    {
        let code = ch as u32;
        if !(0x20 <= code && code <= 0x7E) {
            return false;
        }
        if self.cursor >= self.working.len() {
            return false;
        }
        let new_value = code as u8;
        self.overwrite_at(self.cursor, new_value);
        if self.cursor + 1 < self.working.len() {
            self.cursor = self.cursor + 1;
        }
        true
    }

    /// Write a hex digit into the current nibble of the byte under the cursor.
    /// After the low nibble the cursor advances; returns whether it did.
    pub fn edit_nibble(&mut self, nibble_value: u8) -> (r: bool)
        requires
            old(self).wf(),
        ensures
            final(self).wf(),
            (old(self)@.cursor >= old(self)@.working.len() || nibble_value > 15) ==> !r && final(self)@ == old(self)@,
            (old(self)@.cursor < old(self)@.working.len() && nibble_value <= 15) ==> {
                let c = old(self)@.cursor;
                let low = old(self)@.nibble == NibblePosition::Low;
                &&& r == low
                &&& overwrote(
                    old(self)@,
                    final(self)@,
                    c as int,
                    with_nibble(old(self)@.working[c as int], nibble_value, old(self)@.nibble),
                )
                &&& final(self)@ == (EditorView {
                    working: final(self)@.working,
                    undo: final(self)@.undo,
                    redo: final(self)@.redo,
                    modified: final(self)@.modified,
                    edit_generation: final(self)@.edit_generation,
                    nibble: if low {
                        NibblePosition::High
                    } else {
                        NibblePosition::Low
                    },
                    cursor: if low {
                        advanced(c, old(self)@.working.len() as int)
                    } else {
                        c
                    },
                    ..old(self)@
                })
            },
    {
        if self.cursor >= self.working.len() || nibble_value > 15 {
            return false;
        }
        let current = self.working[self.cursor];
        let new_value = match self.nibble {
            NibblePosition::High => {
                let v = (nibble_value << 4) | (current & 0x0F);
                assert(v == (nibble_value * 16 + current % 16) as u8) by (bit_vector)
                    requires
                        nibble_value <= 15,
                        v == (nibble_value << 4) | (current & 0x0F),
                ;
                v
            },
            NibblePosition::Low => {
                let v = (current & 0xF0) | nibble_value;
                assert(v == ((current / 16) * 16 + nibble_value) as u8) by (bit_vector)
                    requires
                        nibble_value <= 15,
                        v == (current & 0xF0) | nibble_value,
                ;
                v
            },
        };
        self.overwrite_at(self.cursor, new_value);
        match self.nibble {
            NibblePosition::High => {
                self.nibble = NibblePosition::Low;
                false
            },
            NibblePosition::Low => {
                self.nibble = NibblePosition::High;
                if self.cursor + 1 < self.working.len() {
                    self.cursor = self.cursor + 1;
                }
                true
            },
        }
    }

    /// Whether the buffer has been modified.
    pub fn is_modified(&self) -> (r: bool)
        ensures
            r == self@.modified,
    {
        self.modified
    }

    /// Replace bytes starting at `offset` (clamped to the buffer end) as one
    /// undoable operation.
    pub fn replace_bytes(&mut self, offset: usize, new_values: &[u8])
        requires
            old(self).wf(),
            offset <= old(self)@.working.len(),
            offset + new_values@.len() <= usize::MAX,
        ensures
            final(self).wf(),
            bytes_replaced(old(self)@, final(self)@, offset, new_values@),
    {
        let len = self.working.len();
        let end = if offset + new_values.len() < len {
            offset + new_values.len()
        } else {
            len
        };
        let actual_len = end - offset;
        if actual_len == 0 {
            return;
        }
        let olds = vstd::slice::slice_subrange(self.working.as_slice(), offset, end);
        let news = vstd::slice::slice_subrange(new_values, 0, actual_len);
        if bytes_eq(olds, news) {
            return;
        }
        let old_values = vstd::slice::slice_to_vec(olds);
        let new_vec = vstd::slice::slice_to_vec(news);
        let op = EditOperation::Range { offset, old_values, new_values: new_vec };
        let ghost e = op@;
        proof {
            assert(fits_before(e, self@.working));
            lemma_record_keeps_chain(self@.undo, e, false, self@.working);
            lemma_record_keeps_chain(self@.undo, e, true, self@.working);
        }
        let new_working = splice_vec(&self.working, offset, actual_len, news);
        self.working = new_working;
        self.history.push(op);
        self.modified = true;
        self.edit_generation = bump(self.edit_generation);
        proof {
            assert(self@.working == apply_step(e, old(self)@.working));
            assert(self@.working.len() == old(self)@.working.len());
            assert(undo_chain_ok(self@.undo, self@.working));
            assert(bytes_replaced(old(self)@, self@, offset, new_values@));
        }
    }

    /// Write `values` at every offset of `offsets`, which come in increasing
    /// order and each leave room for `values`, as one undoable operation that
    /// spans from the first write to the end of the last.
    pub fn replace_all_bytes(&mut self, offsets: &[usize], values: &[u8])
        requires
            old(self).wf(),
            forall|i: int, j: int|
                0 <= i <= j < offsets@.len() ==> #[trigger] offsets@[i] <= #[trigger] offsets@[j],
            forall|i: int|
                0 <= i < offsets@.len() ==> #[trigger] offsets@[i] + values@.len()
                    <= old(self)@.working.len(),
        ensures
            final(self).wf(),
            all_bytes_replaced(old(self)@, final(self)@, offsets@, values@),
    {
        if offsets.len() == 0 || values.len() == 0 {
            return;
        }
        let ghost w = self@.working;
        let ghost v = values@;
        let n: usize = self.working.len();
        let mut buf = copy_bytes(&self.working);
        let mut i: usize = 0;
        while i < offsets.len()
            invariant
                i <= offsets@.len(),
                w == old(self)@.working,
                v == values@,
                forall|a: int|
                    0 <= a < offsets@.len() ==> #[trigger] offsets@[a] + v.len() <= w.len(),
                buf@ == written_at_all(w, offsets@.subrange(0, i as int), v),
                buf@.len() == w.len(),
                w.len() == n,
            decreases offsets@.len() - i,
        {
            let off: usize = offsets[i];
            let ghost prev = buf@;
            let mut j: usize = 0;
            while j < values.len()
                invariant
                    j <= v.len(),
                    v == values@,
                    off + v.len() <= prev.len(),
                    prev.len() == n,
                    buf@ == prev.subrange(0, off as int) + v.subrange(0, j as int) + prev.subrange(
                        off + j,
                        prev.len() as int,
                    ),
                decreases v.len() - j,
            {
                buf.set(off + j, values[j]);
                j += 1;
                assert(buf@ =~= prev.subrange(0, off as int) + v.subrange(0, j as int)
                    + prev.subrange(off + j, prev.len() as int));
            }
            assert(v.subrange(0, v.len() as int) =~= v);
            assert(offsets@.subrange(0, i + 1).drop_last() =~= offsets@.subrange(0, i as int));
            i += 1;
            assert(buf@ =~= splice_bytes(prev, off as int, v.len() as int, v));
        }
        assert(offsets@.subrange(0, offsets@.len() as int) =~= offsets@);
        let first: usize = offsets[0];
        assert(offsets@[offsets@.len() - 1] + values@.len() <= n);
        let end: usize = offsets[offsets.len() - 1] + values.len();
        proof {
            lemma_written_outside(w, offsets@, v, first as int, end as int);
        }
        let segment = vstd::slice::slice_subrange(buf.as_slice(), first, end);
        proof {
            let new = buf@;
            assert(splice_bytes(w, first as int, end - first, segment@) =~= new);
            if w.subrange(first as int, end as int) == new.subrange(first as int, end as int) {
                assert(new =~= w);
            }
        }
        proof {
            assert(segment@.subrange(0, end - first) =~= segment@);
            assert(segment@ == buf@.subrange(first as int, end as int));
            assert(min_int(segment@.len() as int, w.len() - first) == end - first);
        }
        self.replace_bytes(first, segment);
    }

    /// Overwrite the byte at `offset` with `new_value` (no-op when out of bounds
    /// or unchanged).
    pub fn edit_byte(&mut self, offset: usize, new_value: u8)
        requires
            old(self).wf(),
        ensures
            final(self).wf(),
            offset >= old(self)@.working.len() ==> final(self)@ == old(self)@,
            offset < old(self)@.working.len() ==> overwrote(
                old(self)@,
                final(self)@,
                offset as int,
                new_value,
            ) && final(self)@ == (EditorView {
                working: final(self)@.working,
                undo: final(self)@.undo,
                redo: final(self)@.redo,
                modified: final(self)@.modified,
                edit_generation: final(self)@.edit_generation,
                ..old(self)@
            }),
    {
        if offset >= self.working.len() {
            return;
        }
        self.overwrite_at(offset, new_value);
    }

    /// Insert one byte at `offset` (clamped to the buffer end).
    pub fn insert_byte(&mut self, offset: usize, value: u8)
        requires
            old(self).wf(),
        ensures
            final(self).wf(),
            inserted_byte(old(self)@, final(self)@, offset, value),
    {
        let at = if offset < self.working.len() {
            offset
        } else {
            self.working.len()
        };
        proof {
            self.lemma_managers_wf();
        }
        let ghost w0 = self@.working;
        self.working.insert(at, value);
        let op = EditOperation::InsertBytes { offset: at, values: vec![value] };
        let ghost e = op@;
        proof {
            assert(e->Insert_values =~= seq![value]);
            assert(self@.working =~= apply_step(e, w0));
            lemma_record_keeps_chain(old(self)@.undo, e, false, w0);
            lemma_record_keeps_chain(old(self)@.undo, e, true, w0);
        }
        self.history.push(op);
        self.modified = true;
        self.edit_generation = bump(self.edit_generation);
        self.save_points.clear_all();
        self.bookmarks.adjust_offsets_after_insert(at, 1);
        self.length_changed = true;
    }

    /// Insert several bytes at `offset` (clamped to the buffer end); no-op when
    /// `values` is empty.
    pub fn insert_bytes(&mut self, offset: usize, values: &[u8])
        requires
            old(self).wf(),
        ensures
            final(self).wf(),
            values@.len() == 0 ==> final(self)@ == old(self)@,
            values@.len() > 0 ==> {
                let at = min_int(offset as int, old(self)@.working.len() as int);
                &&& recorded(
                    old(self)@,
                    final(self)@,
                    EditStep::Insert { offset: at, values: values@ },
                )
                &&& final(self)@ == (EditorView {
                    working: splice_bytes(old(self)@.working, at, 0, values@),
                    undo: final(self)@.undo,
                    redo: final(self)@.redo,
                    modified: true,
                    edit_generation: next_gen(old(self)@.edit_generation),
                    save_points: Seq::empty(),
                    bookmarks: bookmarks_after_insert(
                        old(self)@.bookmarks,
                        at as usize,
                        values@.len() as usize,
                    ),
                    length_changed: true,
                    ..old(self)@
                })
            },
    {
        if values.len() == 0 {
            return;
        }
        proof {
            self.lemma_managers_wf();
        }
        let at = if offset < self.working.len() {
            offset
        } else {
            self.working.len()
        };
        let ghost w0 = self@.working;
        let new_working = splice_vec(&self.working, at, 0, values);
        self.working = new_working;
        let count = values.len();
        let op = EditOperation::InsertBytes { offset: at, values: vstd::slice::slice_to_vec(values) };
        let ghost e = op@;
        proof {
            lemma_record_keeps_chain(old(self)@.undo, e, false, w0);
            lemma_record_keeps_chain(old(self)@.undo, e, true, w0);
        }
        self.history.push(op);
        self.modified = true;
        self.edit_generation = bump(self.edit_generation);
        self.save_points.clear_all();
        self.bookmarks.adjust_offsets_after_insert(at, count);
        self.length_changed = true;
    }

    /// Delete the byte at `offset`, returning it (`None` when out of bounds).
    pub fn delete_byte(&mut self, offset: usize) -> (r: Option<u8>)
        requires
            old(self).wf(),
        ensures
            final(self).wf(),
            offset >= old(self)@.working.len() ==> r is None && final(self)@ == old(self)@,
            offset < old(self)@.working.len() ==> r == Some(old(self)@.working[offset as int])
                && deleted_byte(old(self)@, final(self)@, offset),
    {
        if offset >= self.working.len() {
            return None;
        }
        proof {
            self.lemma_managers_wf();
        }
        let ghost w0 = self@.working;
        let value = self.working.remove(offset);
        let op = EditOperation::DeleteBytes { offset, values: vec![value] };
        let ghost e = op@;
        proof {
            assert(e->Delete_values =~= seq![value]);
            assert(w0.subrange(offset as int, offset + 1) =~= seq![value]);
            assert(self@.working =~= apply_step(e, w0));
            lemma_record_keeps_chain(self@.undo, e, false, w0);
            lemma_record_keeps_chain(self@.undo, e, true, w0);
        }
        self.history.push(op);
        self.modified = true;
        self.edit_generation = bump(self.edit_generation);
        if self.working.len() > 0 && self.cursor > self.working.len() - 1 {
            self.cursor = self.working.len() - 1;
        }
        self.save_points.clear_all();
        self.bookmarks.adjust_offsets_after_delete(offset, 1);
        self.length_changed = true;
        Some(value)
    }

    /// Undo the last edit operation. Returns whether there was one.
    #[verifier::rlimit(40)]
    pub fn undo(&mut self) -> (r: bool)
        requires
            old(self).wf(),
        ensures
            final(self).wf(),
            r == (old(self)@.undo.len() > 0),
            !r ==> final(self)@ == old(self)@,
            r ==> final(self)@ == undone(old(self)@),
    {
        let ghost v = self@;
        match self.history.undo() {
            Some(op) => {
                let ghost e = op@;
                proof {
                    assert(e == v.undo.last());
                    assert(fits_after(e, v.working));
                    lemma_revert_then_apply(e, v.working);
                }
                match op {
                    EditOperation::Single { offset, old_value, .. } => {
                        self.working.set(offset, old_value);
                    },
                    EditOperation::Range { offset, old_values, .. } => {
                        let new_working = splice_vec(
                            &self.working,
                            offset,
                            old_values.len(),
                            old_values.as_slice(),
                        );
                        self.working = new_working;
                    },
                    EditOperation::InsertBytes { offset, values } => {
                        let count = values.len();
                        let wl = self.working.len();
                        assert(offset + count <= wl);
                        let new_working = splice_vec(&self.working, offset, count, &[]);
                        self.working = new_working;
                        self.bookmarks.adjust_offsets_after_delete(offset, count);
                        self.save_points.clear_all();
                        self.length_changed = true;
                        if self.working.len() > 0 && self.cursor > self.working.len() - 1 {
                            self.cursor = self.working.len() - 1;
                        }
                    },
                    EditOperation::DeleteBytes { offset, values } => {
                        let count = values.len();
                        let new_working = splice_vec(&self.working, offset, 0, values.as_slice());
                        self.working = new_working;
                        self.bookmarks.adjust_offsets_after_insert(offset, count);
                        self.save_points.clear_all();
                        self.length_changed = true;
                    },
                }
                self.modified = !bytes_eq(self.working.as_slice(), self.original.as_slice());
                self.edit_generation = bump(self.edit_generation);
                proof {
                    assert(self@.working =~= revert_step(e, v.working));
                    let rs = v.redo.push(e);
                    assert(rs.last() == e);
                    assert(rs.drop_last() =~= v.redo);
                    assert(self@ == undone(v));
                }
                true
            },
            None => false,
        }
    }

    /// Redo the last undone operation. Returns whether there was one.
    #[verifier::rlimit(40)]
    pub fn redo(&mut self) -> (r: bool)
        requires
            old(self).wf(),
        ensures
            final(self).wf(),
            r == (old(self)@.redo.len() > 0),
            !r ==> final(self)@ == old(self)@,
            r ==> final(self)@ == redone(old(self)@),
    {
        let ghost v = self@;
        match self.history.redo() {
            Some(op) => {
                let ghost e = op@;
                proof {
                    assert(e == v.redo.last());
                    assert(fits_before(e, v.working));
                    lemma_apply_then_revert(e, v.working);
                }
                match op {
                    EditOperation::Single { offset, new_value, .. } => {
                        self.working.set(offset, new_value);
                    },
                    EditOperation::Range { offset, new_values, .. } => {
                        let new_working = splice_vec(
                            &self.working,
                            offset,
                            new_values.len(),
                            new_values.as_slice(),
                        );
                        self.working = new_working;
                    },
                    EditOperation::InsertBytes { offset, values } => {
                        let count = values.len();
                        let new_working = splice_vec(&self.working, offset, 0, values.as_slice());
                        self.working = new_working;
                        self.bookmarks.adjust_offsets_after_insert(offset, count);
                        self.save_points.clear_all();
                        self.length_changed = true;
                    },
                    EditOperation::DeleteBytes { offset, values } => {
                        let count = values.len();
                        let wl = self.working.len();
                        assert(offset + count <= wl);
                        let new_working = splice_vec(&self.working, offset, count, &[]);
                        self.working = new_working;
                        self.bookmarks.adjust_offsets_after_delete(offset, count);
                        self.save_points.clear_all();
                        self.length_changed = true;
                        if self.working.len() > 0 && self.cursor > self.working.len() - 1 {
                            self.cursor = self.working.len() - 1;
                        }
                    },
                }
                self.modified = !bytes_eq(self.working.as_slice(), self.original.as_slice());
                self.edit_generation = bump(self.edit_generation);
                proof {
                    assert(self@.working =~= apply_step(e, v.working));
                    let us = v.undo.push(e);
                    assert(us.last() == e);
                    assert(us.drop_last() =~= v.undo);
                    assert(self@ == redone(v));
                }
                true
            },
            None => false,
        }
    }

    /// Whether undo is available.
    pub fn can_undo(&self) -> (r: bool)
        ensures
            r == (self@.undo.len() > 0),
    {
        self.history.can_undo()
    }

    /// Whether redo is available.
    pub fn can_redo(&self) -> (r: bool)
        ensures
            r == (self@.redo.len() > 0),
    {
        self.history.can_redo()
    }

    /// The working bytes in `[start, end)`, both clamped to the buffer length.
    pub fn bytes_in_range(&self, start: usize, end: usize) -> (r: &[u8])
        requires
            min_int(start as int, self@.working.len() as int) <= min_int(
                end as int,
                self@.working.len() as int,
            ),
        ensures
            r@ == self@.working.subrange(
                min_int(start as int, self@.working.len() as int),
                min_int(end as int, self@.working.len() as int),
            ),
    {
        let len = self.working.len();
        let s = if start < len {
            start
        } else {
            len
        };
        let e = if end < len {
            end
        } else {
            len
        };
        vstd::slice::slice_subrange(self.working.as_slice(), s, e)
    }

    /// Number of bytes in the working buffer.
    pub fn len(&self) -> (r: usize)
        ensures
            r == self@.working.len(),
    {
        self.working.len()
    }

    // ========== Save points ==========

    /// Create a save point capturing the working buffer; returns its identifier.
    pub fn create_save_point(&mut self, name: String) -> (id: u64)
        requires
            old(self).wf(),
            old(self)@.save_point_next_id < u64::MAX,
        ensures
            final(self).wf(),
            id == old(self)@.save_point_next_id,
            forall|i: int|
                0 <= i < old(self)@.save_points.len() ==> #[trigger] old(self)@.save_points[i].id
                    != id,
            final(self)@.save_points == points_after(
                old(self)@.save_points,
                old(self)@.save_point_next_id,
                (SavePointCall::Create { name: name@, snapshot: old(self)@.working }),
            ),
            snapshot_of(final(self)@.save_points, id) == Some(old(self)@.working),
            final(self)@ == (EditorView {
                save_points: old(self)@.save_points.push(
                    SavePointView { id, name: name@, snapshot: old(self)@.working },
                ),
                save_point_next_id: (id + 1) as u64,
                ..old(self)@
            }),
    {
        let ghost nm = name@;
        let id = self.save_points.create(name, self.working.as_slice());
        proof {
            let p = self.save_points.points();
            assert(p =~= old(self)@.save_points.push(
                SavePointView { id, name: nm, snapshot: old(self)@.working },
            ));
            self.lemma_managers_wf();
            lemma_snapshot_at(p, id, p.len() - 1);
        }
        id
    }

    /// All save points, in creation order.
    pub fn save_points(&self) -> (r: &[SavePoint])
        ensures
            r@.map_values(|sp: SavePoint| sp@) == self@.save_points,
    {
        self.save_points.save_points()
    }

    /// Restore the working buffer to save point `id`, as one undoable operation.
    /// Returns whether the save point exists.
    pub fn restore_save_point(&mut self, id: u64) -> (r: bool)
        requires
            old(self).wf(),
        ensures
            final(self).wf(),
            r == (exists|i: int|
                0 <= i < old(self)@.save_points.len() && #[trigger] old(self)@.save_points[i].id
                    == id),
            r == snapshot_of(old(self)@.save_points, id) is Some,
            r ==> final(self)@.working == snapshot_of(old(self)@.save_points, id)->Some_0,
            !r ==> final(self)@ == old(self)@,
            r ==> forall|i: int|
                0 <= i < old(self)@.save_points.len() && #[trigger] old(self)@.save_points[i].id == id
                    ==> {
                    let snap = old(self)@.save_points[i].snapshot;
                    &&& final(self)@ == (EditorView {
                        working: snap,
                        undo: final(self)@.undo,
                        redo: final(self)@.redo,
                        modified: snap != old(self)@.original,
                        edit_generation: next_gen(old(self)@.edit_generation),
                        ..old(self)@
                    })
                    &&& snap == old(self)@.working ==> final(self)@.undo == old(self)@.undo
                        && final(self)@.redo == old(self)@.redo
                    &&& snap != old(self)@.working ==> recorded(
                        old(self)@,
                        final(self)@,
                        EditStep::Range {
                            offset: 0,
                            old_values: old(self)@.working,
                            new_values: snap,
                        },
                    )
                },
    {
        let ghost idx = self.save_points.index_of(id);
        let restored = match self.save_points.restore(id) {
            Some(bytes) => bytes,
            None => {
                return false;
            },
        };
        let ghost w0 = self@.working;
        let mut old_values = restored;
        std::mem::swap(&mut self.working, &mut old_values);
        if !bytes_eq(old_values.as_slice(), self.working.as_slice()) {
            let new_values = copy_bytes(&self.working);
            let op = EditOperation::Range { offset: 0, old_values, new_values };
            let ghost e = op@;
            proof {
                assert(w0.subrange(0, w0.len() as int) =~= w0);
                assert(fits_before(e, w0));
                assert(apply_step(e, w0) =~= self@.working);
                lemma_record_keeps_chain(old(self)@.undo, e, false, w0);
                lemma_record_keeps_chain(old(self)@.undo, e, true, w0);
            }
            self.history.push(op);
        }
        self.modified = !bytes_eq(self.working.as_slice(), self.original.as_slice());
        self.edit_generation = bump(self.edit_generation);
        proof {
            assert(old(self)@.save_points[idx].id == id);
            old(self).lemma_managers_wf();
            lemma_snapshot_at(old(self)@.save_points, id, idx);
            assert forall|i: int|
                0 <= i < old(self)@.save_points.len() && #[trigger] old(self)@.save_points[i].id
                    == id implies i == idx by {
                if i < idx {
                    assert(old(self)@.save_points[i].id != old(self)@.save_points[idx].id);
                } else if i > idx {
                    assert(old(self)@.save_points[idx].id != old(self)@.save_points[i].id);
                }
            }
        }
        true
    }

    /// Rename a save point; returns whether it was found.
    pub fn rename_save_point(&mut self, id: u64, new_name: String) -> (r: bool)
        requires
            old(self).wf(),
        ensures
            final(self).wf(),
            r == (exists|i: int|
                0 <= i < old(self)@.save_points.len() && #[trigger] old(self)@.save_points[i].id
                    == id),
            final(self)@.save_points == points_after(
                old(self)@.save_points,
                old(self)@.save_point_next_id,
                (SavePointCall::Rename { id, name: new_name@ }),
            ),
            final(self)@ == (EditorView {
                save_points: old(self)@.save_points.map_values(
                    |sp: SavePointView|
                        if sp.id == id {
                            SavePointView { name: new_name@, ..sp }
                        } else {
                            sp
                        },
                ),
                ..old(self)@
            }),
    {
        let ghost nn = new_name@;
        let r = self.save_points.rename(id, new_name);
        proof {
            let p = self.save_points.points();
            let q = old(self)@.save_points;
            assert forall|i: int| 0 <= i < q.len() implies #[trigger] p[i] == (if q[i].id == id {
                SavePointView { name: nn, ..q[i] }
            } else {
                q[i]
            }) by {
                assert(p[i].id == q[i].id);
            }
            assert(p =~= q.map_values(
                |sp: SavePointView|
                    if sp.id == id {
                        SavePointView { name: nn, ..sp }
                    } else {
                        sp
                    },
            ));
        }
        r
    }

    /// Whether save point `id` may be deleted: it must be the most recently
    /// created one still present.
    pub fn can_delete_save_point(&self, id: u64) -> (r: bool)
        ensures
            r == (self@.save_points.len() > 0 && self@.save_points.last().id == id),
    {
        let sps = self.save_points.save_points();
        if sps.len() == 0 {
            return false;
        }
        proof {
            assert(sps@.map_values(|sp: SavePoint| sp@)[sps@.len() - 1] == self@.save_points.last());
        }
        sps[sps.len() - 1].id() == id
    }

    /// Delete a save point. Only the most recently created one still present
    /// (a leaf) can be deleted; returns whether it was deleted.
    pub fn delete_save_point(&mut self, id: u64) -> (r: bool)
        requires
            old(self).wf(),
        ensures
            final(self).wf(),
            r == (old(self)@.save_points.len() > 0 && old(self)@.save_points.last().id == id),
            !r ==> final(self)@ == old(self)@,
            r ==> final(self)@ == (EditorView {
                save_points: old(self)@.save_points.drop_last(),
                ..old(self)@
            }),
            r ==> final(self)@.save_points == points_after(
                old(self)@.save_points,
                old(self)@.save_point_next_id,
                (SavePointCall::Delete { id }),
            ),
    {
        if !self.can_delete_save_point(id) {
            return false;
        }
        let ghost q = old(self)@.save_points;
        let ghost last = q.len() - 1;
        proof {
            self.lemma_managers_wf();
            assert(q[last].id == id);
            assert(self.save_points.has_id(id));
            let k = self.save_points.index_of(id);
            assert(self.save_points.points()[k].id == id);
            assert(k == last);
        }
        let r = self.save_points.delete(id);
        proof {
            let p = self.save_points.points();
            assert(p =~= q.remove(last));
            assert(q.remove(last) =~= q.drop_last());
        }
        r
    }

    /// Number of save points.
    pub fn save_point_count(&self) -> (r: usize)
        ensures
            r == self@.save_points.len(),
    {
        self.save_points.len()
    }

    // ========== Bookmarks ==========

    /// Add a bookmark at `offset`; returns its identifier.
    pub fn add_bookmark(&mut self, offset: usize, name: String) -> (id: u64)
        requires
            old(self).wf(),
            old(self)@.bookmark_next_id < u64::MAX,
        ensures
            final(self).wf(),
            id == old(self)@.bookmark_next_id,
            forall|i: int|
                0 <= i < old(self)@.bookmarks.len() ==> #[trigger] old(self)@.bookmarks[i].id != id,
            sorted_by_offset(final(self)@.bookmarks),
            exists|p: int|
                super::bookmarks::is_partition_point(old(self)@.bookmarks, offset, p)
                    && final(self)@ == (EditorView {
                    bookmarks: old(self)@.bookmarks.insert(
                        p,
                        BookmarkView { id, offset, name: name@, annotation: Seq::empty() },
                    ),
                    bookmark_next_id: (id + 1) as u64,
                    ..old(self)@
                }),
    {
        let ghost nm = name@;
        let id = self.bookmarks.add(offset, name);
        proof {
            let q = old(self)@.bookmarks;
            let nb = BookmarkView { id, offset, name: nm, annotation: Seq::empty() };
            let p = choose|p: int|
                is_partition_point(q, offset, p) && self.bookmarks.marks() == q.insert(p, nb);
            assert(self@ == (EditorView {
                bookmarks: q.insert(p, nb),
                bookmark_next_id: (id + 1) as u64,
                ..old(self)@
            }));
        }
        id
    }

    /// Remove a bookmark by identifier; returns whether it was found.
    pub fn remove_bookmark(&mut self, id: u64) -> (r: bool)
        requires
            old(self).wf(),
        ensures
            final(self).wf(),
            r == (exists|i: int|
                0 <= i < old(self)@.bookmarks.len() && #[trigger] old(self)@.bookmarks[i].id == id),
            !r ==> final(self)@ == old(self)@,
            r ==> exists|i: int|
                0 <= i < old(self)@.bookmarks.len() && #[trigger] old(self)@.bookmarks[i].id == id
                    && final(self)@ == (EditorView {
                    bookmarks: old(self)@.bookmarks.remove(i),
                    ..old(self)@
                }),
    {
        let ghost idx = self.bookmarks.index_of(id);
        let r = self.bookmarks.remove(id);
        proof {
            if r {
                assert(old(self)@.bookmarks[idx].id == id);
                assert(self@ == (EditorView {
                    bookmarks: old(self)@.bookmarks.remove(idx),
                    ..old(self)@
                }));
            } else {
                assert(self@ == old(self)@);
            }
        }
        r
    }

    /// The bookmarks.
    pub fn bookmarks(&self) -> (r: &BookmarkManager)
        ensures
            r.marks() == self@.bookmarks,
            r.next_id() == self@.bookmark_next_id,
            self.wf() ==> r.wf(),
    {
        &self.bookmarks
    }

    /// Mutable access to the bookmarks.
    pub fn bookmarks_mut(&mut self) -> (r: &mut BookmarkManager)
        ensures
            r.marks() == old(self)@.bookmarks,
            r.next_id() == old(self)@.bookmark_next_id,
            old(self).wf() ==> r.wf(),
            final(self)@ == (EditorView {
                bookmarks: final(r).marks(),
                bookmark_next_id: final(r).next_id(),
                ..old(self)@
            }),
            (old(self).wf() && final(r).wf()) ==> final(self).wf(),
    {
        &mut self.bookmarks
    }

    /// Whether some bookmark lies at `offset`.
    pub fn has_bookmark_at(&self, offset: usize) -> (r: bool)
        requires
            self.wf(),
        ensures
            r == (exists|i: int|
                0 <= i < self@.bookmarks.len() && #[trigger] self@.bookmarks[i].offset == offset),
    {
        let r = self.bookmarks.has_bookmark(offset);
        proof {
            assert(self@.bookmarks == self.bookmarks.marks());
            if r {
                let i = choose|i: int|
                    0 <= i < self.bookmarks.marks().len() && #[trigger] self.bookmarks.marks()[i].offset
                        == offset;
                assert(self@.bookmarks[i].offset == offset);
            }
        }
        r
    }

    // ========== Cursor ==========

    /// The cursor position.
    pub fn cursor(&self) -> (r: usize)
        ensures
            r == self@.cursor,
    {
        self.cursor
    }

    /// Move the cursor to `pos`, clamped to the last byte; resets the nibble.
    pub fn set_cursor(&mut self, pos: usize)
        requires
            old(self).wf(),
        ensures
            final(self).wf(),
            final(self)@ == (EditorView {
                cursor: min_int(pos as int, last_index(old(self)@.working.len() as int)) as usize,
                nibble: NibblePosition::High,
                ..old(self)@
            }),
    {
        let last = if self.working.len() == 0 {
            0
        } else {
            self.working.len() - 1
        };
        self.cursor = if pos < last {
            pos
        } else {
            last
        };
        self.nibble = NibblePosition::High;
    }

    /// Move the cursor by `offset` bytes (saturating at 0), clamped to the last byte.
    pub fn move_cursor(&mut self, offset: isize)
        requires
            old(self).wf(),
        ensures
            final(self).wf(),
            final(self)@ == (EditorView {
                cursor: min_int(
                    moved(old(self)@.cursor, offset as int),
                    last_index(old(self)@.working.len() as int),
                ) as usize,
                nibble: NibblePosition::High,
                ..old(self)@
            }),
    {
        let new_pos = step_position(self.cursor, offset);
        self.set_cursor(new_pos);
    }

    /// Which nibble is being edited.
    pub fn nibble(&self) -> (r: NibblePosition)
        ensures
            r == self@.nibble,
    {
        self.nibble
    }

    // ========== Selection ==========

    /// The selected range `(start, end)`, end exclusive.
    pub fn selection(&self) -> (r: Option<(usize, usize)>)
        ensures
            r == self@.selection,
    {
        self.selection
    }

    /// Clear the selection and its anchor.
    pub fn clear_selection(&mut self)
        requires
            old(self).wf(),
        ensures
            final(self).wf(),
            final(self)@ == (EditorView { selection: None, selection_anchor: None, ..old(self)@ }),
    {
        self.selection = None;
        self.selection_anchor = None;
    }

    /// Extend the selection from its anchor (or the cursor) to `pos`, clamped to
    /// the last byte; the cursor moves to `pos`.
    pub fn extend_selection_to(&mut self, pos: usize)
        requires
            old(self).wf(),
        ensures
            final(self).wf(),
            ({
                let len = old(self)@.working.len() as int;
                let p = min_int(pos as int, last_index(len));
                let anchor: int = match old(self)@.selection_anchor {
                    Some(a) => a as int,
                    None => old(self)@.cursor as int,
                };
                let (start, end) = if p >= anchor {
                    (anchor, p + 1)
                } else {
                    (p, anchor + 1)
                };
                final(self)@ == (EditorView {
                    selection: Some((start as usize, min_int(end, len) as usize)),
                    selection_anchor: Some(anchor as usize),
                    cursor: p as usize,
                    nibble: NibblePosition::High,
                    ..old(self)@
                })
            }),
    {
        let len = self.working.len();
        let last = if len == 0 {
            0
        } else {
            len - 1
        };
        let pos = if pos < last {
            pos
        } else {
            last
        };
        let anchor = match self.selection_anchor {
            Some(a) => a,
            None => self.cursor,
        };
        let (start, end) = if pos >= anchor {
            (anchor, pos + 1)
        } else {
            (pos, anchor + 1)
        };
        let end = if end < len {
            end
        } else {
            len
        };
        self.selection = Some((start, end));
        self.selection_anchor = Some(anchor);
        self.cursor = pos;
        self.nibble = NibblePosition::High;
    }

    /// Move the cursor by `offset` bytes while extending the selection (the
    /// anchor is set to the cursor when there is none).
    pub fn move_cursor_with_selection(&mut self, offset: isize)
        requires
            old(self).wf(),
        ensures
            final(self).wf(),
            ({
                let len = old(self)@.working.len() as int;
                let c = old(self)@.cursor as int;
                let target: int = if offset < 0 {
                    moved(old(self)@.cursor, offset as int)
                } else {
                    min_int(moved(old(self)@.cursor, offset as int), last_index(len))
                };
                let p = min_int(target, last_index(len));
                let anchor: int = match old(self)@.selection_anchor {
                    Some(a) => a as int,
                    None => c,
                };
                let (start, end) = if p >= anchor {
                    (anchor, p + 1)
                } else {
                    (p, anchor + 1)
                };
                final(self)@ == (EditorView {
                    selection: Some((start as usize, min_int(end, len) as usize)),
                    selection_anchor: Some(anchor as usize),
                    cursor: p as usize,
                    nibble: NibblePosition::High,
                    ..old(self)@
                })
            }),
    {
        if self.selection_anchor.is_none() {
            self.selection_anchor = Some(self.cursor);
        }
        let new_pos = if offset < 0 {
            step_position(self.cursor, offset)
        } else {
            let moved_pos = step_position(self.cursor, offset);
            let last = if self.working.len() == 0 {
                0
            } else {
                self.working.len() - 1
            };
            if moved_pos < last {
                moved_pos
            } else {
                last
            }
        };
        self.extend_selection_to(new_pos);
    }

    /// Move the cursor to `pos`, extending the selection when `extend` is set
    /// and clearing it otherwise.
    pub fn set_cursor_with_selection(&mut self, pos: usize, extend: bool)
        requires
            old(self).wf(),
        ensures
            final(self).wf(),
            !extend ==> final(self)@ == (EditorView {
                selection: None,
                selection_anchor: None,
                cursor: min_int(pos as int, last_index(old(self)@.working.len() as int)) as usize,
                nibble: NibblePosition::High,
                ..old(self)@
            }),
            extend ==> ({
                let len = old(self)@.working.len() as int;
                let p = min_int(pos as int, last_index(len));
                let anchor: int = match old(self)@.selection_anchor {
                    Some(a) => a as int,
                    None => old(self)@.cursor as int,
                };
                let (start, end) = if p >= anchor {
                    (anchor, p + 1)
                } else {
                    (p, anchor + 1)
                };
                final(self)@ == (EditorView {
                    selection: Some((start as usize, min_int(end, len) as usize)),
                    selection_anchor: Some(anchor as usize),
                    cursor: p as usize,
                    nibble: NibblePosition::High,
                    ..old(self)@
                })
            }),
    {
        if extend {
            self.extend_selection_to(pos);
        } else {
            self.clear_selection();
            self.set_cursor(pos);
        }
    }

    // ========== Modes ==========

    /// The current edit mode.
    pub fn edit_mode(&self) -> (r: EditMode)
        ensures
            r == self@.edit_mode,
    {
        self.edit_mode
    }

    /// Set the edit mode; resets the nibble to the high one.
    pub fn set_edit_mode(&mut self, mode: EditMode)
        requires
            old(self).wf(),
        ensures
            final(self).wf(),
            final(self)@ == (EditorView { edit_mode: mode, nibble: NibblePosition::High, ..old(self)@ }),
    {
        self.edit_mode = mode;
        self.nibble = NibblePosition::High;
    }

    /// The current write mode.
    pub fn write_mode(&self) -> (r: WriteMode)
        ensures
            r == self@.write_mode,
    {
        self.write_mode
    }

    /// Toggle between insert and overwrite.
    pub fn toggle_write_mode(&mut self)
        requires
            old(self).wf(),
        ensures
            final(self).wf(),
            final(self)@ == (EditorView {
                write_mode: match old(self)@.write_mode {
                    WriteMode::Overwrite => WriteMode::Insert,
                    WriteMode::Insert => WriteMode::Overwrite,
                },
                ..old(self)@
            }),
    {
        self.write_mode = match self.write_mode {
            WriteMode::Overwrite => WriteMode::Insert,
            WriteMode::Insert => WriteMode::Overwrite,
        };
    }

    /// Type a hex digit respecting the write mode. Overwrite mode behaves as
    /// [`Self::edit_nibble`]; insert mode inserts a new byte on the high nibble
    /// and fills in its low nibble on the second digit, then advances.
    /// Returns whether the cursor advanced to the next byte.
    pub fn edit_nibble_with_mode(&mut self, nibble_value: u8) -> (r: bool)
        requires
            old(self).wf(),
        ensures
            final(self).wf(),
            nibble_value > 15 ==> !r && final(self)@ == old(self)@,
            (nibble_value <= 15 && old(self)@.write_mode == WriteMode::Overwrite) ==> {
                let c = old(self)@.cursor;
                let low = old(self)@.nibble == NibblePosition::Low;
                if c >= old(self)@.working.len() {
                    !r && final(self)@ == old(self)@
                } else {
                    &&& r == low
                    &&& overwrote(
                        old(self)@,
                        final(self)@,
                        c as int,
                        with_nibble(old(self)@.working[c as int], nibble_value, old(self)@.nibble),
                    )
                    &&& final(self)@ == (EditorView {
                        working: final(self)@.working,
                        undo: final(self)@.undo,
                        redo: final(self)@.redo,
                        modified: final(self)@.modified,
                        edit_generation: final(self)@.edit_generation,
                        nibble: if low {
                            NibblePosition::High
                        } else {
                            NibblePosition::Low
                        },
                        cursor: if low {
                            advanced(c, old(self)@.working.len() as int)
                        } else {
                            c
                        },
                        ..old(self)@
                    })
                }
            },
            (nibble_value <= 15 && old(self)@.write_mode == WriteMode::Insert
                && old(self)@.nibble == NibblePosition::High) ==> !r && exists|mid: EditorView|
                inserted_byte(old(self)@, mid, old(self)@.cursor, (nibble_value * 16) as u8)
                    && final(self)@ == (EditorView { nibble: NibblePosition::Low, ..mid }),
            (nibble_value <= 15 && old(self)@.write_mode == WriteMode::Insert
                && old(self)@.nibble == NibblePosition::Low) ==> r && set_low_nibble_inserting(
                old(self)@,
                final(self)@,
                nibble_value,
            ),
    {
        if nibble_value > 15 {
            return false;
        }
        match self.write_mode {
            WriteMode::Overwrite => self.edit_nibble(nibble_value),
            WriteMode::Insert => match self.nibble {
                NibblePosition::High => {
                    let value = nibble_value << 4;
                    assert(value == (nibble_value * 16) as u8) by (bit_vector)
                        requires
                            nibble_value <= 15,
                            value == nibble_value << 4,
                    ;
                    self.insert_byte(self.cursor, value);
                    let ghost mid = self@;
                    self.nibble = NibblePosition::Low;
                    assert(self@ == (EditorView { nibble: NibblePosition::Low, ..mid }));
                    false
                },
                NibblePosition::Low => {
                    if self.cursor < self.working.len() {
                        let current = self.working[self.cursor];
                        let new_value = (current & 0xF0) | nibble_value;
                        assert(new_value == ((current / 16) * 16 + nibble_value) as u8)
                            by (bit_vector)
                            requires
                                nibble_value <= 15,
                                new_value == (current & 0xF0) | nibble_value,
                        ;
                        if current != new_value {
                            let op = EditOperation::Single {
                                offset: self.cursor,
                                old_value: current,
                                new_value,
                            };
                            let ghost e = op@;
                            proof {
                                lemma_record_keeps_chain(self@.undo, e, false, self@.working);
                                lemma_record_keeps_chain(self@.undo, e, true, self@.working);
                            }
                            self.history.push(op);
                            self.working.set(self.cursor, new_value);
                            self.modified = true;
                            self.edit_generation = bump(self.edit_generation);
                            proof {
                                assert(self@.working =~= apply_step(e, old(self)@.working));
                            }
                        } else {
                            assert(self@.working =~= old(self)@.working.update(
                                self.cursor as int,
                                new_value,
                            ));
                        }
                    }
                    self.nibble = NibblePosition::High;
                    if self.cursor + 1 < self.working.len() {
                        self.cursor = self.cursor + 1;
                    }
                    true
                },
            },
        }
    }

    /// Type a printable ASCII character respecting the write mode. Overwrite
    /// mode behaves as [`Self::edit_ascii`]; insert mode inserts the byte at the
    /// cursor and advances. Returns whether the character was accepted.
    pub fn edit_ascii_with_mode(&mut self, ch: char) -> (r: bool)
        requires
            old(self).wf(),
        ensures
            final(self).wf(),
            !(0x20 <= (ch as u32) <= 0x7E) ==> !r && final(self)@ == old(self)@,
            (0x20 <= (ch as u32) <= 0x7E && old(self)@.write_mode == WriteMode::Overwrite) ==> {
                &&& r == (old(self)@.cursor < old(self)@.working.len())
                &&& !r ==> final(self)@ == old(self)@
                &&& r ==> overwrote(old(self)@, final(self)@, old(self)@.cursor as int, ch as u8)
                &&& r ==> final(self)@ == (EditorView {
                    working: final(self)@.working,
                    undo: final(self)@.undo,
                    redo: final(self)@.redo,
                    modified: final(self)@.modified,
                    edit_generation: final(self)@.edit_generation,
                    cursor: advanced(old(self)@.cursor, old(self)@.working.len() as int),
                    ..old(self)@
                })
            },
            (0x20 <= (ch as u32) <= 0x7E && old(self)@.write_mode == WriteMode::Insert) ==> r
                && exists|mid: EditorView|
                inserted_byte(old(self)@, mid, old(self)@.cursor, ch as u8) && final(self)@ == (
                EditorView { cursor: advanced(mid.cursor, mid.working.len() as int), ..mid }),
    {
        if !super::is_printable_ascii_char(ch) {
            return false;
        }
        match self.write_mode {
            WriteMode::Overwrite => self.edit_ascii(ch),
            WriteMode::Insert => {
                let value = ch as u8;
                self.insert_byte(self.cursor, value);
                let ghost mid = self@;
                if self.cursor + 1 < self.working.len() {
                    self.cursor = self.cursor + 1;
                }
                assert(self@ == (EditorView {
                    cursor: advanced(mid.cursor, mid.working.len() as int),
                    ..mid
                }));
                true
            },
        }
    }

    /// Backspace: in overwrite mode move the cursor left; in insert mode move
    /// left and delete the byte there (nothing at the start of the buffer).
    pub fn handle_backspace(&mut self)
        requires
            old(self).wf(),
        ensures
            final(self).wf(),
            old(self)@.write_mode == WriteMode::Overwrite ==> final(self)@ == (EditorView {
                cursor: min_int(
                    moved(old(self)@.cursor, -1),
                    last_index(old(self)@.working.len() as int),
                ) as usize,
                nibble: NibblePosition::High,
                ..old(self)@
            }),
            (old(self)@.write_mode == WriteMode::Insert && old(self)@.cursor == 0) ==> final(self)@ == old(self)@,
            (old(self)@.write_mode == WriteMode::Insert && old(self)@.cursor > 0) ==> {
                let mid = EditorView {
                    cursor: (old(self)@.cursor - 1) as usize,
                    nibble: NibblePosition::High,
                    ..old(self)@
                };
                if mid.cursor < mid.working.len() {
                    deleted_byte(mid, final(self)@, mid.cursor)
                } else {
                    final(self)@ == mid
                }
            },
    {
        match self.write_mode {
            WriteMode::Overwrite => {
                self.move_cursor(-1);
            },
            WriteMode::Insert => {
                if self.cursor > 0 {
                    self.cursor = self.cursor - 1;
                    self.nibble = NibblePosition::High;
                    let _ = self.delete_byte(self.cursor);
                }
            },
        }
    }

    /// Delete key: in insert mode delete the byte under the cursor; no action in
    /// overwrite mode.
    pub fn handle_delete(&mut self)
        requires
            old(self).wf(),
        ensures
            final(self).wf(),
            old(self)@.write_mode == WriteMode::Overwrite ==> final(self)@ == old(self)@,
            old(self)@.write_mode == WriteMode::Insert ==> if old(self)@.cursor < old(self)@.working.len() {
                deleted_byte(old(self)@, final(self)@, old(self)@.cursor)
            } else {
                final(self)@ == old(self)@
            },
    {
        match self.write_mode {
            WriteMode::Insert => {
                let _ = self.delete_byte(self.cursor);
            },
            WriteMode::Overwrite => {},
        }
    }
}

} // verus!
