//! Properties of the editor that relate several operations.

use vstd::prelude::*;
use super::bookmarks::{BookmarkView, sorted_by_offset};
use super::search::{PatternElement, hex_elements, parse_hex_pattern_result, prepend_element};
use crate::text::{spec_digit_value, spec_is_whitespace};
use super::buffer::{
    EditorView,
    all_bytes_replaced,
    lemma_written_outside,
    written_at_all,
    bookmarks_after_delete,
    bookmarks_after_insert,
    history_consistent,
    ids_ok,
    recorded,
    redone,
    undone,
};
use super::savepoints::{
    SavePointCall,
    SavePointView,
    has_point,
    lemma_snapshot_at,
    next_after,
    point_index,
    points_after,
    snapshot_of,
};
use super::history::{
    EditStep,
    apply_step,
    coalesce_step,
    fits_before,
    lemma_apply_then_revert,
    lemma_revert_then_apply,
    record_step,
    revert_step,
    undo_chain_ok,
    redo_chain_ok,
};

verus! {

/// Redoing right after an undo gives back the working buffer and the history
/// that were there before the undo.
pub proof fn law_redo_after_undo(v: EditorView)
    requires
        history_consistent(v),
        v.undo.len() > 0,
    ensures
        redone(undone(v)).working == v.working,
        redone(undone(v)).undo == v.undo,
        redone(undone(v)).redo == v.redo,
        redone(undone(v)).original == v.original,
{
    let e = v.undo.last();
    lemma_revert_then_apply(e, v.working);
    let u = undone(v);
    assert(u.redo.last() == e);
    assert(u.redo.drop_last() =~= v.redo);
    assert(u.undo.push(e) =~= v.undo);
}

/// Undoing right after a redo gives back the working buffer and the history
/// that were there before the redo.
pub proof fn law_undo_after_redo(v: EditorView)
    requires
        history_consistent(v),
        v.redo.len() > 0,
    ensures
        undone(redone(v)).working == v.working,
        undone(redone(v)).undo == v.undo,
        undone(redone(v)).redo == v.redo,
        undone(redone(v)).original == v.original,
{
    let e = v.redo.last();
    lemma_apply_then_revert(e, v.working);
    let r = redone(v);
    assert(r.undo.last() == e);
    assert(r.undo.drop_last() =~= v.undo);
    assert(r.redo.push(e) =~= v.redo);
}

/// An edit that was recorded as a step of its own (not coalesced with the
/// previous one) is reverted exactly by the next undo.
pub proof fn law_undo_reverts_edit(old: EditorView, new: EditorView, e: EditStep)
    requires
        fits_before(e, old.working),
        new.working == apply_step(e, old.working),
        new.undo == record_step(old.undo, e, false),
    ensures
        new.undo.len() > 0,
        undone(new).working == old.working,
{
    lemma_apply_then_revert(e, old.working);
    let pushed = old.undo.push(e);
    if pushed.len() > super::history::MAX_HISTORY_SIZE {
        assert(new.undo.last() == pushed.last());
    }
}

/// Only single-byte edits are coalesced: an insertion, a deletion or a
/// multi-byte replacement (a save point restore among them) is always
/// recorded as a step of its own, so the next undo reverts exactly it.
pub proof fn law_undo_reverts_multi_byte_edit(old: EditorView, new: EditorView, e: EditStep)
    requires
        !(e is Single),
        fits_before(e, old.working),
        new.working == apply_step(e, old.working),
        recorded(old, new, e),
    ensures
        new.undo.len() > 0,
        undone(new).working == old.working,
{
    assert(record_step(old.undo, e, true) == record_step(old.undo, e, false));
    law_undo_reverts_edit(old, new, e);
}

/// Whatever the coalescing decision, the step undone after an edit takes the
/// buffer back to a state from which the edit's result is reached again by redo.
pub proof fn law_edit_then_undo_redo(old: EditorView, new: EditorView, e: EditStep)
    requires
        history_consistent(old),
        fits_before(e, old.working),
        new.working == apply_step(e, old.working),
        recorded(old, new, e),
    ensures
        new.undo.len() > 0,
        redone(undone(new)).working == new.working,
{
    super::history::lemma_record_keeps_chain(old.undo, e, false, old.working);
    super::history::lemma_record_keeps_chain(old.undo, e, true, old.working);
    let pushed = old.undo.push(e);
    if pushed.len() > super::history::MAX_HISTORY_SIZE {
        assert(record_step(old.undo, e, false).len() > 0);
    }
    assert(undo_chain_ok(new.undo, new.working));
    lemma_revert_then_apply(new.undo.last(), new.working);
}

/// Shifting bookmarks for an insertion and then for the deletion of the same
/// bytes gives back the original bookmarks (when no offset saturates).
pub proof fn law_bookmarks_insert_then_delete(m: Seq<BookmarkView>, offset: usize, count: usize)
    requires
        offset + count <= usize::MAX,
        forall|i: int| 0 <= i < m.len() ==> #[trigger] m[i].offset + count <= usize::MAX,
    ensures
        bookmarks_after_delete(bookmarks_after_insert(m, offset, count), offset, count) == m,
    decreases m.len(),
{
    let ins = bookmarks_after_insert(m, offset, count);
    let keep = |b: BookmarkView| super::bookmarks::kept_after_delete(b, offset, count);
    let shift = |b: BookmarkView| super::bookmarks::shifted_after_delete(b, offset, count);
    assert forall|i: int| 0 <= i < ins.len() implies keep(#[trigger] ins[i]) by {}
    lemma_filter_all(ins, keep);
    assert(ins.filter(keep).map_values(shift) =~= m);
}

/// Filtering with a predicate that every element satisfies changes nothing.
proof fn lemma_filter_all(s: Seq<BookmarkView>, p: spec_fn(BookmarkView) -> bool)
    requires
        forall|i: int| 0 <= i < s.len() ==> p(#[trigger] s[i]),
    ensures
        s.filter(p) == s,
    decreases s.len(),
{
    if s.len() > 0 {
        lemma_filter_all(s.drop_last(), p);
        s.drop_last().lemma_filter_push(s.last(), p);
        assert(s.drop_last().push(s.last()) =~= s);
    } else {
        assert(s.filter(p) =~= s) by {
            reveal(Seq::filter);
        }
    }
}

/// Save point identifiers are unique, positive and below `next`.
pub open spec fn fresh_ids(p: Seq<SavePointView>, next: u64) -> bool {
    &&& next >= 1
    &&& forall|i: int| 0 <= i < p.len() ==> 1 <= #[trigger] p[i].id < next
    &&& forall|i: int, j: int| 0 <= i < j < p.len() ==> #[trigger] p[i].id != #[trigger] p[j].id
}

/// The save points after the calls `calls`, in order, starting from `p` with
/// next identifier `next`.
pub open spec fn points_after_calls(p: Seq<SavePointView>, next: u64, calls: Seq<SavePointCall>) -> Seq<
    SavePointView,
>
    decreases calls.len(),
{
    if calls.len() == 0 {
        p
    } else {
        let rest = calls.drop_last();
        points_after(
            points_after_calls(p, next, rest),
            next_after_calls(next, rest),
            calls.last(),
        )
    }
}

/// The next identifier after the calls `calls`, starting from `next`.
pub open spec fn next_after_calls(next: u64, calls: Seq<SavePointCall>) -> u64
    decreases calls.len(),
{
    if calls.len() == 0 {
        next
    } else {
        next_after(next_after_calls(next, calls.drop_last()), calls.last())
    }
}

/// One call keeps identifiers fresh and does not lower the next identifier.
proof fn lemma_call_keeps_fresh(p: Seq<SavePointView>, next: u64, c: SavePointCall)
    requires
        fresh_ids(p, next),
        c is Create ==> next < u64::MAX,
    ensures
        fresh_ids(points_after(p, next, c), next_after(next, c)),
        next_after(next, c) >= next,
        next_after(next, c) <= next + 1,
{
    let q = points_after(p, next, c);
    let n = next_after(next, c);
    match c {
        SavePointCall::Create { name, snapshot } => {
            assert forall|i: int| 0 <= i < q.len() implies 1 <= #[trigger] q[i].id < n by {
                if i < p.len() {
                    assert(q[i] == p[i]);
                }
            }
            assert forall|i: int, j: int| 0 <= i < j < q.len() implies #[trigger] q[i].id
                != #[trigger] q[j].id by {
                assert(q[i] == p[i]);
                if j < p.len() {
                    assert(q[j] == p[j]);
                }
            }
        },
        SavePointCall::Rename { id, name } => {
            assert forall|i: int| 0 <= i < q.len() implies #[trigger] q[i].id == p[i].id by {}
            assert forall|i: int, j: int| 0 <= i < j < q.len() implies #[trigger] q[i].id
                != #[trigger] q[j].id by {
                assert(q[i].id == p[i].id);
                assert(q[j].id == p[j].id);
            }
        },
        SavePointCall::Delete { id } => {
            if has_point(p, id) {
                let k = point_index(p, id);
                assert forall|i: int| 0 <= i < q.len() implies 1 <= #[trigger] q[i].id < n by {
                    if i < k {
                        assert(q[i] == p[i]);
                    } else {
                        assert(q[i] == p[i + 1]);
                    }
                }
                assert forall|i: int, j: int| 0 <= i < j < q.len() implies #[trigger] q[i].id
                    != #[trigger] q[j].id by {
                    let i2 = if i < k { i } else { i + 1 };
                    let j2 = if j < k { j } else { j + 1 };
                    assert(q[i] == p[i2]);
                    assert(q[j] == p[j2]);
                }
            }
        },
        SavePointCall::ClearAll => {},
    }
}

/// One call other than deleting `id` or clearing keeps what `id` restores to,
/// for an identifier already handed out (below `next`).
proof fn lemma_call_keeps_snapshot(p: Seq<SavePointView>, next: u64, c: SavePointCall, id: u64)
    requires
        fresh_ids(p, next),
        c is Create ==> next < u64::MAX,
        id < next,
        c != (SavePointCall::Delete { id }),
        !(c is ClearAll),
    ensures
        snapshot_of(points_after(p, next, c), id) == snapshot_of(p, id),
{
    let q = points_after(p, next, c);
    lemma_call_keeps_fresh(p, next, c);
    if has_point(p, id) {
        let j = point_index(p, id);
        lemma_snapshot_at(p, id, j);
        match c {
            SavePointCall::Create { name, snapshot } => {
                assert(q[j] == p[j]);
                lemma_snapshot_at(q, id, j);
            },
            SavePointCall::Rename { id: r, name } => {
                assert(q[j].id == id && q[j].snapshot == p[j].snapshot);
                lemma_snapshot_at(q, id, j);
            },
            SavePointCall::Delete { id: d } => {
                if has_point(p, d) {
                    let k = point_index(p, d);
                    assert(k != j);
                    let j2 = if j < k { j } else { j - 1 };
                    assert(q[j2] == p[j]);
                    lemma_snapshot_at(q, id, j2);
                } else {
                    lemma_snapshot_at(q, id, j);
                }
            },
            SavePointCall::ClearAll => {},
        }
    } else {
        assert forall|i: int| 0 <= i < q.len() implies #[trigger] q[i].id != id by {
            match c {
                SavePointCall::Create { name, snapshot } => {
                    if i < p.len() {
                        assert(q[i] == p[i]);
                    }
                },
                SavePointCall::Rename { id: r, name } => {
                    assert(q[i].id == p[i].id);
                },
                SavePointCall::Delete { id: d } => {
                    if has_point(p, d) {
                        let k = point_index(p, d);
                        if i < k {
                            assert(q[i] == p[i]);
                        } else {
                            assert(q[i] == p[i + 1]);
                        }
                    }
                },
                SavePointCall::ClearAll => {},
            }
        }
        assert(!has_point(q, id));
    }
}

/// A save point just created restores to the bytes it captured.
pub proof fn law_created_save_point_restores(
    p: Seq<SavePointView>,
    next: u64,
    name: Seq<char>,
    snapshot: Seq<u8>,
)
    requires
        fresh_ids(p, next),
        next < u64::MAX,
    ensures
        snapshot_of(
            points_after(p, next, SavePointCall::Create { name, snapshot }),
            next,
        ) == Some(snapshot),
{
    let c = SavePointCall::Create { name, snapshot };
    lemma_call_keeps_fresh(p, next, c);
    let q = points_after(p, next, c);
    lemma_snapshot_at(q, next, p.len() as int);
}

/// A deleted save point restores to nothing.
pub proof fn law_deleted_save_point_is_gone(p: Seq<SavePointView>, next: u64, id: u64)
    requires
        fresh_ids(p, next),
    ensures
        snapshot_of(points_after(p, next, SavePointCall::Delete { id }), id) is None,
{
    let q = points_after(p, next, SavePointCall::Delete { id });
    if has_point(p, id) {
        let k = point_index(p, id);
        assert forall|i: int| 0 <= i < q.len() implies #[trigger] q[i].id != id by {
            if i < k {
                assert(q[i] == p[i]);
                assert(p[i].id != p[k].id);
            } else {
                assert(q[i] == p[i + 1]);
                assert(p[k].id != p[i + 1].id);
            }
        }
    }
}

/// Whatever creates, renames and deletes of other save points come in between,
/// a save point that was handed out keeps restoring to the same bytes, and one
/// that is gone stays gone; only deleting it or clearing all save points
/// changes what it restores to.
pub proof fn law_save_point_survives_other_calls(
    p: Seq<SavePointView>,
    next: u64,
    calls: Seq<SavePointCall>,
    id: u64,
)
    requires
        fresh_ids(p, next),
        next + calls.len() <= u64::MAX,
        id < next,
        forall|k: int|
            0 <= k < calls.len() ==> #[trigger] calls[k] != (SavePointCall::Delete { id })
                && !(calls[k] is ClearAll),
    ensures
        fresh_ids(points_after_calls(p, next, calls), next_after_calls(next, calls)),
        next <= next_after_calls(next, calls) <= next + calls.len(),
        snapshot_of(points_after_calls(p, next, calls), id) == snapshot_of(p, id),
    decreases calls.len(),
{
    if calls.len() > 0 {
        let rest = calls.drop_last();
        assert forall|k: int| 0 <= k < rest.len() implies #[trigger] rest[k] != (
        SavePointCall::Delete { id }) && !(rest[k] is ClearAll) by {
            assert(rest[k] == calls[k]);
        }
        law_save_point_survives_other_calls(p, next, rest, id);
        let q = points_after_calls(p, next, rest);
        let n = next_after_calls(next, rest);
        let c = calls.last();
        assert(c == calls[calls.len() - 1]);
        lemma_call_keeps_fresh(q, n, c);
        lemma_call_keeps_snapshot(q, n, c, id);
    }
}

/// The save points of a well-formed editor have fresh identifiers, so the
/// laws on sequences of save-point calls apply to them: creating, renaming
/// and deleting (the newest) save point are the calls `Create`, `Rename` and
/// `Delete`, and an edit that changes the buffer's length is `ClearAll`.
pub proof fn law_editor_save_points_are_fresh(v: EditorView)
    requires
        ids_ok(v),
    ensures
        fresh_ids(v.save_points, v.save_point_next_id),
{
}

/// Writing the replacement at many offsets (Replace All) is one undo step: a
/// single undo right after it gives back the buffer as it was.
pub proof fn law_replace_all_is_one_undo_step(
    old: EditorView,
    new: EditorView,
    offsets: Seq<usize>,
    values: Seq<u8>,
)
    requires
        forall|i: int, j: int| 0 <= i <= j < offsets.len() ==> #[trigger] offsets[i] <= #[trigger] offsets[j],
        forall|i: int| 0 <= i < offsets.len() ==> #[trigger] offsets[i] + values.len() <= old.working.len(),
        all_bytes_replaced(old, new, offsets, values),
        new != old,
    ensures
        new.undo.len() > 0,
        undone(new).working == old.working,
{
    let w = old.working;
    let first = offsets[0] as int;
    let end = offsets.last() + values.len();
    let written = written_at_all(w, offsets, values);
    assert forall|i: int| 0 <= i < offsets.len() implies first <= #[trigger] offsets[i] && offsets[i]
        + values.len() <= end by {
        assert(offsets[0] <= offsets[i]);
        assert(offsets[i] <= offsets[offsets.len() - 1]);
    }
    lemma_written_outside(w, offsets, values, first, end);
    let e = EditStep::Range {
        offset: first,
        old_values: w.subrange(first, end),
        new_values: written.subrange(first, end),
    };
    assert(fits_before(e, w));
    assert(apply_step(e, w) =~= written);
    law_undo_reverts_multi_byte_edit(old, new, e);
}

/// Two single-byte edits at neighbouring offsets, the second recorded within
/// the coalescing window, become one undo step: the number of steps stays the
/// same and the newest step writes both bytes, in offset order. An edit of the
/// same byte keeps the first old value and the last new value. Outside the
/// window the edit is a step of its own.
pub proof fn law_adjacent_single_edits_merge(
    steps: Seq<EditStep>,
    o: int,
    first_old: u8,
    first_new: u8,
    old_value: u8,
    new_value: u8,
)
    requires
        steps.len() > 0,
        steps.last() == (EditStep::Single { offset: o, old_value: first_old, new_value: first_new }),
    ensures
        ({
            let r = record_step(
                steps,
                EditStep::Single { offset: o - 1, old_value, new_value },
                true,
            );
            &&& r.len() == steps.len()
            &&& r.drop_last() == steps.drop_last()
            &&& r.last() == (EditStep::Range {
                offset: o - 1,
                old_values: seq![old_value, first_old],
                new_values: seq![new_value, first_new],
            })
        }),
        ({
            let r = record_step(
                steps,
                EditStep::Single { offset: o + 1, old_value, new_value },
                true,
            );
            &&& r.len() == steps.len()
            &&& r.drop_last() == steps.drop_last()
            &&& r.last() == (EditStep::Range {
                offset: o,
                old_values: seq![first_old, old_value],
                new_values: seq![first_new, new_value],
            })
        }),
        ({
            let r = record_step(steps, EditStep::Single { offset: o, old_value, new_value }, true);
            &&& r.len() == steps.len()
            &&& r.drop_last() == steps.drop_last()
            &&& r.last() == (EditStep::Single { offset: o, old_value: first_old, new_value })
        }),
        forall|e: EditStep|
            steps.len() < super::history::MAX_HISTORY_SIZE ==> #[trigger] record_step(steps, e, false)
                == steps.push(e),
{
    let below = EditStep::Single { offset: o - 1, old_value, new_value };
    let above = EditStep::Single { offset: o + 1, old_value, new_value };
    let same = EditStep::Single { offset: o, old_value, new_value };
    assert(steps.drop_last().push(coalesce_step(steps.last(), below).unwrap()).drop_last()
        =~= steps.drop_last());
    assert(steps.drop_last().push(coalesce_step(steps.last(), above).unwrap()).drop_last()
        =~= steps.drop_last());
    assert(steps.drop_last().push(coalesce_step(steps.last(), same).unwrap()).drop_last()
        =~= steps.drop_last());
}

/// Whitespace between the two digits of a hex byte is skipped: `a w b`
/// parses as `a b` whatever follows, and on its own gives the one byte
/// `16 * a + b`.
pub proof fn law_hex_byte_digits_may_be_split_by_whitespace(
    a: char,
    w: char,
    b: char,
    rest: Seq<char>,
)
    requires
        spec_digit_value(a) < 16,
        spec_digit_value(b) < 16,
        spec_is_whitespace(w),
    ensures
        parse_hex_pattern_result(seq![a, w, b] + rest) == parse_hex_pattern_result(
            seq![a, b] + rest,
        ),
        parse_hex_pattern_result(seq![a, w, b]) == Ok::<Seq<PatternElement>, Seq<char>>(
            seq![PatternElement::Byte((spec_digit_value(a) * 16 + spec_digit_value(b)) as u8)],
        ),
{
    let s1 = seq![a, w, b] + rest;
    let s2 = seq![a, b] + rest;
    assert(s1.subrange(3, s1.len() as int) =~= rest);
    assert(s2.subrange(2, s2.len() as int) =~= rest);
    assert(s1[0] == a && s1[1] == w && s1[2] == b);
    assert(s2[0] == a && s2[1] == b);
    assert(hex_elements(s1) == hex_elements(s2));
    let s3 = seq![a, w, b];
    assert(s3.len() == 3 && s3[0] == a && s3[1] == w && s3[2] == b);
    assert(s3.subrange(3, 3) =~= Seq::<char>::empty());
    let byte = PatternElement::Byte((spec_digit_value(a) * 16 + spec_digit_value(b)) as u8);
    assert(hex_elements(s3) == prepend_element(byte, hex_elements(Seq::<char>::empty())));
    assert(hex_elements(Seq::<char>::empty()) == Ok::<Seq<PatternElement>, Seq<char>>(
        Seq::empty(),
    ));
    assert(seq![PatternElement::Byte((spec_digit_value(a) * 16 + spec_digit_value(b)) as u8)]
        + Seq::<PatternElement>::empty() =~= seq![
        PatternElement::Byte((spec_digit_value(a) * 16 + spec_digit_value(b)) as u8),
    ]);
}

/// A single-byte edit neither next to nor on the byte of the newest step is
/// a step of its own, even within the coalescing window; so is any edit that
/// is not a single-byte one. Once the undo stack is full, a new step drops
/// the oldest.
pub proof fn law_other_edits_stand_alone(steps: Seq<EditStep>, o: int, e: EditStep)
    requires
        steps.len() > 0,
        steps.last() matches EditStep::Single { offset, .. } && offset == o,
        e matches EditStep::Single { offset, .. } ==> (offset < o - 1 || offset > o + 1),
    ensures
        record_step(steps, e, true) == record_step(steps, e, false),
        steps.len() < super::history::MAX_HISTORY_SIZE ==> record_step(steps, e, true)
            == steps.push(e),
        steps.len() == super::history::MAX_HISTORY_SIZE ==> record_step(steps, e, true)
            == steps.drop_first().push(e),
{
    if steps.len() == super::history::MAX_HISTORY_SIZE {
        let p = steps.push(e);
        assert(p.subrange(p.len() - super::history::MAX_HISTORY_SIZE, p.len() as int)
            =~= steps.drop_first().push(e));
    }
}

/// A single-byte edit right after, or right before, the bytes of the newest
/// multi-byte step, within the coalescing window, extends that step.
pub proof fn law_range_grows_by_adjacent_edit(
    steps: Seq<EditStep>,
    ro: int,
    old_values: Seq<u8>,
    new_values: Seq<u8>,
    old_value: u8,
    new_value: u8,
)
    requires
        steps.len() > 0,
        steps.last() == (EditStep::Range { offset: ro, old_values, new_values }),
    ensures
        ({
            let r = record_step(
                steps,
                EditStep::Single { offset: ro + old_values.len(), old_value, new_value },
                true,
            );
            &&& r.len() == steps.len()
            &&& r.drop_last() == steps.drop_last()
            &&& r.last() == (EditStep::Range {
                offset: ro,
                old_values: old_values.push(old_value),
                new_values: new_values.push(new_value),
            })
        }),
        ({
            let r = record_step(steps, EditStep::Single { offset: ro - 1, old_value, new_value }, true);
            &&& r.len() == steps.len()
            &&& r.drop_last() == steps.drop_last()
            &&& r.last() == (EditStep::Range {
                offset: ro - 1,
                old_values: seq![old_value] + old_values,
                new_values: seq![new_value] + new_values,
            })
        }),
{
    let after = EditStep::Single { offset: ro + old_values.len(), old_value, new_value };
    let before = EditStep::Single { offset: ro - 1, old_value, new_value };
    assert(steps.drop_last().push(coalesce_step(steps.last(), after).unwrap()).drop_last()
        =~= steps.drop_last());
    assert(steps.drop_last().push(coalesce_step(steps.last(), before).unwrap()).drop_last()
        =~= steps.drop_last());
}

/// How a hex pattern is built up: two hex digits in front of a pattern add
/// the byte they spell; `??` or a lone `?` adds a wildcard; whitespace in
/// front changes nothing; any other character is refused by name.
pub proof fn law_hex_pattern_grows_from_the_front(
    a: char,
    b: char,
    w: char,
    c: char,
    rest: Seq<char>,
    p: Seq<PatternElement>,
)
    requires
        parse_hex_pattern_result(rest) == Ok::<Seq<PatternElement>, Seq<char>>(p),
    ensures
        (spec_digit_value(a) < 16 && spec_digit_value(b) < 16) ==> parse_hex_pattern_result(
            seq![a, b] + rest,
        ) == Ok::<Seq<PatternElement>, Seq<char>>(
            seq![PatternElement::Byte((spec_digit_value(a) * 16 + spec_digit_value(b)) as u8)] + p,
        ),
        parse_hex_pattern_result(seq!['?', '?'] + rest) == Ok::<Seq<PatternElement>, Seq<char>>(
            seq![PatternElement::Wildcard] + p,
        ),
        rest[0] != '?' ==> parse_hex_pattern_result(seq!['?'] + rest) == Ok::<
            Seq<PatternElement>,
            Seq<char>,
        >(seq![PatternElement::Wildcard] + p),
        spec_is_whitespace(w) ==> parse_hex_pattern_result(seq![w] + rest)
            == parse_hex_pattern_result(rest),
        (!spec_is_whitespace(c) && c != '?' && spec_digit_value(c) >= 16) ==> parse_hex_pattern_result(
            seq![c] + rest,
        ) == Err::<Seq<PatternElement>, Seq<char>>(
            "Invalid character in hex pattern: '"@ + seq![c] + "'"@,
        ),
{
    assert(hex_elements(rest) == Ok::<Seq<PatternElement>, Seq<char>>(p));
    let s1 = seq![a, b] + rest;
    assert(s1.subrange(2, s1.len() as int) =~= rest);
    assert(s1[0] == a && s1[1] == b);
    let s2 = seq!['?', '?'] + rest;
    assert(s2.subrange(2, s2.len() as int) =~= rest);
    assert(s2[0] == '?' && s2[1] == '?');
    let s3 = seq!['?'] + rest;
    assert(s3.drop_first() =~= rest);
    assert(s3[0] == '?');
    if rest.len() > 0 {
        assert(s3[1] == rest[0]);
    }
    let s4 = seq![w] + rest;
    assert(s4.drop_first() =~= rest);
    assert(s4[0] == w);
    let s5 = seq![c] + rest;
    assert(s5[0] == c);
}

} // verus!
