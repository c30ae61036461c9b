//! Undo/redo history management.
//!
//! An edit is recorded as an [`EditOperation`]; its mathematical meaning is an
//! [`EditStep`], which can be applied forwards (redo) or reverted (undo) on a
//! byte sequence. Adjacent single-byte edits made in quick succession are
//! coalesced into one step.

use std::collections::VecDeque;
use std::time::{Duration, Instant};
use vstd::prelude::*;

verus! {

/// Maximum number of operations kept in the undo stack.
pub const MAX_HISTORY_SIZE: usize = 1000;

/// Time window (in nanoseconds) within which adjacent single-byte edits are coalesced.
pub const COALESCE_WINDOW_NANOS: u128 = 500_000_000;

#[verifier::external_type_specification]
#[verifier::external_body]
pub struct ExInstant(Instant);

/// Calls `Instant::now`. Nothing is promised of the result: it is the clock's reading.
#[verifier::external_body]
fn instant_now() -> Instant {
    Instant::now()
}

/// Calls `Instant::duration_since`. The result depends on two clock readings,
/// which carry no value Verus can see; nothing is promised of it.
#[verifier::external_body]
fn duration_since(later: &Instant, earlier: &Instant) -> Duration {
    later.duration_since(*earlier)
}

/// Calls `Duration::as_nanos`. The duration is opaque here, so nothing is promised
/// of the number beyond its type.
#[verifier::external_body]
fn duration_as_nanos(d: &Duration) -> u128 {
    d.as_nanos()
}

/// Whether a push `elapsed` nanoseconds after the previous one (`None`: there
/// was no previous push) falls within the coalescing window.
pub open spec fn in_coalesce_window(elapsed: Option<u128>) -> bool {
    elapsed matches Some(n) && n <= COALESCE_WINDOW_NANOS
}

/// Whether a push `elapsed` nanoseconds after the previous one is coalesced
/// with it.
pub fn within_coalesce_window(elapsed: Option<u128>) -> (r: bool)
    ensures
        r == in_coalesce_window(elapsed),
{
    match elapsed {
        Some(n) => n <= COALESCE_WINDOW_NANOS,
        None => false,
    }
}

/// A single edit operation that can be undone and redone.
pub enum EditOperation {
    /// Single byte edit.
    Single { offset: usize, old_value: u8, new_value: u8 },
    /// Edit of a contiguous range of bytes.
    Range { offset: usize, old_values: Vec<u8>, new_values: Vec<u8> },
    /// Bytes inserted at an offset (buffer grows).
    InsertBytes { offset: usize, values: Vec<u8> },
    /// Bytes deleted at an offset (buffer shrinks).
    DeleteBytes { offset: usize, values: Vec<u8> },
}

/// The mathematical content of an [`EditOperation`].
pub ghost enum EditStep {
    Single { offset: int, old_value: u8, new_value: u8 },
    Range { offset: int, old_values: Seq<u8>, new_values: Seq<u8> },
    Insert { offset: int, values: Seq<u8> },
    Delete { offset: int, values: Seq<u8> },
}

impl View for EditOperation {
    type V = EditStep;

    open spec fn view(&self) -> EditStep {
        match self {
            EditOperation::Single { offset, old_value, new_value } => EditStep::Single {
                offset: *offset as int,
                old_value: *old_value,
                new_value: *new_value,
            },
            EditOperation::Range { offset, old_values, new_values } => EditStep::Range {
                offset: *offset as int,
                old_values: old_values@,
                new_values: new_values@,
            },
            EditOperation::InsertBytes { offset, values } => EditStep::Insert {
                offset: *offset as int,
                values: values@,
            },
            EditOperation::DeleteBytes { offset, values } => EditStep::Delete {
                offset: *offset as int,
                values: values@,
            },
        }
    }
}

/// `s` with the bytes `[at, at + old_len)` replaced by `new`.
pub open spec fn splice_bytes(s: Seq<u8>, at: int, old_len: int, new: Seq<u8>) -> Seq<u8> {
    s.subrange(0, at) + new + s.subrange(at + old_len, s.len() as int)
}

/// Whether `s` is a state on which step `e` can be applied (redone).
pub open spec fn fits_before(e: EditStep, s: Seq<u8>) -> bool {
    match e {
        EditStep::Single { offset, old_value, new_value } => 0 <= offset < s.len()
            && s[offset] == old_value,
        EditStep::Range { offset, old_values, new_values } => {
            &&& 0 <= offset
            &&& offset + old_values.len() <= s.len()
            &&& new_values.len() == old_values.len()
            &&& s.subrange(offset, offset + old_values.len()) == old_values
        },
        EditStep::Insert { offset, values } => 0 <= offset <= s.len(),
        EditStep::Delete { offset, values } => {
            &&& 0 <= offset
            &&& offset + values.len() <= s.len()
            &&& s.subrange(offset, offset + values.len()) == values
        },
    }
}

/// Whether `s` is a state on which step `e` can be reverted (undone).
pub open spec fn fits_after(e: EditStep, s: Seq<u8>) -> bool {
    match e {
        EditStep::Single { offset, old_value, new_value } => 0 <= offset < s.len()
            && s[offset] == new_value,
        EditStep::Range { offset, old_values, new_values } => {
            &&& 0 <= offset
            &&& offset + new_values.len() <= s.len()
            &&& new_values.len() == old_values.len()
            &&& s.subrange(offset, offset + new_values.len()) == new_values
        },
        EditStep::Insert { offset, values } => {
            &&& 0 <= offset
            &&& offset + values.len() <= s.len()
            &&& s.subrange(offset, offset + values.len()) == values
        },
        EditStep::Delete { offset, values } => 0 <= offset <= s.len(),
    }
}

/// The state after applying (redoing) `e` on `s`.
pub open spec fn apply_step(e: EditStep, s: Seq<u8>) -> Seq<u8> {
    match e {
        EditStep::Single { offset, old_value, new_value } => s.update(offset, new_value),
        EditStep::Range { offset, old_values, new_values } => splice_bytes(
            s,
            offset,
            new_values.len() as int,
            new_values,
        ),
        EditStep::Insert { offset, values } => splice_bytes(s, offset, 0, values),
        EditStep::Delete { offset, values } => splice_bytes(
            s,
            offset,
            values.len() as int,
            Seq::empty(),
        ),
    }
}

/// The state after reverting (undoing) `e` on `s`.
pub open spec fn revert_step(e: EditStep, s: Seq<u8>) -> Seq<u8> {
    match e {
        EditStep::Single { offset, old_value, new_value } => s.update(offset, old_value),
        EditStep::Range { offset, old_values, new_values } => splice_bytes(
            s,
            offset,
            old_values.len() as int,
            old_values,
        ),
        EditStep::Insert { offset, values } => splice_bytes(
            s,
            offset,
            values.len() as int,
            Seq::empty(),
        ),
        EditStep::Delete { offset, values } => splice_bytes(s, offset, 0, values),
    }
}

/// Reverting a step undoes applying it.
pub proof fn lemma_apply_then_revert(e: EditStep, s: Seq<u8>)
    requires
        fits_before(e, s),
    ensures
        fits_after(e, apply_step(e, s)),
        revert_step(e, apply_step(e, s)) == s,
{
    match e {
        EditStep::Single { offset, old_value, new_value } => {
            assert(revert_step(e, apply_step(e, s)) =~= s);
        },
        EditStep::Range { offset, old_values, new_values } => {
            let t = apply_step(e, s);
            assert(t.subrange(offset, offset + new_values.len()) =~= new_values);
            assert(revert_step(e, t) =~= s);
        },
        EditStep::Insert { offset, values } => {
            let t = apply_step(e, s);
            assert(t.subrange(offset, offset + values.len()) =~= values);
            assert(revert_step(e, t) =~= s);
        },
        EditStep::Delete { offset, values } => {
            assert(revert_step(e, apply_step(e, s)) =~= s);
        },
    }
}

/// Applying a step redoes what reverting it undid.
pub proof fn lemma_revert_then_apply(e: EditStep, s: Seq<u8>)
    requires
        fits_after(e, s),
    ensures
        fits_before(e, revert_step(e, s)),
        apply_step(e, revert_step(e, s)) == s,
{
    match e {
        EditStep::Single { offset, old_value, new_value } => {
            assert(apply_step(e, revert_step(e, s)) =~= s);
        },
        EditStep::Range { offset, old_values, new_values } => {
            let t = revert_step(e, s);
            assert(t.subrange(offset, offset + old_values.len()) =~= old_values);
            assert(apply_step(e, t) =~= s);
        },
        EditStep::Insert { offset, values } => {
            assert(apply_step(e, revert_step(e, s)) =~= s);
        },
        EditStep::Delete { offset, values } => {
            let t = revert_step(e, s);
            assert(t.subrange(offset, offset + values.len()) =~= values);
            assert(apply_step(e, t) =~= s);
        },
    }
}

/// The step that results from coalescing `new` into `existing`, if they coalesce.
pub open spec fn coalesce_step(existing: EditStep, new: EditStep) -> Option<EditStep> {
    match new {
        EditStep::Single { offset: no, old_value: nold, new_value: nnew } => match existing {
            EditStep::Single { offset: eo, old_value: eold, new_value: enew } => {
                if no == eo + 1 {
                    Some(
                        EditStep::Range {
                            offset: eo,
                            old_values: seq![eold, nold],
                            new_values: seq![enew, nnew],
                        },
                    )
                } else if eo == no + 1 {
                    Some(
                        EditStep::Range {
                            offset: no,
                            old_values: seq![nold, eold],
                            new_values: seq![nnew, enew],
                        },
                    )
                } else if eo == no {
                    Some(EditStep::Single { offset: eo, old_value: eold, new_value: nnew })
                } else {
                    None
                }
            },
            EditStep::Range { offset: ro, old_values, new_values } => {
                if no == ro + old_values.len() {
                    Some(
                        EditStep::Range {
                            offset: ro,
                            old_values: old_values.push(nold),
                            new_values: new_values.push(nnew),
                        },
                    )
                } else if no + 1 == ro {
                    Some(
                        EditStep::Range {
                            offset: no,
                            old_values: seq![nold] + old_values,
                            new_values: seq![nnew] + new_values,
                        },
                    )
                } else {
                    None
                }
            },
            _ => None,
        },
        _ => None,
    }
}

/// A coalesced step has the same effect as the two steps it replaces.
pub proof fn lemma_coalesce_sound(existing: EditStep, new: EditStep, s: Seq<u8>)
    requires
        fits_before(existing, s),
        fits_before(new, apply_step(existing, s)),
        coalesce_step(existing, new) is Some,
    ensures
        fits_before(coalesce_step(existing, new).unwrap(), s),
        apply_step(coalesce_step(existing, new).unwrap(), s) == apply_step(
            new,
            apply_step(existing, s),
        ),
{
    let c = coalesce_step(existing, new).unwrap();
    let t = apply_step(existing, s);
    match existing {
        EditStep::Single { offset: eo, old_value: eold, new_value: enew } => {
            if let EditStep::Single { offset: no, old_value: nold, new_value: nnew } = new {
                if no == eo + 1 {
                    assert(s.subrange(eo, eo + 2) =~= seq![eold, nold]);
                    assert(apply_step(c, s) =~= apply_step(new, t));
                } else if eo == no + 1 {
                    assert(s.subrange(no, no + 2) =~= seq![nold, eold]);
                    assert(apply_step(c, s) =~= apply_step(new, t));
                } else {
                    assert(apply_step(c, s) =~= apply_step(new, t));
                }
            }
        },
        EditStep::Range { offset: ro, old_values, new_values } => {
            if let EditStep::Single { offset: no, old_value: nold, new_value: nnew } = new {
                let n = old_values.len() as int;
                assert(t.subrange(ro, ro + n) =~= new_values);
                if no == ro + n {
                    assert(s.subrange(ro, ro + n + 1) =~= old_values.push(nold));
                    assert(apply_step(c, s) =~= apply_step(new, t));
                } else {
                    assert(s.subrange(no, no + 1 + n) =~= seq![nold] + old_values);
                    assert(apply_step(c, s) =~= apply_step(new, t));
                }
            }
        },
        _ => {},
    }
}

/// The undo stack is consistent with state `s`: reverting its steps from the top
/// down is possible at every step.
pub open spec fn undo_chain_ok(steps: Seq<EditStep>, s: Seq<u8>) -> bool
    decreases steps.len(),
{
    if steps.len() == 0 {
        true
    } else {
        fits_after(steps.last(), s) && undo_chain_ok(
            steps.drop_last(),
            revert_step(steps.last(), s),
        )
    }
}

/// The redo stack is consistent with state `s`: applying its steps from the top
/// down is possible at every step.
pub open spec fn redo_chain_ok(steps: Seq<EditStep>, s: Seq<u8>) -> bool
    decreases steps.len(),
{
    if steps.len() == 0 {
        true
    } else {
        fits_before(steps.last(), s) && redo_chain_ok(
            steps.drop_last(),
            apply_step(steps.last(), s),
        )
    }
}

/// Dropping the oldest undo steps keeps the undo stack consistent.
pub proof fn lemma_undo_chain_suffix(steps: Seq<EditStep>, s: Seq<u8>, k: int)
    requires
        undo_chain_ok(steps, s),
        0 <= k <= steps.len(),
    ensures
        undo_chain_ok(steps.subrange(k, steps.len() as int), s),
    decreases steps.len(),
{
    let sub = steps.subrange(k, steps.len() as int);
    if k < steps.len() {
        assert(sub.last() == steps.last());
        assert(sub.drop_last() =~= steps.drop_last().subrange(k, steps.len() - 1));
        lemma_undo_chain_suffix(steps.drop_last(), revert_step(steps.last(), s), k);
    }
}

/// The undo stack after keeping at most [`MAX_HISTORY_SIZE`] newest steps.
pub open spec fn trim_history(steps: Seq<EditStep>) -> Seq<EditStep> {
    if steps.len() > MAX_HISTORY_SIZE {
        steps.subrange(steps.len() - MAX_HISTORY_SIZE, steps.len() as int)
    } else {
        steps
    }
}

/// The undo stack after recording `e`; `within_window` says whether the previous
/// push happened within the coalescing window.
pub open spec fn record_step(steps: Seq<EditStep>, e: EditStep, within_window: bool) -> Seq<
    EditStep,
> {
    if within_window && steps.len() > 0 && coalesce_step(steps.last(), e) is Some {
        steps.drop_last().push(coalesce_step(steps.last(), e).unwrap())
    } else {
        trim_history(steps.push(e))
    }
}

/// Recording a step that fits the current state keeps the undo stack consistent
/// with the state after the step.
pub proof fn lemma_record_keeps_chain(
    steps: Seq<EditStep>,
    e: EditStep,
    within_window: bool,
    s: Seq<u8>,
)
    requires
        undo_chain_ok(steps, s),
        fits_before(e, s),
    ensures
        undo_chain_ok(record_step(steps, e, within_window), apply_step(e, s)),
{
    let t = apply_step(e, s);
    lemma_apply_then_revert(e, s);
    if within_window && steps.len() > 0 && coalesce_step(steps.last(), e) is Some {
        let last = steps.last();
        let c = coalesce_step(last, e).unwrap();
        let s0 = revert_step(last, s);
        lemma_revert_then_apply(last, s);
        lemma_coalesce_sound(last, e, s0);
        lemma_apply_then_revert(c, s0);
        let r = steps.drop_last().push(c);
        assert(r.last() == c);
        assert(r.drop_last() =~= steps.drop_last());
    } else {
        let pushed = steps.push(e);
        assert(pushed.last() == e);
        assert(pushed.drop_last() =~= steps);
        if pushed.len() > MAX_HISTORY_SIZE {
            lemma_undo_chain_suffix(pushed, t, pushed.len() - MAX_HISTORY_SIZE);
        }
    }
}

/// Try to coalesce `new` into `existing`; returns whether they were coalesced.
fn try_coalesce(existing: &mut EditOperation, new: &EditOperation) -> (r: bool)
    ensures
        r == (coalesce_step(old(existing)@, new@) is Some),
        r ==> final(existing)@ == coalesce_step(old(existing)@, new@).unwrap(),
        !r ==> final(existing)@ == old(existing)@,
{
    let (new_offset, new_old, new_new) = match new {
        EditOperation::Single { offset, old_value, new_value } => (*offset, *old_value, *new_value),
        _ => {
            return false;
        },
    };
    match existing {
        EditOperation::Single { offset, old_value, new_value } => {
            let (eo, eold, enew) = (*offset, *old_value, *new_value);
            // new edit right after the existing one
            if new_offset > 0 && new_offset - 1 == eo {
                *existing = EditOperation::Range {
                    offset: eo,
                    old_values: vec![eold, new_old],
                    new_values: vec![enew, new_new],
                };
                return true;
            }
            // new edit right before the existing one
            if eo > 0 && eo - 1 == new_offset {
                *existing = EditOperation::Range {
                    offset: new_offset,
                    old_values: vec![new_old, eold],
                    new_values: vec![new_new, enew],
                };
                return true;
            }
            // re-editing the same byte: keep the original old value
            if eo == new_offset {
                *new_value = new_new;
                return true;
            }
            false
        },
        EditOperation::InsertBytes { .. } | EditOperation::DeleteBytes { .. } => false,
        EditOperation::Range { offset, old_values, new_values } => {
            let ro = *offset;
            // new edit right after the range
            if new_offset >= ro && new_offset - ro == old_values.len() {
                old_values.push(new_old);
                new_values.push(new_new);
                return true;
            }
            // new edit right before the range
            if ro > 0 && ro - 1 == new_offset {
                old_values.insert(0, new_old);
                new_values.insert(0, new_new);
                proof {
                    assert(old_values@ =~= seq![new_old] + old(existing)@->old_values);
                    assert(new_values@ =~= seq![new_new] + old(existing)@->new_values);
                }
                *offset = new_offset;
                return true;
            }
            false
        },
    }
}

/// A copy of a byte vector.
pub fn copy_bytes(v: &Vec<u8>) -> (r: Vec<u8>)
    ensures
        r@ == v@,
{
    let mut r: Vec<u8> = Vec::with_capacity(v.len());
    let mut i: usize = 0;
    while i < v.len()
        invariant
            i <= v.len(),
            r@ == v@.subrange(0, i as int),
        decreases v.len() - i,
    {
        r.push(v[i]);
        i += 1;
        assert(r@ =~= v@.subrange(0, i as int));
    }
    assert(r@ =~= v@);
    r
}

impl EditOperation {
    /// A copy of this operation.
    pub fn duplicate(&self) -> (r: EditOperation)
        ensures
            r@ == self@,
    {
        match self {
            EditOperation::Single { offset, old_value, new_value } => EditOperation::Single {
                offset: *offset,
                old_value: *old_value,
                new_value: *new_value,
            },
            EditOperation::Range { offset, old_values, new_values } => EditOperation::Range {
                offset: *offset,
                old_values: copy_bytes(old_values),
                new_values: copy_bytes(new_values),
            },
            EditOperation::InsertBytes { offset, values } => EditOperation::InsertBytes {
                offset: *offset,
                values: copy_bytes(values),
            },
            EditOperation::DeleteBytes { offset, values } => EditOperation::DeleteBytes {
                offset: *offset,
                values: copy_bytes(values),
            },
        }
    }
}

/// Linear undo/redo history.
pub struct History {
    /// Operations that can be undone (oldest first).
    undo_stack: VecDeque<EditOperation>,
    /// Operations that can be redone (the next one to redo is last).
    redo_stack: Vec<EditOperation>,
    /// When the last operation was pushed (for coalescing).
    pub last_push_time: Option<Instant>,
}

impl History {
    /// The undo stack, oldest step first.
    pub closed spec fn undo_steps(&self) -> Seq<EditStep> {
        self.undo_stack@.map_values(|op: EditOperation| op@)
    }

    /// The redo stack; the next step to redo is last.
    pub closed spec fn redo_steps(&self) -> Seq<EditStep> {
        self.redo_stack@.map_values(|op: EditOperation| op@)
    }

    /// Whether a push time is recorded (some push happened and the time was
    /// not cleared since).
    pub closed spec fn pushed_before(&self) -> bool {
        self.last_push_time is Some
    }

    /// The two stacks together hold at most [`MAX_HISTORY_SIZE`] steps: a push
    /// clears the redo stack and trims the undo stack, and undo and redo move
    /// one step between them.
    pub open spec fn wf(&self) -> bool {
        self.undo_steps().len() + self.redo_steps().len() <= MAX_HISTORY_SIZE
    }

    /// Create a new empty history.
    pub fn new() -> (h: Self)
        ensures
            h.wf(),
            h.undo_steps() == Seq::<EditStep>::empty(),
            h.redo_steps() == Seq::<EditStep>::empty(),
    {
        let h = History { undo_stack: VecDeque::new(), redo_stack: Vec::new(), last_push_time: None };
        assert(h.undo_steps() =~= Seq::<EditStep>::empty());
        assert(h.redo_steps() =~= Seq::<EditStep>::empty());
        h
    }

    /// Record `op`, pushed `elapsed` nanoseconds after the previous push
    /// (`None` when there was none): coalesced with the previous step when
    /// within the window. Clears the redo stack and keeps at most
    /// [`MAX_HISTORY_SIZE`] undo steps.
    pub fn push_elapsed(&mut self, op: EditOperation, elapsed: Option<u128>)
        requires
            old(self).wf(),
        ensures
            final(self).wf(),
            final(self).pushed_before() == old(self).pushed_before(),
            final(self).redo_steps() == Seq::<EditStep>::empty(),
            final(self).undo_steps() == record_step(
                old(self).undo_steps(),
                op@,
                in_coalesce_window(elapsed),
            ),
    {
        let within_window = within_coalesce_window(elapsed);
        self.redo_stack.clear();
        assert(self.redo_steps() =~= Seq::<EditStep>::empty());
        let ghost steps = old(self).undo_steps();
        if within_window {
            match self.undo_stack.pop_back() {
                Some(mut last_op) => {
                    proof {
                        assert(self.undo_stack@ =~= old(self).undo_stack@.drop_last());
                        assert(steps.last() == last_op@);
                        assert(self.undo_steps() =~= steps.drop_last());
                    }
                    let merged = try_coalesce(&mut last_op, &op);
                    self.undo_stack.push_back(last_op);
                    if merged {
                        assert(self.undo_steps() =~= record_step(steps, op@, within_window));
                        return;
                    }
                    assert(self.undo_steps() =~= steps);
                },
                None => {},
            }
        }
        let ghost pushed = steps.push(op@);
        self.undo_stack.push_back(op);
        assert(self.undo_steps() =~= pushed);
        while self.undo_stack.len() > MAX_HISTORY_SIZE
            invariant
                0 <= pushed.len() - self.undo_steps().len(),
                self.undo_steps() == pushed.subrange(
                    pushed.len() - self.undo_steps().len(),
                    pushed.len() as int,
                ),
                self.undo_steps().len() >= if pushed.len() < MAX_HISTORY_SIZE {
                    pushed.len() as int
                } else {
                    MAX_HISTORY_SIZE as int
                },
                self.redo_steps() == Seq::<EditStep>::empty(),
                self.pushed_before() == old(self).pushed_before(),
            decreases self.undo_stack@.len(),
        {
            let ghost before = self.undo_steps();
            let _ = self.undo_stack.pop_front();
            assert(self.undo_steps() =~= before.subrange(1, before.len() as int));
            assert(self.undo_steps() =~= pushed.subrange(
                pushed.len() - self.undo_steps().len(),
                pushed.len() as int,
            ));
        }
        assert(self.undo_steps() =~= trim_history(pushed));
    }

    /// Push a new operation, clearing the redo stack. The operation is coalesced
    /// with the previous one when both are adjacent single-byte edits pushed within
    /// 500 ms of each other.
    ///
    /// The time since the previous push is read from the clock and handed to
    /// [`Self::push_elapsed`]; with no previous push the step stands alone.
    pub fn push(&mut self, op: EditOperation)
        requires
            old(self).wf(),
        ensures
            final(self).wf(),
            final(self).pushed_before(),
            final(self).redo_steps() == Seq::<EditStep>::empty(),
            exists|elapsed: Option<u128>|
                (elapsed is None <==> !old(self).pushed_before())
                    && final(self).undo_steps() == record_step(
                    old(self).undo_steps(),
                    op@,
                    in_coalesce_window(elapsed),
                ),
    {
        let now = instant_now();
        let elapsed = match &self.last_push_time {
            Some(last) => Some(duration_as_nanos(&duration_since(&now, last))),
            None => None,
        };
        self.push_elapsed(op, elapsed);
        self.last_push_time = Some(now);
    }

    /// Undo the last operation, returning it for application.
    pub fn undo(&mut self) -> (r: Option<EditOperation>)
        requires
            old(self).wf(),
        ensures
            final(self).wf(),
            old(self).undo_steps().len() == 0 ==> r is None && final(self).undo_steps() == old(self).undo_steps() && final(self).redo_steps() == old(self).redo_steps(),
            old(self).undo_steps().len() > 0 ==> r is Some && r.unwrap()@ == old(self).undo_steps().last() && final(self).undo_steps() == old(self).undo_steps().drop_last() && final(self).redo_steps() == old(self).redo_steps().push(
                old(self).undo_steps().last(),
            ),
    {
        match self.undo_stack.pop_back() {
            Some(op) => {
                self.redo_stack.push(op.duplicate());
                assert(self.undo_steps() =~= old(self).undo_steps().drop_last());
                assert(self.redo_steps() =~= old(self).redo_steps().push(op@));
                Some(op)
            },
            None => None,
        }
    }

    /// Redo the last undone operation, returning it for application.
    pub fn redo(&mut self) -> (r: Option<EditOperation>)
        requires
            old(self).wf(),
        ensures
            final(self).wf(),
            old(self).redo_steps().len() == 0 ==> r is None && final(self).undo_steps() == old(self).undo_steps() && final(self).redo_steps() == old(self).redo_steps(),
            old(self).redo_steps().len() > 0 ==> r is Some && r.unwrap()@ == old(self).redo_steps().last() && final(self).redo_steps() == old(self).redo_steps().drop_last() && final(self).undo_steps() == old(self).undo_steps().push(
                old(self).redo_steps().last(),
            ),
    {
        match self.redo_stack.pop() {
            Some(op) => {
                self.undo_stack.push_back(op.duplicate());
                assert(self.redo_steps() =~= old(self).redo_steps().drop_last());
                assert(self.undo_steps() =~= old(self).undo_steps().push(op@));
                Some(op)
            },
            None => None,
        }
    }

    /// Whether undo is available.
    pub fn can_undo(&self) -> (r: bool)
        ensures
            r == (self.undo_steps().len() > 0),
    {
        self.undo_stack.len() > 0
    }

    /// Whether redo is available.
    pub fn can_redo(&self) -> (r: bool)
        ensures
            r == (self.redo_steps().len() > 0),
    {
        self.redo_stack.len() > 0
    }

    /// Number of operations in the undo stack.
    pub fn undo_count(&self) -> (r: usize)
        ensures
            r == self.undo_steps().len(),
    {
        self.undo_stack.len()
    }

    /// Number of operations in the redo stack.
    pub fn redo_count(&self) -> (r: usize)
        ensures
            r == self.redo_steps().len(),
    {
        self.redo_stack.len()
    }

    /// Clear all history.
    pub fn clear(&mut self)
        ensures
            final(self).wf(),
            final(self).undo_steps() == Seq::<EditStep>::empty(),
            final(self).redo_steps() == Seq::<EditStep>::empty(),
    {
        self.undo_stack.clear();
        self.redo_stack.clear();
        assert(self.undo_steps() =~= Seq::<EditStep>::empty());
        assert(self.redo_steps() =~= Seq::<EditStep>::empty());
    }
}

} // verus!
