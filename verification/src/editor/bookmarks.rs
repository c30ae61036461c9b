//! Bookmarks and annotations for the hex editor.

use std::collections::HashMap;
use vstd::prelude::*;

verus! {

/// A bookmark marking a specific offset in the file, with an optional annotation.
pub struct Bookmark {
    /// Unique identifier for this bookmark.
    pub id: u64,
    /// Byte offset in the file.
    pub offset: usize,
    /// User-defined name for the bookmark.
    pub name: String,
    /// Annotation/note about this location (empty when none).
    pub annotation: String,
}

/// The content of a bookmark.
pub ghost struct BookmarkView {
    pub id: u64,
    pub offset: usize,
    pub name: Seq<char>,
    pub annotation: Seq<char>,
}

impl View for Bookmark {
    type V = BookmarkView;

    open spec fn view(&self) -> BookmarkView {
        BookmarkView {
            id: self.id,
            offset: self.offset,
            name: self.name@,
            annotation: self.annotation@,
        }
    }
}

impl Bookmark {
    /// Create a bookmark at `offset` with an empty annotation.
    pub fn new(id: u64, offset: usize, name: String) -> (r: Self)
        ensures
            r@ == (BookmarkView { id, offset, name: name@, annotation: Seq::empty() }),
    {
        Bookmark { id, offset, name, annotation: String::new() }
    }
}

/// Whether a bookmark survives deleting `count` bytes at `offset`.
pub open spec fn kept_after_delete(b: BookmarkView, offset: usize, count: usize) -> bool {
    b.offset < offset || b.offset >= offset + count
}

/// A surviving bookmark after deleting `count` bytes at `offset`.
pub open spec fn shifted_after_delete(b: BookmarkView, offset: usize, count: usize) -> BookmarkView {
    if b.offset >= offset + count {
        BookmarkView { offset: (b.offset - count) as usize, ..b }
    } else {
        b
    }
}

/// A bookmark after inserting `count` bytes at `offset` (offsets saturate at `usize::MAX`).
pub open spec fn shifted_after_insert(b: BookmarkView, offset: usize, count: usize) -> BookmarkView {
    if b.offset >= offset {
        BookmarkView {
            offset: if b.offset + count > usize::MAX {
                usize::MAX
            } else {
                (b.offset + count) as usize
            },
            ..b
        }
    } else {
        b
    }
}

/// Bookmarks sorted by offset.
pub open spec fn sorted_by_offset(m: Seq<BookmarkView>) -> bool {
    forall|i: int, j: int| 0 <= i <= j < m.len() ==> #[trigger] m[i].offset <= #[trigger] m[j].offset
}

/// Whether `p` is the first position in `m` whose offset is at least `offset`.
pub open spec fn is_partition_point(m: Seq<BookmarkView>, offset: usize, p: int) -> bool {
    &&& 0 <= p <= m.len()
    &&& forall|k: int| 0 <= k < p ==> #[trigger] m[k].offset < offset
    &&& forall|k: int| p <= k < m.len() ==> #[trigger] m[k].offset >= offset
}

/// Manager for the bookmarks of the current file, kept sorted by offset.
pub struct BookmarkManager {
    bookmarks: Vec<Bookmark>,
    /// Position of each bookmark in `bookmarks`, by identifier.
    id_to_index: HashMap<u64, usize>,
    next_id: u64,
}

impl BookmarkManager {
    /// All bookmarks, sorted by offset.
    pub closed spec fn marks(&self) -> Seq<BookmarkView> {
        self.bookmarks@.map_values(|b: Bookmark| b@)
    }

    /// The identifier the next bookmark will get.
    pub closed spec fn next_id(&self) -> u64 {
        self.next_id
    }

    /// The identifier index holds exactly the identifiers of the list, each
    /// with its position.
    pub closed spec fn index_ok(&self) -> bool {
        &&& forall|id: u64| #[trigger]
            self.id_to_index@.contains_key(id) ==> self.id_to_index@[id] < self.bookmarks@.len()
                && self.bookmarks@[self.id_to_index@[id] as int].id == id
        &&& forall|i: int|
            0 <= i < self.bookmarks@.len() ==> self.id_to_index@.contains_key(
                #[trigger] self.bookmarks@[i].id,
            )
    }

    /// Sorted by offset, with unique identifiers below the next identifier;
    /// the index by identifier agrees with the list.
    pub open spec fn wf(&self) -> bool {
        &&& self.index_ok()
        &&& sorted_by_offset(self.marks())
        &&& forall|i: int| 0 <= i < self.marks().len() ==> #[trigger] self.marks()[i].id < self.next_id()
        &&& forall|i: int, j: int|
            0 <= i < j < self.marks().len() ==> #[trigger] self.marks()[i].id
                != #[trigger] self.marks()[j].id
    }

    /// Whether a bookmark with identifier `id` exists.
    pub open spec fn has_id(&self, id: u64) -> bool {
        exists|i: int| 0 <= i < self.marks().len() && #[trigger] self.marks()[i].id == id
    }

    /// The position of the bookmark with identifier `id`.
    pub open spec fn index_of(&self, id: u64) -> int {
        choose|i: int| 0 <= i < self.marks().len() && #[trigger] self.marks()[i].id == id
    }

    /// Whether some bookmark lies at `offset`.
    pub open spec fn has_offset(&self, offset: usize) -> bool {
        exists|i: int| 0 <= i < self.marks().len() && #[trigger] self.marks()[i].offset == offset
    }

    /// Create an empty bookmark manager.
    pub fn new() -> (r: Self)
        ensures
            r.wf(),
            r.marks() == Seq::<BookmarkView>::empty(),
            r.next_id() == 0,
    {
        let r = BookmarkManager { bookmarks: Vec::new(), id_to_index: HashMap::new(), next_id: 0 };
        assert(r.marks() =~= Seq::<BookmarkView>::empty());
        r
    }

    /// First position whose bookmark offset is at least `offset`.
    fn partition_point(&self, offset: usize) -> (p: usize)
        requires
            self.wf(),
        ensures
            is_partition_point(self.marks(), offset, p as int),
    {
        let mut i: usize = 0;
        while i < self.bookmarks.len() && self.bookmarks[i].offset < offset
            invariant
                i <= self.marks().len(),
                forall|k: int| 0 <= k < i ==> #[trigger] self.marks()[k].offset < offset,
            decreases self.bookmarks.len() - i,
        {
            i += 1;
        }
        proof {
            let m = self.marks();
            assert forall|k: int| i <= k < m.len() implies #[trigger] m[k].offset >= offset by {
                assert(m[i as int].offset >= offset);
                assert(m[i as int].offset <= m[k].offset);
            }
        }
        i
    }

    fn find(&self, id: u64) -> (r: Option<usize>)
        requires
            self.index_ok(),
        ensures
            match r {
                Some(i) => i < self.marks().len() && self.marks()[i as int].id == id,
                None => !self.has_id(id),
            },
    {
        match self.id_to_index.get(&id) {
            Some(i) => Some(*i),
            None => {
                proof {
                    assert forall|k: int| 0 <= k < self.marks().len() implies #[trigger] self.marks()[k].id
                        != id by {
                        assert(self.id_to_index@.contains_key(self.bookmarks@[k].id));
                    }
                }
                None
            },
        }
    }

    /// Rebuild the index by identifier from the list.
    fn rebuild_index(&mut self)
        ensures
            final(self).index_ok(),
            final(self).bookmarks == old(self).bookmarks,
            final(self).next_id == old(self).next_id,
    {
        self.id_to_index.clear();
        let mut k: usize = 0;
        while k < self.bookmarks.len()
            invariant
                k <= self.bookmarks@.len(),
                self.bookmarks == old(self).bookmarks,
                self.next_id == old(self).next_id,
                forall|id: u64| #[trigger]
                    self.id_to_index@.contains_key(id) ==> self.id_to_index@[id] < k
                        && self.bookmarks@[self.id_to_index@[id] as int].id == id,
                forall|i: int|
                    0 <= i < k ==> self.id_to_index@.contains_key(#[trigger] self.bookmarks@[i].id),
            decreases self.bookmarks@.len() - k,
        {
            let id: u64 = self.bookmarks[k].id;
            self.id_to_index.insert(id, k);
            k += 1;
        }
    }

    /// Add a bookmark at `offset`, keeping the list sorted; returns its identifier.
    pub fn add(&mut self, offset: usize, name: String) -> (id: u64)
        requires
            old(self).wf(),
            old(self).next_id() < u64::MAX,
        ensures
            final(self).wf(),
            id == old(self).next_id(),
            final(self).next_id() == old(self).next_id() + 1,
            exists|p: int|
                is_partition_point(old(self).marks(), offset, p) && final(self).marks() == old(self).marks().insert(
                    p,
                    BookmarkView { id, offset, name: name@, annotation: Seq::empty() },
                ),
    {
        let id = self.next_id;
        let pos = self.partition_point(offset);
        self.next_id = self.next_id + 1;
        let bookmark = Bookmark::new(id, offset, name);
        self.bookmarks.insert(pos, bookmark);
        self.rebuild_index();
        proof {
            let m = self.marks();
            let q = old(self).marks();
            let nb = BookmarkView { id, offset, name: name@, annotation: Seq::<char>::empty() };
            assert(m =~= q.insert(pos as int, nb));
            assert forall|i: int, j: int| 0 <= i <= j < m.len() implies #[trigger] m[i].offset
                <= #[trigger] m[j].offset by {
                let i2 = if i < pos { i } else { i - 1 };
                let j2 = if j < pos { j } else { j - 1 };
                if i != pos as int && j != pos as int {
                    assert(m[i] == q[i2]);
                    assert(m[j] == q[j2]);
                } else if i == pos as int && j != pos as int {
                    assert(m[j] == q[j2]);
                } else if j == pos as int && i != pos as int {
                    assert(m[i] == q[i2]);
                }
            }
            assert forall|i: int| 0 <= i < m.len() implies #[trigger] m[i].id < self.next_id() by {
                if i < pos {
                    assert(m[i] == q[i]);
                } else if i > pos {
                    assert(m[i] == q[i - 1]);
                }
            }
            assert forall|i: int, j: int| 0 <= i < j < m.len() implies #[trigger] m[i].id
                != #[trigger] m[j].id by {
                let i2 = if i < pos { i } else { i - 1 };
                let j2 = if j < pos { j } else { j - 1 };
                if i != pos as int {
                    assert(m[i] == q[i2]);
                }
                if j != pos as int {
                    assert(m[j] == q[j2]);
                }
            }
        }
        id
    }

    /// Remove a bookmark by identifier; returns whether it was found.
    pub fn remove(&mut self, id: u64) -> (r: bool)
        requires
            old(self).wf(),
        ensures
            final(self).wf(),
            r == old(self).has_id(id),
            final(self).next_id() == old(self).next_id(),
            r ==> final(self).marks() == old(self).marks().remove(old(self).index_of(id)),
            !r ==> final(self).marks() == old(self).marks(),
    {
        match self.find(id) {
            Some(i) => {
                proof {
                    assert(old(self).marks()[old(self).index_of(id)].id == id);
                }
                let _ = self.bookmarks.remove(i);
                self.rebuild_index();
                proof {
                    let m = self.marks();
                    let q = old(self).marks();
                    assert(m =~= q.remove(i as int));
                    assert forall|a: int, b: int| 0 <= a <= b < m.len() implies #[trigger] m[a].offset
                        <= #[trigger] m[b].offset by {
                        let a2 = if a < i { a } else { a + 1 };
                        let b2 = if b < i { b } else { b + 1 };
                        assert(m[a] == q[a2]);
                        assert(m[b] == q[b2]);
                    }
                    assert forall|a: int| 0 <= a < m.len() implies #[trigger] m[a].id
                        < self.next_id() by {
                        let a2 = if a < i { a } else { a + 1 };
                        assert(m[a] == q[a2]);
                    }
                    assert forall|a: int, b: int| 0 <= a < b < m.len() implies #[trigger] m[a].id
                        != #[trigger] m[b].id by {
                        let a2 = if a < i { a } else { a + 1 };
                        let b2 = if b < i { b } else { b + 1 };
                        assert(m[a] == q[a2]);
                        assert(m[b] == q[b2]);
                    }
                }
                true
            },
            None => false,
        }
    }

    /// Mutable access to a bookmark by identifier.
    pub fn get_mut(&mut self, id: u64) -> (r: Option<&mut Bookmark>)
        requires
            old(self).wf(),
        ensures
            r is Some == old(self).has_id(id),
            r is None ==> *final(self) == *old(self),
            r is Some ==> (*r.unwrap())@ == old(self).marks()[old(self).index_of(id)],
            r is Some ==> final(self).marks() == old(self).marks().update(
                old(self).index_of(id),
                (*final(r.unwrap()))@,
            ) && final(self).next_id() == old(self).next_id(),
    {
        match self.find(id) {
            Some(i) => {
                proof {
                    assert(old(self).marks()[old(self).index_of(id)].id == id);
                }
                Some(&mut self.bookmarks[i])
            },
            None => None,
        }
    }

    /// All bookmarks, sorted by offset.
    pub fn all(&self) -> (r: &[Bookmark])
        ensures
            r@.map_values(|b: Bookmark| b@) == self.marks(),
    {
        self.bookmarks.as_slice()
    }

    /// Rename a bookmark; returns whether it was found.
    pub fn rename(&mut self, id: u64, new_name: String) -> (r: bool)
        requires
            old(self).wf(),
        ensures
            final(self).wf(),
            r == old(self).has_id(id),
            final(self).next_id() == old(self).next_id(),
            r ==> final(self).marks() == old(self).marks().update(
                old(self).index_of(id),
                BookmarkView { name: new_name@, ..old(self).marks()[old(self).index_of(id)] },
            ),
            !r ==> final(self).marks() == old(self).marks(),
    {
        match self.find(id) {
            Some(i) => {
                proof {
                    assert(old(self).marks()[old(self).index_of(id)].id == id);
                }
                let mut b = self.bookmarks.remove(i);
                b.name = new_name;
                self.bookmarks.insert(i, b);
                proof {
                    let m = self.marks();
                    let q = old(self).marks();
                    assert(m =~= q.update(i as int, BookmarkView { name: new_name@, ..q[i as int] }));
                    assert forall|a: int, c: int| 0 <= a <= c < m.len() implies #[trigger] m[a].offset
                        <= #[trigger] m[c].offset by {
                        assert(m[a].offset == q[a].offset);
                        assert(m[c].offset == q[c].offset);
                    }
                    assert forall|a: int| 0 <= a < m.len() implies #[trigger] m[a].id
                        < self.next_id() by {
                        assert(m[a].id == q[a].id);
                    }
                    assert forall|a: int, c: int| 0 <= a < c < m.len() implies #[trigger] m[a].id
                        != #[trigger] m[c].id by {
                        assert(m[a].id == q[a].id);
                        assert(m[c].id == q[c].id);
                    }
                }
                true
            },
            None => false,
        }
    }

    /// Set the annotation of a bookmark; returns whether it was found.
    pub fn set_annotation(&mut self, id: u64, annotation: String) -> (r: bool)
        requires
            old(self).wf(),
        ensures
            final(self).wf(),
            r == old(self).has_id(id),
            final(self).next_id() == old(self).next_id(),
            r ==> final(self).marks() == old(self).marks().update(
                old(self).index_of(id),
                BookmarkView { annotation: annotation@, ..old(self).marks()[old(self).index_of(id)] },
            ),
            !r ==> final(self).marks() == old(self).marks(),
    {
        match self.find(id) {
            Some(i) => {
                proof {
                    assert(old(self).marks()[old(self).index_of(id)].id == id);
                }
                let mut b = self.bookmarks.remove(i);
                b.annotation = annotation;
                self.bookmarks.insert(i, b);
                proof {
                    let m = self.marks();
                    let q = old(self).marks();
                    assert(m =~= q.update(
                        i as int,
                        BookmarkView { annotation: annotation@, ..q[i as int] },
                    ));
                    assert forall|a: int, c: int| 0 <= a <= c < m.len() implies #[trigger] m[a].offset
                        <= #[trigger] m[c].offset by {
                        assert(m[a].offset == q[a].offset);
                        assert(m[c].offset == q[c].offset);
                    }
                    assert forall|a: int| 0 <= a < m.len() implies #[trigger] m[a].id
                        < self.next_id() by {
                        assert(m[a].id == q[a].id);
                    }
                    assert forall|a: int, c: int| 0 <= a < c < m.len() implies #[trigger] m[a].id
                        != #[trigger] m[c].id by {
                        assert(m[a].id == q[a].id);
                        assert(m[c].id == q[c].id);
                    }
                }
                true
            },
            None => false,
        }
    }

    /// The first bookmark at `offset`, if any.
    pub fn at_offset(&self, offset: usize) -> (r: Option<&Bookmark>)
        requires
            self.wf(),
        ensures
            r is Some == self.has_offset(offset),
            r is Some ==> exists|p: int|
                is_partition_point(self.marks(), offset, p) && p < self.marks().len() && (*r.unwrap())@
                    == self.marks()[p],
    {
        let p = self.partition_point(offset);
        if p < self.bookmarks.len() && self.bookmarks[p].offset == offset {
            proof {
                assert(self.marks()[p as int].offset == offset);
            }
            Some(&self.bookmarks[p])
        } else {
            proof {
                assert forall|k: int| 0 <= k < self.marks().len() implies #[trigger] self.marks()[k].offset
                    != offset by {
                    if k >= p {
                        assert(self.marks()[p as int].offset <= self.marks()[k].offset);
                    }
                }
            }
            None
        }
    }

    /// Whether some bookmark lies at `offset`.
    pub fn has_bookmark(&self, offset: usize) -> (r: bool)
        requires
            self.wf(),
        ensures
            r == self.has_offset(offset),
    {
        self.at_offset(offset).is_some()
    }

    /// Shift bookmarks at or after `offset` right by `count` (bytes were inserted).
    pub fn adjust_offsets_after_insert(&mut self, offset: usize, count: usize)
        requires
            old(self).wf(),
        ensures
            final(self).wf(),
            final(self).next_id() == old(self).next_id(),
            final(self).marks() == old(self).marks().map_values(
                |b: BookmarkView| shifted_after_insert(b, offset, count),
            ),
    {
        let ghost q = old(self).marks();
        let mut i: usize = 0;
        while i < self.bookmarks.len()
            invariant
                i <= self.marks().len(),
                self.marks().len() == q.len(),
                self.next_id() == old(self).next_id(),
                self.id_to_index@ == old(self).id_to_index@,
                forall|k: int|
                    0 <= k < i ==> #[trigger] self.marks()[k] == shifted_after_insert(
                        q[k],
                        offset,
                        count,
                    ),
                forall|k: int| i <= k < q.len() ==> #[trigger] self.marks()[k] == q[k],
            decreases self.bookmarks.len() - i,
        {
            let ghost prev = self.marks();
            let mut b = self.bookmarks.remove(i);
            proof {
                assert(prev[i as int] == b@);
            }
            if b.offset >= offset {
                b.offset = b.offset.saturating_add(count);
            }
            self.bookmarks.insert(i, b);
            proof {
                assert(self.marks() =~= prev.update(
                    i as int,
                    shifted_after_insert(q[i as int], offset, count),
                ));
            }
            i += 1;
        }
        proof {
            let m = self.marks();
            assert(m =~= q.map_values(|b: BookmarkView| shifted_after_insert(b, offset, count)));
            assert forall|a: int, c: int| 0 <= a <= c < m.len() implies #[trigger] m[a].offset
                <= #[trigger] m[c].offset by {
                assert(q[a].offset <= q[c].offset);
            }
            assert forall|a: int| 0 <= a < m.len() implies #[trigger] m[a].id < self.next_id() by {
                assert(m[a].id == q[a].id);
            }
            assert forall|a: int, c: int| 0 <= a < c < m.len() implies #[trigger] m[a].id
                != #[trigger] m[c].id by {
                assert(m[a].id == q[a].id);
                assert(m[c].id == q[c].id);
            }
            assert forall|k: int| 0 <= k < m.len() implies #[trigger] self.bookmarks@[k].id
                == old(self).bookmarks@[k].id by {
                assert(m[k].id == q[k].id);
            }
            assert forall|id: u64| #[trigger]
                self.id_to_index@.contains_key(id) implies self.id_to_index@[id]
                < self.bookmarks@.len() && self.bookmarks@[self.id_to_index@[id] as int].id == id by {
                assert(old(self).id_to_index@.contains_key(id));
            }
            assert forall|k: int| 0 <= k < self.bookmarks@.len() implies self.id_to_index@.contains_key(
                #[trigger] self.bookmarks@[k].id,
            ) by {
                assert(old(self).id_to_index@.contains_key(old(self).bookmarks@[k].id));
            }
        }
    }

    /// Remove bookmarks in `[offset, offset + count)` and shift later ones left by
    /// `count` (bytes were deleted).
    pub fn adjust_offsets_after_delete(&mut self, offset: usize, count: usize)
        requires
            old(self).wf(),
            offset + count <= usize::MAX,
        ensures
            final(self).wf(),
            final(self).next_id() == old(self).next_id(),
            final(self).marks() == old(self).marks().filter(
                |b: BookmarkView| kept_after_delete(b, offset, count),
            ).map_values(|b: BookmarkView| shifted_after_delete(b, offset, count)),
    {
        let ghost q = old(self).marks();
        let ghost keep = |b: BookmarkView| kept_after_delete(b, offset, count);
        let ghost shift = |b: BookmarkView| shifted_after_delete(b, offset, count);
        let delete_end = offset + count;
        let mut kept: Vec<Bookmark> = Vec::new();
        let mut i: usize = 0;
        let ghost mut origin: Seq<int> = Seq::empty();
        while i < self.bookmarks.len()
            invariant
                i <= q.len(),
                self.marks() == q,
                delete_end == offset + count,
                keep == (|b: BookmarkView| kept_after_delete(b, offset, count)),
                shift == (|b: BookmarkView| shifted_after_delete(b, offset, count)),
                origin.len() == kept@.len(),
                forall|k: int| 0 <= k < origin.len() ==> 0 <= #[trigger] origin[k] < i,
                forall|a: int, b: int| 0 <= a < b < origin.len() ==> #[trigger] origin[a] < #[trigger] origin[b],
                forall|k: int| 0 <= k < kept@.len() ==> (#[trigger] kept@[k])@ == shift(q[origin[k]]),
                forall|k: int| 0 <= k < origin.len() ==> keep(q[#[trigger] origin[k]]),
                kept@.map_values(|b: Bookmark| b@) == q.subrange(0, i as int).filter(keep).map_values(
                    shift,
                ),
            decreases q.len() - i,
        {
            let b = &self.bookmarks[i];
            let ghost s1 = q.subrange(0, i + 1);
            proof {
                assert(b@ == q[i as int]);
                assert(s1 =~= q.subrange(0, i as int).push(q[i as int]));
                q.subrange(0, i as int).lemma_filter_push(q[i as int], keep);
            }
            if b.offset < offset || b.offset >= delete_end {
                let nb = Bookmark {
                    id: b.id,
                    offset: if b.offset >= delete_end { b.offset - count } else { b.offset },
                    name: b.name.clone(),
                    annotation: b.annotation.clone(),
                };
                let ghost before = kept@;
                kept.push(nb);
                proof {
                    origin = origin.push(i as int);
                    assert(keep(q[i as int]));
                    assert(s1.filter(keep) == q.subrange(0, i as int).filter(keep).push(q[i as int]));
                    assert(nb@ == shift(q[i as int]));
                    assert forall|k: int| 0 <= k < kept@.len() implies (#[trigger] kept@[k])@ == shift(
                        q[origin[k]],
                    ) by {
                        if k < before.len() {
                            assert(kept@[k] == before[k]);
                        }
                    }
                    let prevmap = q.subrange(0, i as int).filter(keep).map_values(shift);
                    assert(before.map_values(|b: Bookmark| b@) == prevmap);
                    assert(kept@.map_values(|b: Bookmark| b@) =~= prevmap.push(shift(q[i as int])));
                    assert(s1.filter(keep).map_values(shift) =~= prevmap.push(shift(q[i as int])));
                }
            } else {
                proof {
                    assert(!keep(q[i as int]));
                    assert(s1.filter(keep) == q.subrange(0, i as int).filter(keep));
                }
            }
            i += 1;
        }
        assert(q.subrange(0, q.len() as int) =~= q);
        self.bookmarks = kept;
        self.rebuild_index();
        proof {
            let m = self.marks();
            assert forall|a: int, c: int| 0 <= a <= c < m.len() implies #[trigger] m[a].offset
                <= #[trigger] m[c].offset by {
                if a < c {
                    assert(q[origin[a]].offset <= q[origin[c]].offset);
                }
            }
            assert forall|a: int| 0 <= a < m.len() implies #[trigger] m[a].id < self.next_id() by {
                assert(m[a].id == q[origin[a]].id);
            }
            assert forall|a: int, c: int| 0 <= a < c < m.len() implies #[trigger] m[a].id
                != #[trigger] m[c].id by {
                assert(m[a].id == q[origin[a]].id);
                assert(m[c].id == q[origin[c]].id);
                assert(origin[a] < origin[c]);
            }
        }
    }
}

} // verus!
