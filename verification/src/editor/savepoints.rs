//! Save points: named, self-contained snapshots of the working buffer.
//!
//! Each save point holds a full copy of the working buffer at the moment of
//! creation, so save points are independent of each other and can be deleted
//! in any order.

use std::collections::HashMap;
use vstd::prelude::*;
use super::history::copy_bytes;

verus! {

/// A named snapshot of the editing state.
pub struct SavePoint {
    pub id: u64,
    pub name: String,
    /// Snapshot of the working buffer at creation time.
    bytes: Vec<u8>,
}

/// The content of a save point.
pub ghost struct SavePointView {
    pub id: u64,
    pub name: Seq<char>,
    pub snapshot: Seq<u8>,
}

impl View for SavePoint {
    type V = SavePointView;

    closed spec fn view(&self) -> SavePointView {
        SavePointView { id: self.id, name: self.name@, snapshot: self.bytes@ }
    }
}

impl SavePoint {
    /// The identifier of this save point.
    pub fn id(&self) -> (r: u64)
        ensures
            r == self@.id,
    {
        self.id
    }


    /// Create a save point.
    pub fn new(id: u64, name: String, bytes: Vec<u8>) -> (r: Self)
        ensures
            r@ == (SavePointView { id, name: name@, snapshot: bytes@ }),
    {
        SavePoint { id, name, bytes }
    }
}

/// Whether some save point of `p` has identifier `id`.
pub open spec fn has_point(p: Seq<SavePointView>, id: u64) -> bool {
    exists|i: int| 0 <= i < p.len() && #[trigger] p[i].id == id
}

/// The position of a save point of `p` with identifier `id`.
pub open spec fn point_index(p: Seq<SavePointView>, id: u64) -> int {
    choose|i: int| 0 <= i < p.len() && #[trigger] p[i].id == id
}

/// The snapshot of save point `id` in `p`, if there is one.
pub open spec fn snapshot_of(p: Seq<SavePointView>, id: u64) -> Option<Seq<u8>> {
    if has_point(p, id) {
        Some(p[point_index(p, id)].snapshot)
    } else {
        None
    }
}

/// With unique identifiers, any save point with identifier `id` gives its
/// snapshot.
pub proof fn lemma_snapshot_at(p: Seq<SavePointView>, id: u64, j: int)
    requires
        forall|a: int, b: int| 0 <= a < b < p.len() ==> #[trigger] p[a].id != #[trigger] p[b].id,
        0 <= j < p.len(),
        p[j].id == id,
    ensures
        snapshot_of(p, id) == Some(p[j].snapshot),
{
    assert(has_point(p, id));
    let k = point_index(p, id);
    if k < j {
        assert(p[k].id != p[j].id);
    } else if k > j {
        assert(p[j].id != p[k].id);
    }
}

/// A call that changes the save points, as mathematical values.
pub ghost enum SavePointCall {
    Create { name: Seq<char>, snapshot: Seq<u8> },
    Rename { id: u64, name: Seq<char> },
    Delete { id: u64 },
    ClearAll,
}

/// The save points `p` after call `c`, when the next identifier is `next`.
pub open spec fn points_after(p: Seq<SavePointView>, next: u64, c: SavePointCall) -> Seq<
    SavePointView,
> {
    match c {
        SavePointCall::Create { name, snapshot } => p.push(
            SavePointView { id: next, name, snapshot },
        ),
        SavePointCall::Rename { id, name } => p.map_values(
            |sp: SavePointView|
                if sp.id == id {
                    SavePointView { name, ..sp }
                } else {
                    sp
                },
        ),
        SavePointCall::Delete { id } => if has_point(p, id) {
            p.remove(point_index(p, id))
        } else {
            p
        },
        SavePointCall::ClearAll => Seq::empty(),
    }
}

/// The next identifier after call `c`.
pub open spec fn next_after(next: u64, c: SavePointCall) -> u64 {
    if c is Create {
        (next + 1) as u64
    } else {
        next
    }
}

/// Manages the save points of an editor session.
pub struct SavePointManager {
    save_points: Vec<SavePoint>,
    /// Position of each save point in `save_points`, by identifier.
    id_to_index: HashMap<u64, usize>,
    next_id: u64,
}

impl SavePointManager {
    /// All save points, in creation order.
    pub closed spec fn points(&self) -> Seq<SavePointView> {
        self.save_points@.map_values(|sp: SavePoint| sp@)
    }

    /// The identifier the next save point will get.
    pub closed spec fn next_id(&self) -> u64 {
        self.next_id
    }

    /// The identifier index holds exactly the identifiers of the list, each
    /// with its position.
    pub closed spec fn index_ok(&self) -> bool {
        &&& forall|id: u64| #[trigger]
            self.id_to_index@.contains_key(id) ==> self.id_to_index@[id] < self.save_points@.len()
                && self.save_points@[self.id_to_index@[id] as int].id == id
        &&& forall|i: int|
            0 <= i < self.save_points@.len() ==> self.id_to_index@.contains_key(
                #[trigger] self.save_points@[i].id,
            )
    }

    /// Identifiers are unique, positive, and below the next identifier; the
    /// index by identifier agrees with the list.
    pub open spec fn wf(&self) -> bool {
        &&& self.index_ok()
        &&& self.next_id() >= 1
        &&& forall|i: int|
            0 <= i < self.points().len() ==> 1 <= #[trigger] self.points()[i].id < self.next_id()
        &&& forall|i: int, j: int|
            0 <= i < j < self.points().len() ==> #[trigger] self.points()[i].id
                != #[trigger] self.points()[j].id
    }

    /// Whether a save point with identifier `id` exists.
    pub open spec fn has_id(&self, id: u64) -> bool {
        exists|i: int| 0 <= i < self.points().len() && #[trigger] self.points()[i].id == id
    }

    /// The position of the save point with identifier `id`.
    pub open spec fn index_of(&self, id: u64) -> int {
        choose|i: int| 0 <= i < self.points().len() && #[trigger] self.points()[i].id == id
    }

    /// Create a new, empty save point manager.
    pub fn new() -> (r: Self)
        ensures
            r.wf(),
            r.points() == Seq::<SavePointView>::empty(),
            r.next_id() == 1,
    {
        SavePointManager { save_points: Vec::new(), id_to_index: HashMap::new(), next_id: 1 }
    }

    /// All save points, in creation order.
    pub fn save_points(&self) -> (r: &[SavePoint])
        ensures
            r@.map_values(|sp: SavePoint| sp@) == self.points(),
    {
        self.save_points.as_slice()
    }

    fn find(&self, id: u64) -> (r: Option<usize>)
        requires
            self.index_ok(),
        ensures
            match r {
                Some(i) => i < self.points().len() && self.points()[i as int].id == id,
                None => !self.has_id(id),
            },
    {
        match self.id_to_index.get(&id) {
            Some(i) => Some(*i),
            None => {
                proof {
                    assert forall|k: int| 0 <= k < self.points().len() implies #[trigger] self.points()[k].id
                        != id by {
                        assert(self.id_to_index@.contains_key(self.save_points@[k].id));
                    }
                }
                None
            },
        }
    }

    /// Mutable access to a save point by identifier.
    pub fn get_mut(&mut self, id: u64) -> (r: Option<&mut SavePoint>)
        requires
            old(self).wf(),
        ensures
            r is Some == old(self).has_id(id),
            r is None ==> *final(self) == *old(self),
            r is Some ==> (*r.unwrap())@ == old(self).points()[old(self).index_of(id)],
            r is Some ==> final(self).points() == old(self).points().update(
                old(self).index_of(id),
                (*final(r.unwrap()))@,
            ) && final(self).next_id() == old(self).next_id(),
    {
        match self.find(id) {
            Some(i) => {
                proof {
                    assert(old(self).points()[old(self).index_of(id)].id == id);
                }
                Some(&mut self.save_points[i])
            },
            None => None,
        }
    }

    /// Create a new save point capturing `current_state`; returns its identifier.
    pub fn create(&mut self, name: String, current_state: &[u8]) -> (id: u64)
        requires
            old(self).wf(),
            old(self).next_id() < u64::MAX,
        ensures
            final(self).wf(),
            id == old(self).next_id(),
            final(self).next_id() == old(self).next_id() + 1,
            final(self).points().len() == old(self).points().len() + 1,
            final(self).points().drop_last() == old(self).points(),
            final(self).points().last().id == id,
            final(self).points().last().name == name@,
            final(self).points().last().snapshot == current_state@,
            final(self).points() == points_after(
                old(self).points(),
                old(self).next_id(),
                (SavePointCall::Create { name: name@, snapshot: current_state@ }),
            ),
    {
        let id = self.next_id;
        self.next_id = self.next_id + 1;
        let mut bytes: Vec<u8> = Vec::new();
        let mut i: usize = 0;
        while i < current_state.len()
            invariant
                i <= current_state@.len(),
                bytes@ == current_state@.subrange(0, i as int),
            decreases current_state@.len() - i,
        {
            bytes.push(current_state[i]);
            i += 1;
            assert(bytes@ =~= current_state@.subrange(0, i as int));
        }
        assert(bytes@ =~= current_state@);
        let index: usize = self.save_points.len();
        self.save_points.push(SavePoint::new(id, name, bytes));
        self.id_to_index.insert(id, index);
        proof {
            assert forall|i: int| 0 <= i < self.save_points@.len() implies self.id_to_index@.contains_key(
                #[trigger] self.save_points@[i].id,
            ) by {
                if i < index {
                    assert(old(self).id_to_index@.contains_key(old(self).save_points@[i].id));
                }
            }
        }
        assert(self.points().drop_last() =~= old(self).points());
        assert(self.points() =~= old(self).points().push(
            SavePointView { id, name: name@, snapshot: current_state@ },
        ));
        proof {
            let p = self.points();
            let q = old(self).points();
            assert forall|i: int| 0 <= i < p.len() implies 1 <= #[trigger] p[i].id < self.next_id() by {
                if i < q.len() {
                    assert(p[i] == q[i]);
                }
            }
            assert forall|i: int, j: int| 0 <= i < j < p.len() implies #[trigger] p[i].id
                != #[trigger] p[j].id by {
                assert(p[i] == q[i]);
                if j < q.len() {
                    assert(p[j] == q[j]);
                }
            }
        }
        id
    }

    /// A fresh copy of the snapshot of save point `id`, if it exists.
    pub fn restore(&self, id: u64) -> (r: Option<Vec<u8>>)
        requires
            self.wf(),
        ensures
            r is Some == self.has_id(id),
            r is Some ==> r.unwrap()@ == self.points()[self.index_of(id)].snapshot,
            match snapshot_of(self.points(), id) {
                Some(s) => r matches Some(v) && v@ == s,
                None => r is None,
            },
    {
        match self.find(id) {
            Some(i) => Some(copy_bytes(&self.save_points[i].bytes)),
            None => None,
        }
    }

    /// Rename a save point; returns whether it was found.
    pub fn rename(&mut self, id: u64, new_name: String) -> (r: bool)
        requires
            old(self).wf(),
        ensures
            final(self).wf(),
            r == old(self).has_id(id),
            final(self).next_id() == old(self).next_id(),
            final(self).points().len() == old(self).points().len(),
            forall|i: int|
                0 <= i < old(self).points().len() ==> {
                    &&& #[trigger] final(self).points()[i].id == old(self).points()[i].id
                    &&& final(self).points()[i].snapshot == old(self).points()[i].snapshot
                    &&& final(self).points()[i].name == if old(self).points()[i].id == id {
                        new_name@
                    } else {
                        old(self).points()[i].name
                    }
                },
            final(self).points() == points_after(
                old(self).points(),
                old(self).next_id(),
                (SavePointCall::Rename { id, name: new_name@ }),
            ),
    {
        let ghost nn = new_name@;
        let r = match self.find(id) {
            Some(i) => {
                let mut sp = self.save_points.remove(i);
                sp.name = new_name;
                self.save_points.insert(i, sp);
                proof {
                    assert forall|k: int| 0 <= k < old(self).points().len() implies #[trigger] (
                    final(self).points()[k]).id == old(self).points()[k].id by {}
                }
                true
            },
            None => false,
        };
        proof {
            let p = self.points();
            let q = old(self).points();
            assert forall|k: int| 0 <= k < q.len() implies #[trigger] p[k] == (if q[k].id == id {
                SavePointView { name: nn, ..q[k] }
            } else {
                q[k]
            }) by {
                assert(p[k].id == q[k].id);
                if !r {
                    assert(q[k].id != id);
                }
            }
            assert(p =~= points_after(q, old(self).next_id(), SavePointCall::Rename { id, name: nn }));
        }
        r
    }

    /// Delete a save point, wherever it is in the list; returns whether it was found.
    pub fn delete(&mut self, id: u64) -> (r: bool)
        requires
            old(self).wf(),
        ensures
            final(self).wf(),
            r == old(self).has_id(id),
            final(self).next_id() == old(self).next_id(),
            r ==> final(self).points() == old(self).points().remove(old(self).index_of(id)),
            !r ==> final(self).points() == old(self).points(),
            final(self).points() == points_after(
                old(self).points(),
                old(self).next_id(),
                (SavePointCall::Delete { id }),
            ),
    {
        match self.find(id) {
            Some(i) => {
                proof {
                    let k = old(self).index_of(id);
                    assert(old(self).points()[i as int].id == id);
                    assert(k == i as int);
                }
                let _ = self.save_points.remove(i);
                self.rebuild_index();
                proof {
                    let p = self.points();
                    let q = old(self).points();
                    assert(p =~= q.remove(i as int));
                    assert forall|a: int| 0 <= a < p.len() implies 1 <= #[trigger] p[a].id
                        < self.next_id() by {
                        if a < i {
                            assert(p[a] == q[a]);
                        } else {
                            assert(p[a] == q[a + 1]);
                        }
                    }
                    assert forall|a: int, b: int| 0 <= a < b < p.len() implies #[trigger] p[a].id
                        != #[trigger] p[b].id by {
                        let a2 = if a < i { a } else { a + 1 };
                        let b2 = if b < i { b } else { b + 1 };
                        assert(p[a] == q[a2]);
                        assert(p[b] == q[b2]);
                    }
                }
                true
            },
            None => false,
        }
    }

    /// Rebuild the index by identifier from the list.
    fn rebuild_index(&mut self)
        ensures
            final(self).index_ok(),
            final(self).save_points == old(self).save_points,
            final(self).next_id == old(self).next_id,
    {
        self.id_to_index.clear();
        let mut k: usize = 0;
        while k < self.save_points.len()
            invariant
                k <= self.save_points@.len(),
                self.save_points == old(self).save_points,
                self.next_id == old(self).next_id,
                forall|id: u64| #[trigger]
                    self.id_to_index@.contains_key(id) ==> self.id_to_index@[id] < k
                        && self.save_points@[self.id_to_index@[id] as int].id == id,
                forall|i: int|
                    0 <= i < k ==> self.id_to_index@.contains_key(#[trigger] self.save_points@[i].id),
            decreases self.save_points@.len() - k,
        {
            let id: u64 = self.save_points[k].id;
            self.id_to_index.insert(id, k);
            k += 1;
        }
    }

    /// Number of save points.
    pub fn len(&self) -> (r: usize)
        ensures
            r == self.points().len(),
    {
        self.save_points.len()
    }

    /// Remove all save points.
    pub fn clear_all(&mut self)
        requires
            old(self).wf(),
        ensures
            final(self).wf(),
            final(self).points() == Seq::<SavePointView>::empty(),
            final(self).next_id() == old(self).next_id(),
            final(self).points() == points_after(
                old(self).points(),
                old(self).next_id(),
                SavePointCall::ClearAll,
            ),
    {
        self.save_points.clear();
        self.id_to_index.clear();
    }
}

} // verus!
