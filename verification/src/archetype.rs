//! The owning group: one contiguous column of values per resident
//! component type, plus one borrow counter per column.

use vstd::prelude::*;

use crate::borrow::after_acquire_exclusive;
use crate::borrow::after_acquire_shared;
use crate::borrow::after_release_exclusive;
use crate::borrow::after_release_shared;
use crate::borrow::count_of;
use crate::borrow::grants_exclusive;
use crate::borrow::grants_shared;
use crate::borrow::is_exclusive;
use crate::borrow::word_wf;
use crate::borrow::AtomicBorrow;
use crate::borrow::UNIQUE_BIT;

verus! {

/// The two groups hold the same types in the same order, the same slot
/// count and the same column values: only borrow-counter state may
/// differ between them.
pub open spec fn columns_unchanged<T>(pre: Archetype<T>, post: Archetype<T>) -> bool {
    &&& post.types_seq() == pre.types_seq()
    &&& post.num_slots() == pre.num_slots()
    &&& forall|k: int| 0 <= k < pre.num_types() ==> post.column(k) == pre.column(k)
}

/// Every borrow-counter word except the one at position `j` is the same
/// in the two groups.
pub open spec fn counters_unchanged_except<T>(pre: Archetype<T>, post: Archetype<T>, j: int) -> bool {
    forall|k: int| 0 <= k < pre.num_types() && k != j ==> post.word_at(k) == pre.word_at(k)
}

/// A group of entities sharing one set of component types. Component
/// types are identified by stable `u64` identifiers; storage is one
/// owned column per type, every column the same length, with the columns
/// parallel to the group's entity ordering. Each column carries its own
/// borrow counter: the unit of mutual exclusion is per (group, type),
/// not per slot.
///
/// The group owns the column storage outright, so a column's backing
/// never moves while grants are outstanding; all access is index
/// bounded.
pub struct Archetype<T> {
    ids: Vec<u64>,
    columns: Vec<Vec<T>>,
    borrows: Vec<AtomicBorrow>,
}

impl<T> Archetype<T> {
    /// The resident component type identifiers, in registration order.
    pub closed spec fn types_seq(&self) -> Seq<u64> {
        self.ids@
    }

    /// How many component types the group holds.
    pub open spec fn num_types(&self) -> int {
        self.types_seq().len() as int
    }

    /// How many entity slots each column holds.
    pub closed spec fn num_slots(&self) -> int {
        if self.columns@.len() == 0 {
            0
        } else {
            self.columns@[0]@.len() as int
        }
    }

    /// The values of the `j`th column.
    pub closed spec fn column(&self, j: int) -> Seq<T> {
        self.columns@[j]@
    }

    /// The borrow-counter word of the `j`th column.
    pub closed spec fn word_at(&self, j: int) -> u64 {
        self.borrows@[j].word()
    }

    /// Columns and counters are parallel to the type identifiers: one
    /// column and one counter per resident type.
    pub closed spec fn parallel(&self) -> bool {
        &&& self.columns@.len() == self.ids@.len()
        &&& self.borrows@.len() == self.ids@.len()
    }

    /// The group invariant: ids, columns and counters are parallel,
    /// every column has the same length, type identifiers are distinct,
    /// and every counter word is well formed.
    pub open spec fn wf(&self) -> bool {
        &&& self.parallel()
        &&& forall|j: int|
            0 <= j < self.num_types() ==> (#[trigger] self.column(j)).len() == self.num_slots()
        &&& forall|j: int|
            0 <= j < self.num_types() ==> word_wf(#[trigger] self.word_at(j))
        &&& forall|j: int, k: int|
            0 <= j < self.num_types() && 0 <= k < self.num_types() && j != k
                ==> self.types_seq()[j] != self.types_seq()[k]
    }

    /// Whether the group has a column for the type identifier `id`.
    pub open spec fn has_type(&self, id: u64) -> bool {
        self.types_seq().contains(id)
    }

    /// The column index of the type identifier `id`; meaningful only
    /// when `has_type(id)` holds, and then unique by the invariant.
    pub open spec fn index_of(&self, id: u64) -> int {
        choose|j: int| 0 <= j < self.num_types() && self.types_seq()[j] == id
    }

    /// Under the invariant, a position holding `id` is the one position
    /// `index_of(id)` names.
    pub proof fn lemma_index_of_is(&self, id: u64, j: int)
        requires
            self.wf(),
            0 <= j < self.num_types(),
            self.types_seq()[j] == id,
        ensures
            self.has_type(id),
            self.index_of(id) == j,
    {
        assert(self.types_seq().contains(id));
        let c = self.index_of(id);
        assert(0 <= c < self.num_types() && self.types_seq()[c] == id);
    }

    /// Build a group from its type identifiers and the matching columns,
    /// one per identifier, all of one length. Every counter starts
    /// unborrowed.
    pub fn new(ids: Vec<u64>, columns: Vec<Vec<T>>) -> (r: Self)
        requires
            ids@.len() == columns@.len(),
            forall|j: int, k: int|
                0 <= j < ids@.len() && 0 <= k < ids@.len() && j != k ==> ids@[j] != ids@[k],
            forall|j: int| 0 <= j < columns@.len() ==> (#[trigger] columns@[j])@.len() == columns@[0]@.len(),
        ensures
            r.wf(),
            r.types_seq() == ids@,
            forall|j: int| 0 <= j < r.num_types() ==> r.column(j) == (#[trigger] columns@[j])@,
            forall|j: int| 0 <= j < r.num_types() ==> #[trigger] r.word_at(j) == 0,
    {
        let n = ids.len();
        let mut borrows: Vec<AtomicBorrow> = Vec::new();
        while borrows.len() < n
            invariant
                borrows@.len() <= n,
                forall|j: int| 0 <= j < borrows@.len() ==> (#[trigger] borrows@[j]).word() == 0,
            decreases n - borrows@.len(),
        {
            borrows.push(AtomicBorrow::new());
        }
        Archetype { ids, columns, borrows }
    }

    /// The resident component type identifiers, in registration order.
    pub fn types(&self) -> (r: &Vec<u64>)
        ensures
            r@ == self.types_seq(),
    {
        &self.ids
    }

    /// Look up the column index of the type identifier `id`: the index
    /// of its column when present, nothing when the group has no such
    /// column.
    pub fn column_index(&self, id: u64) -> (r: Option<usize>)
        requires
            self.wf(),
        ensures
            r is Some <==> self.has_type(id),
            r is Some ==> r->0 == self.index_of(id),
    {
        let n = self.ids.len();
        let mut j: usize = 0;
        while j < n
            invariant
                self.wf(),
                n == self.num_types(),
                j <= n,
                forall|k: int| 0 <= k < j ==> self.types_seq()[k] != id,
            decreases n - j,
        {
            if self.ids[j] == id {
                proof {
                    self.lemma_index_of_is(id, j as int);
                }
                return Some(j);
            }
            j = j + 1;
        }
        proof {
            assert(!self.has_type(id)) by {
                if self.types_seq().contains(id) {
                    let k = choose|k: int|
                        0 <= k < self.types_seq().len() && self.types_seq()[k] == id;
                    assert(self.types_seq()[k] != id);
                }
            }
        }
        None
    }

    /// Under the invariant, a resident type's column index is in range
    /// and names a position holding that identifier.
    pub proof fn lemma_index_of_bounds(&self, id: u64)
        requires
            self.wf(),
            self.has_type(id),
        ensures
            0 <= self.index_of(id) < self.num_types(),
            self.types_seq()[self.index_of(id)] == id,
    {
        let k = choose|k: int| 0 <= k < self.types_seq().len() && self.types_seq()[k] == id;
        self.lemma_index_of_is(id, k);
    }

    /// After one counter at position `j` has been replaced and nothing
    /// else has moved, the group invariant still holds and `j` is still
    /// the column of `id`.
    proof fn lemma_after_counter_step(&self, pre: Self, id: u64, j: int)
        requires
            pre.wf(),
            0 <= j < pre.num_types(),
            pre.types_seq()[j] == id,
            self.ids == pre.ids,
            self.columns == pre.columns,
            self.borrows@.len() == pre.borrows@.len(),
            forall|k: int|
                0 <= k < pre.borrows@.len() && k != j
                    ==> #[trigger] self.borrows@[k] == pre.borrows@[k],
            word_wf(self.word_at(j)),
        ensures
            self.wf(),
            self.has_type(id),
            self.index_of(id) == j,
            self.types_seq() == pre.types_seq(),
            self.num_slots() == pre.num_slots(),
            forall|k: int| 0 <= k < pre.num_types() ==> self.column(k) == pre.column(k),
            forall|k: int|
                0 <= k < pre.num_types() && k != j ==> self.word_at(k) == pre.word_at(k),
    {
        assert forall|k: int| 0 <= k < self.num_types() implies word_wf(
            #[trigger] self.word_at(k),
        ) by {
            if k != j {
                assert(self.borrows@[k] == pre.borrows@[k]);
                assert(word_wf(pre.word_at(k)));
            }
        }
        assert forall|k: int| 0 <= k < self.num_types() implies (#[trigger] self.column(
            k,
        )).len() == self.num_slots() by {
            assert(pre.column(k).len() == pre.num_slots());
        }
        assert(self.wf());
        self.lemma_index_of_is(id, j);
    }

    /// The column index of a type identifier known to be resident.
    pub(crate) fn index_of_resident(&self, id: u64) -> (r: usize)
        requires
            self.wf(),
            self.has_type(id),
        ensures
            r as int == self.index_of(id),
            r < self.num_types(),
    {
        proof {
            self.lemma_index_of_bounds(id);
        }
        match self.column_index(id) {
            Some(j) => j,
            None => {
                proof {
                    assert(false);
                }
                0
            },
        }
    }

    /// Attempt a shared grant on the column of the type identifier `id`,
    /// delegating to that column's borrow counter. Only that counter
    /// changes; every column value, every other counter and the type
    /// list are left as they were.
    pub fn borrow(&mut self, id: u64) -> (r: bool)
        requires
            old(self).wf(),
            old(self).has_type(id),
            count_of(old(self).word_at(old(self).index_of(id))) + 1 < UNIQUE_BIT,
        ensures
            final(self).wf(),
            final(self).types_seq() == old(self).types_seq(),
            final(self).num_slots() == old(self).num_slots(),
            final(self).index_of(id) == old(self).index_of(id),
            forall|k: int|
                0 <= k < old(self).num_types()
                    ==> final(self).column(k) == old(self).column(k),
            r == grants_shared(old(self).word_at(old(self).index_of(id))),
            final(self).word_at(old(self).index_of(id)) == after_acquire_shared(
                old(self).word_at(old(self).index_of(id)),
            ),
            forall|k: int|
                0 <= k < old(self).num_types() && k != old(self).index_of(id)
                    ==> final(self).word_at(k) == old(self).word_at(k),
    {
        proof {
            old(self).lemma_index_of_bounds(id);
        }
        let j = self.index_of_resident(id);
        proof {
            assert(word_wf(old(self).word_at(j as int)));
        }
        let counter = &mut self.borrows[j];
        let r = counter.borrow();
        proof {
            self.lemma_after_counter_step(*old(self), id, j as int);
        }
        r
    }

    /// Attempt the exclusive grant on the column of the type identifier
    /// `id`, delegating to that column's borrow counter. Only that
    /// counter changes.
    pub fn borrow_mut(&mut self, id: u64) -> (r: bool)
        requires
            old(self).wf(),
            old(self).has_type(id),
        ensures
            final(self).wf(),
            final(self).types_seq() == old(self).types_seq(),
            final(self).num_slots() == old(self).num_slots(),
            final(self).index_of(id) == old(self).index_of(id),
            forall|k: int|
                0 <= k < old(self).num_types()
                    ==> final(self).column(k) == old(self).column(k),
            r == grants_exclusive(old(self).word_at(old(self).index_of(id))),
            final(self).word_at(old(self).index_of(id)) == after_acquire_exclusive(
                old(self).word_at(old(self).index_of(id)),
            ),
            forall|k: int|
                0 <= k < old(self).num_types() && k != old(self).index_of(id)
                    ==> final(self).word_at(k) == old(self).word_at(k),
    {
        proof {
            old(self).lemma_index_of_bounds(id);
        }
        let j = self.index_of_resident(id);
        proof {
            assert(word_wf(old(self).word_at(j as int)));
        }
        let counter = &mut self.borrows[j];
        let r = counter.borrow_mut();
        proof {
            self.lemma_after_counter_step(*old(self), id, j as int);
        }
        r
    }

    /// Release one shared grant on the column of the type identifier
    /// `id`. Valid only while such a grant is outstanding on that
    /// column.
    pub fn release(&mut self, id: u64)
        requires
            old(self).wf(),
            old(self).has_type(id),
            !is_exclusive(old(self).word_at(old(self).index_of(id))),
            count_of(old(self).word_at(old(self).index_of(id))) >= 1,
        ensures
            final(self).wf(),
            final(self).types_seq() == old(self).types_seq(),
            final(self).num_slots() == old(self).num_slots(),
            final(self).index_of(id) == old(self).index_of(id),
            forall|k: int|
                0 <= k < old(self).num_types()
                    ==> final(self).column(k) == old(self).column(k),
            final(self).word_at(old(self).index_of(id)) == after_release_shared(
                old(self).word_at(old(self).index_of(id)),
            ),
            forall|k: int|
                0 <= k < old(self).num_types() && k != old(self).index_of(id)
                    ==> final(self).word_at(k) == old(self).word_at(k),
    {
        proof {
            old(self).lemma_index_of_bounds(id);
        }
        let j = self.index_of_resident(id);
        proof {
            assert(word_wf(old(self).word_at(j as int)));
        }
        let counter = &mut self.borrows[j];
        counter.release();
        proof {
            self.lemma_after_counter_step(*old(self), id, j as int);
        }
    }

    /// Release the exclusive grant on the column of the type identifier
    /// `id`. Valid only while that grant is held.
    pub fn release_mut(&mut self, id: u64)
        requires
            old(self).wf(),
            old(self).has_type(id),
            is_exclusive(old(self).word_at(old(self).index_of(id))),
        ensures
            final(self).wf(),
            final(self).types_seq() == old(self).types_seq(),
            final(self).num_slots() == old(self).num_slots(),
            final(self).index_of(id) == old(self).index_of(id),
            forall|k: int|
                0 <= k < old(self).num_types()
                    ==> final(self).column(k) == old(self).column(k),
            final(self).word_at(old(self).index_of(id)) == after_release_exclusive(
                old(self).word_at(old(self).index_of(id)),
            ),
            final(self).word_at(old(self).index_of(id)) == 0,
            forall|k: int|
                0 <= k < old(self).num_types() && k != old(self).index_of(id)
                    ==> final(self).word_at(k) == old(self).word_at(k),
    {
        proof {
            old(self).lemma_index_of_bounds(id);
        }
        let j = self.index_of_resident(id);
        proof {
            assert(word_wf(old(self).word_at(j as int)));
        }
        let counter = &mut self.borrows[j];
        counter.release_mut();
        proof {
            self.lemma_after_counter_step(*old(self), id, j as int);
        }
    }

    /// Read the value at one slot of the `j`th column, index bounded.
    pub(crate) fn value_at(&self, j: usize, slot: usize) -> (r: &T)
        requires
            self.wf(),
            j < self.num_types(),
            slot < self.num_slots(),
        ensures
            *r == self.column(j as int)[slot as int],
    {
        proof {
            assert(self.column(j as int).len() == self.num_slots());
        }
        let col = &self.columns[j];
        &col[slot]
    }

    /// Replace the value at one slot of the `j`th column, index bounded.
    /// Only that cell changes.
    pub(crate) fn put(&mut self, j: usize, slot: usize, value: T)
        requires
            old(self).wf(),
            j < old(self).num_types(),
            slot < old(self).num_slots(),
        ensures
            final(self).wf(),
            final(self).types_seq() == old(self).types_seq(),
            final(self).num_slots() == old(self).num_slots(),
            forall|k: int| 0 <= k < old(self).num_types() ==> final(self).word_at(k) == old(self).word_at(k),
            final(self).column(j as int) == old(self).column(j as int).update(slot as int, value),
            forall|k: int|
                0 <= k < old(self).num_types() && k != j
                    ==> final(self).column(k) == old(self).column(k),
    {
        proof {
            assert(old(self).column(j as int).len() == old(self).num_slots());
        }
        let col = &mut self.columns[j];
        col[slot] = value;
        proof {
            assert forall|k: int| 0 <= k < old(self).num_types() implies word_wf(
                #[trigger] self.word_at(k),
            ) by {
                assert(word_wf(old(self).word_at(k)));
            }
            assert forall|k: int| 0 <= k < old(self).num_types() implies (
            #[trigger] self.column(k)).len() == self.num_slots() by {
                assert(old(self).column(k).len() == old(self).num_slots());
            }
        }
    }
}

} // verus!
