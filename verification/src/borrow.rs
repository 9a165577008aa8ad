//! The per-(group, component type) borrow counter.
//!
//! One counter word records either "N shared holders" or "one exclusive
//! holder". The high-order bit of the word is the exclusive flag; the
//! remaining bits are the live shared-holder count. The counter's
//! invariant is that the flag and a nonzero count are never combined, so
//! a well-formed word is either exactly `UNIQUE_BIT` or a plain count
//! below it.

use vstd::prelude::*;

use crate::archetype::columns_unchanged;
use crate::archetype::counters_unchanged_except;
use crate::archetype::Archetype;

verus! {

/// High-order bit of the counter word: set exactly while an exclusive
/// grant is held.
pub const UNIQUE_BIT: u64 = 0x8000_0000_0000_0000;

/// A counter word is well formed when the exclusive flag, if set, stands
/// alone: the word is either `UNIQUE_BIT` itself or a shared-holder
/// count strictly below the flag bit.
pub open spec fn word_wf(w: u64) -> bool {
    w <= UNIQUE_BIT
}

/// The exclusive flag of a well-formed word: the high bit is set only on
/// the word `UNIQUE_BIT` itself.
pub open spec fn is_exclusive(w: u64) -> bool {
    w == UNIQUE_BIT
}

/// The live shared-holder count carried by a well-formed word.
pub open spec fn count_of(w: u64) -> u64 {
    if is_exclusive(w) {
        0
    } else {
        w
    }
}

/// A shared grant is handed out whenever no exclusive grant is held.
pub open spec fn grants_shared(w: u64) -> bool {
    !is_exclusive(w)
}

/// The counter word after one shared-acquire attempt: the count rises by
/// one on a grant and is left untouched on a denial.
pub open spec fn after_acquire_shared(w: u64) -> u64 {
    if grants_shared(w) {
        (w + 1) as u64
    } else {
        w
    }
}

/// An exclusive grant is handed out only from the all-zero (unborrowed)
/// state.
pub open spec fn grants_exclusive(w: u64) -> bool {
    w == 0
}

/// The counter word after one exclusive-acquire attempt: the flag is set
/// on a grant and the word is left untouched on a denial.
pub open spec fn after_acquire_exclusive(w: u64) -> u64 {
    if grants_exclusive(w) {
        UNIQUE_BIT
    } else {
        w
    }
}

/// The counter word after releasing one shared grant.
pub open spec fn after_release_shared(w: u64) -> u64 {
    if w >= 1 {
        (w - 1) as u64
    } else {
        w
    }
}

/// The counter word after releasing the exclusive grant: the flag is
/// cleared and the count bits are kept.
pub open spec fn after_release_exclusive(w: u64) -> u64 {
    if w >= UNIQUE_BIT {
        (w - UNIQUE_BIT) as u64
    } else {
        w
    }
}

/// A single-word borrow counter for one (group, component type) pair,
/// recording "N shared holders" or "one exclusive holder".
///
/// A concurrent deployment keeps this word in one atomic machine word,
/// with an acquire fence on every successful acquire and a release fence
/// on every release. What is pinned down here is the state machine
/// itself, one transition per call; the cross-thread safety argument
/// rests one-to-one on the invariant proved here, that the exclusive
/// flag and a nonzero shared count are never true at once.
pub struct AtomicBorrow(u64);

impl AtomicBorrow {
    /// The raw counter word.
    pub closed spec fn word(&self) -> u64 {
        self.0
    }

    /// The counter invariant: the word is well formed.
    pub open spec fn wf(&self) -> bool {
        word_wf(self.word())
    }

    /// A fresh counter: unborrowed, word all zero.
    pub fn new() -> (r: Self)
        ensures
            r.wf(),
            r.word() == 0,
    {
        AtomicBorrow(0)
    }

    /// Attempt a shared grant. Succeeds, incrementing the holder count,
    /// exactly when no exclusive grant is held; a denial leaves the
    /// count unchanged.
    ///
    /// A count that would saturate the available count bits signals
    /// corruption beyond design limits, an unconditional abort rather
    /// than an error path; that input is excluded here.
    pub fn borrow(&mut self) -> (r: bool)
        requires
            old(self).wf(),
            count_of(old(self).word()) + 1 < UNIQUE_BIT,
        ensures
            final(self).wf(),
            r == grants_shared(old(self).word()),
            final(self).word() == after_acquire_shared(old(self).word()),
    {
        if self.0 == UNIQUE_BIT {
            // The post-increment word would carry the exclusive flag:
            // conflict, undone increment, denial.
            false
        } else {
            self.0 = self.0 + 1;
            true
        }
    }

    /// Attempt the exclusive grant: a single transition from the
    /// all-zero state to the flag-set state. Succeeds exactly when no
    /// shared or exclusive grant is outstanding; a denial leaves the
    /// word unchanged.
    pub fn borrow_mut(&mut self) -> (r: bool)
        requires
            old(self).wf(),
        ensures
            final(self).wf(),
            r == grants_exclusive(old(self).word()),
            final(self).word() == after_acquire_exclusive(old(self).word()),
    {
        if self.0 == 0 {
            self.0 = UNIQUE_BIT;
            true
        } else {
            false
        }
    }

    /// Release one shared grant. Valid only while a shared grant is
    /// outstanding and the exclusive flag is clear: an unbalanced or
    /// mismatched release is a caller bug and is excluded here.
    pub fn release(&mut self)
        requires
            old(self).wf(),
            !is_exclusive(old(self).word()),
            count_of(old(self).word()) >= 1,
        ensures
            final(self).wf(),
            final(self).word() == after_release_shared(old(self).word()),
    {
        self.0 = self.0 - 1;
    }

    /// Release the exclusive grant, clearing the flag. Valid only while
    /// the exclusive flag is set: releasing a shared grant this way is a
    /// caller bug and is excluded here.
    pub fn release_mut(&mut self)
        requires
            old(self).wf(),
            is_exclusive(old(self).word()),
        ensures
            final(self).wf(),
            final(self).word() == after_release_exclusive(old(self).word()),
            final(self).word() == 0,
    {
        self.0 = self.0 - UNIQUE_BIT;
    }

    /// The live shared-holder count.
    pub fn shared_count(&self) -> (r: u64)
        ensures
            r == count_of(self.word()),
    {
        if self.0 == UNIQUE_BIT {
            0
        } else {
            self.0
        }
    }

    /// Whether the exclusive flag is set.
    pub fn exclusive_held(&self) -> (r: bool)
        ensures
            r == is_exclusive(self.word()),
    {
        self.0 == UNIQUE_BIT
    }
}

/// On a well-formed word the flag test and the count agree with the
/// plain bit reading: the exclusive flag is the high-order bit, and the
/// shared-holder count is the remaining bits.
pub proof fn lemma_word_bit_reading(w: u64)
    requires
        word_wf(w),
    ensures
        is_exclusive(w) <==> w & UNIQUE_BIT != 0,
        count_of(w) == w & !UNIQUE_BIT,
{
    assert(w <= 0x8000_0000_0000_0000u64 ==> ((w & 0x8000_0000_0000_0000u64 != 0) <==> w
        == 0x8000_0000_0000_0000u64)) by (bit_vector);
    assert(w < 0x8000_0000_0000_0000u64 ==> w & !0x8000_0000_0000_0000u64 == w) by (bit_vector);
    assert(0x8000_0000_0000_0000u64 & !0x8000_0000_0000_0000u64 == 0u64) by (bit_vector);
}

/// The counter word after `n` successive shared-acquire attempts.
pub open spec fn after_acquire_shared_n(w: u64, n: nat) -> u64
    decreases n,
{
    if n == 0 {
        w
    } else {
        after_acquire_shared(after_acquire_shared_n(w, (n - 1) as nat))
    }
}

/// Every transition keeps the counter invariant, and under it the
/// exclusive flag and a nonzero shared count are never true at once.
/// The cross-thread safety of the handles rests exactly on this: no
/// exclusive grant coexists with any other grant.
pub proof fn lemma_transitions_preserve_wf(w: u64)
    requires
        word_wf(w),
    ensures
        is_exclusive(w) ==> count_of(w) == 0,
        count_of(w) + 1 < UNIQUE_BIT ==> word_wf(after_acquire_shared(w)),
        word_wf(after_acquire_exclusive(w)),
        !is_exclusive(w) && count_of(w) >= 1 ==> word_wf(after_release_shared(w)),
        is_exclusive(w) ==> word_wf(after_release_exclusive(w)),
{
}

/// While no exclusive grant is held, any number of shared acquires all
/// succeed, each raising the holder count by one and never setting the
/// exclusive flag — as long as the count stays below the flag bit.
pub proof fn lemma_shared_acquires_all_succeed(w: u64, n: nat)
    requires
        word_wf(w),
        !is_exclusive(w),
        count_of(w) + n < UNIQUE_BIT,
    ensures
        forall|k: nat| k < n ==> grants_shared(#[trigger] after_acquire_shared_n(w, k)),
        word_wf(after_acquire_shared_n(w, n)),
        !is_exclusive(after_acquire_shared_n(w, n)),
        count_of(after_acquire_shared_n(w, n)) == count_of(w) + n,
    decreases n,
{
    if n > 0 {
        lemma_shared_acquires_all_succeed(w, (n - 1) as nat);
    }
}

/// While any shared grant is outstanding, an exclusive acquire fails and
/// leaves the shared count unchanged.
pub proof fn lemma_exclusive_denied_while_shared(w: u64)
    requires
        word_wf(w),
        count_of(w) >= 1,
    ensures
        !grants_exclusive(w),
        after_acquire_exclusive(w) == w,
        count_of(after_acquire_exclusive(w)) == count_of(w),
{
}

/// The exclusive grant is handed out from the zero state exactly once:
/// during the hold every further shared or exclusive acquire fails and
/// leaves the word unchanged, and releasing returns the counter to zero,
/// after which a shared acquire is granted again.
pub proof fn lemma_exclusive_exactly_once(w: u64)
    requires
        word_wf(w),
    ensures
        grants_exclusive(w) <==> w == 0,
        grants_exclusive(0),
        after_acquire_exclusive(0) == UNIQUE_BIT,
        is_exclusive(after_acquire_exclusive(0)),
        !grants_shared(after_acquire_exclusive(0)),
        !grants_exclusive(after_acquire_exclusive(0)),
        after_acquire_shared(after_acquire_exclusive(0)) == after_acquire_exclusive(0),
        after_acquire_exclusive(after_acquire_exclusive(0)) == after_acquire_exclusive(0),
        after_release_exclusive(after_acquire_exclusive(0)) == 0,
        grants_shared(after_release_exclusive(after_acquire_exclusive(0))),
{
}

/// A release of the matching kind undoes its successful acquire: the
/// counter word returns to what it was before the grant was taken.
pub proof fn lemma_release_matches_acquire(w: u64)
    requires
        word_wf(w),
    ensures
        grants_shared(w) && count_of(w) + 1 < UNIQUE_BIT ==> after_release_shared(
            after_acquire_shared(w),
        ) == w,
        grants_exclusive(w) ==> after_release_exclusive(after_acquire_exclusive(w)) == w,
{
}

/// The "missing component" signal: a value, not a fatal error,
/// identifying which requested component type was absent from a group.
#[derive(Clone, Copy, Debug, PartialEq, Eq)]
pub struct MissingComponent {
    id: u64,
}

impl MissingComponent {
    /// The identifier of the absent component type.
    pub closed spec fn type_id(&self) -> u64 {
        self.id
    }

    /// Record that the component type `id` was requested and absent.
    pub fn new(id: u64) -> (r: Self)
        ensures
            r.type_id() == id,
    {
        MissingComponent { id }
    }

    /// The identifier of the absent component type.
    pub fn id(&self) -> (r: u64)
        ensures
            r == self.type_id(),
    {
        self.id
    }
}

/// Shared borrow of an entity's component: a live shared grant on the
/// column of one component type, coupled to one slot of that column.
///
/// The handle is released exactly once: `release` consumes it. It is not
/// copyable as a plain value; `duplicate` hands out a copy only after
/// independently taking one more shared grant for it.
#[derive(Debug)]
pub struct Ref {
    id: u64,
    slot: u32,
}

impl Ref {
    /// The identifier of the component type this handle borrows.
    pub closed spec fn type_id(&self) -> u64 {
        self.id
    }

    /// The entity slot this handle is coupled to.
    pub closed spec fn slot_index(&self) -> u32 {
        self.slot
    }

    /// Construct a shared handle for the component of type `id` at slot
    /// `index` of `archetype`: fail with the "missing component" signal
    /// when the group has no such column, otherwise request the shared
    /// grant and wrap the location.
    ///
    /// This is the ungated path: the grant outcome is deliberately not
    /// inspected, and the handle is built whether or not the grant was
    /// obtained — the counter word records which one happened, and
    /// releasing a handle whose grant was denied would be an unbalanced
    /// release. The strict path is `EntityRef::get`.
    pub fn new<T>(archetype: &mut Archetype<T>, index: u32, id: u64) -> (r: Result<
        Ref,
        MissingComponent,
    >)
        requires
            old(archetype).wf(),
            old(archetype).has_type(id) ==> index < old(archetype).num_slots(),
            old(archetype).has_type(id) ==> count_of(
                old(archetype).word_at(old(archetype).index_of(id)),
            ) + 1 < UNIQUE_BIT,
        ensures
            final(archetype).wf(),
            columns_unchanged(*old(archetype), *final(archetype)),
            !old(archetype).has_type(id) ==> *final(archetype) == *old(archetype),
            !old(archetype).has_type(id) ==> (r matches Err(e) && e.type_id() == id),
            old(archetype).has_type(id) ==> (r matches Ok(h) && h.type_id() == id
                && h.slot_index() == index),
            old(archetype).has_type(id) ==> final(archetype).word_at(
                old(archetype).index_of(id),
            ) == after_acquire_shared(old(archetype).word_at(old(archetype).index_of(id))),
            old(archetype).has_type(id) ==> counters_unchanged_except(
                *old(archetype),
                *final(archetype),
                old(archetype).index_of(id),
            ),
    {
        match archetype.column_index(id) {
            None => Err(MissingComponent::new(id)),
            Some(_) => {
                let _granted = archetype.borrow(id);
                Ok(Ref { id, slot: index })
            },
        }
    }

    /// Read the borrowed component value.
    pub fn value<'a, T>(&self, archetype: &'a Archetype<T>) -> (r: &'a T)
        requires
            archetype.wf(),
            archetype.has_type(self.type_id()),
            self.slot_index() < archetype.num_slots(),
        ensures
            *r == archetype.column(archetype.index_of(self.type_id()))[self.slot_index() as int],
    {
        let j = archetype.index_of_resident(self.id);
        archetype.value_at(j, self.slot as usize)
    }

    /// A copy of this shared handle. Each copy independently takes one
    /// more shared grant, so the copy is handed out exactly when a
    /// shared grant is available.
    pub fn duplicate<T>(&self, archetype: &mut Archetype<T>) -> (r: Option<Ref>)
        requires
            old(archetype).wf(),
            old(archetype).has_type(self.type_id()),
            count_of(old(archetype).word_at(old(archetype).index_of(self.type_id()))) + 1
                < UNIQUE_BIT,
        ensures
            final(archetype).wf(),
            columns_unchanged(*old(archetype), *final(archetype)),
            r is Some <==> grants_shared(
                old(archetype).word_at(old(archetype).index_of(self.type_id())),
            ),
            r is Some ==> (r->0.type_id() == self.type_id() && r->0.slot_index()
                == self.slot_index()),
            final(archetype).word_at(old(archetype).index_of(self.type_id()))
                == after_acquire_shared(
                old(archetype).word_at(old(archetype).index_of(self.type_id())),
            ),
            counters_unchanged_except(
                *old(archetype),
                *final(archetype),
                old(archetype).index_of(self.type_id()),
            ),
    {
        if archetype.borrow(self.id) {
            Some(Ref { id: self.id, slot: self.slot })
        } else {
            None
        }
    }

    /// Release the shared grant this handle holds, exactly once: the
    /// handle is consumed. Valid only while a shared grant is
    /// outstanding on the handle's column of its own group — releasing
    /// without a matching successful acquire is a caller bug and is
    /// excluded here.
    pub fn release<T>(self, archetype: &mut Archetype<T>)
        requires
            old(archetype).wf(),
            old(archetype).has_type(self.type_id()),
            !is_exclusive(old(archetype).word_at(old(archetype).index_of(self.type_id()))),
            count_of(old(archetype).word_at(old(archetype).index_of(self.type_id()))) >= 1,
        ensures
            final(archetype).wf(),
            columns_unchanged(*old(archetype), *final(archetype)),
            final(archetype).word_at(old(archetype).index_of(self.type_id()))
                == after_release_shared(
                old(archetype).word_at(old(archetype).index_of(self.type_id())),
            ),
            counters_unchanged_except(
                *old(archetype),
                *final(archetype),
                old(archetype).index_of(self.type_id()),
            ),
    {
        archetype.release(self.id);
    }
}

/// Unique borrow of an entity's component: the exclusive grant on the
/// column of one component type, coupled to one slot of that column, and
/// additionally permitting mutation of that slot.
///
/// The handle is released exactly once: `release` consumes it, and the
/// exclusive variant cannot be copied.
#[derive(Debug)]
pub struct RefMut {
    id: u64,
    slot: u32,
}

impl RefMut {
    /// The identifier of the component type this handle borrows.
    pub closed spec fn type_id(&self) -> u64 {
        self.id
    }

    /// The entity slot this handle is coupled to.
    pub closed spec fn slot_index(&self) -> u32 {
        self.slot
    }

    /// Construct an exclusive handle for the component of type `id` at
    /// slot `index` of `archetype`: fail with the "missing component"
    /// signal when the group has no such column, otherwise request the
    /// exclusive grant and wrap the location.
    ///
    /// This is the ungated path: the grant outcome is deliberately not
    /// inspected, and the handle is built whether or not the grant was
    /// obtained — the counter word records which one happened, and
    /// releasing a handle whose grant was denied would be an unbalanced
    /// release. The strict path is `EntityRef::get_mut`.
    pub fn new<T>(archetype: &mut Archetype<T>, index: u32, id: u64) -> (r: Result<
        RefMut,
        MissingComponent,
    >)
        requires
            old(archetype).wf(),
            old(archetype).has_type(id) ==> index < old(archetype).num_slots(),
        ensures
            final(archetype).wf(),
            columns_unchanged(*old(archetype), *final(archetype)),
            !old(archetype).has_type(id) ==> *final(archetype) == *old(archetype),
            !old(archetype).has_type(id) ==> (r matches Err(e) && e.type_id() == id),
            old(archetype).has_type(id) ==> (r matches Ok(h) && h.type_id() == id
                && h.slot_index() == index),
            old(archetype).has_type(id) ==> final(archetype).word_at(
                old(archetype).index_of(id),
            ) == after_acquire_exclusive(old(archetype).word_at(old(archetype).index_of(id))),
            old(archetype).has_type(id) ==> counters_unchanged_except(
                *old(archetype),
                *final(archetype),
                old(archetype).index_of(id),
            ),
    {
        match archetype.column_index(id) {
            None => Err(MissingComponent::new(id)),
            Some(_) => {
                let _granted = archetype.borrow_mut(id);
                Ok(RefMut { id, slot: index })
            },
        }
    }

    /// Read the borrowed component value.
    pub fn value<'a, T>(&self, archetype: &'a Archetype<T>) -> (r: &'a T)
        requires
            archetype.wf(),
            archetype.has_type(self.type_id()),
            self.slot_index() < archetype.num_slots(),
        ensures
            *r == archetype.column(archetype.index_of(self.type_id()))[self.slot_index() as int],
    {
        let j = archetype.index_of_resident(self.id);
        archetype.value_at(j, self.slot as usize)
    }

    /// Replace the borrowed component value, mutating exactly the one
    /// slot this handle is coupled to.
    pub fn set<T>(&self, archetype: &mut Archetype<T>, value: T)
        requires
            old(archetype).wf(),
            old(archetype).has_type(self.type_id()),
            self.slot_index() < old(archetype).num_slots(),
        ensures
            final(archetype).wf(),
            final(archetype).types_seq() == old(archetype).types_seq(),
            final(archetype).num_slots() == old(archetype).num_slots(),
            forall|k: int|
                0 <= k < old(archetype).num_types()
                    ==> final(archetype).word_at(k) == old(archetype).word_at(k),
            final(archetype).column(old(archetype).index_of(self.type_id())) == old(
                archetype,
            ).column(old(archetype).index_of(self.type_id())).update(
                self.slot_index() as int,
                value,
            ),
            forall|k: int|
                0 <= k < old(archetype).num_types() && k != old(archetype).index_of(
                    self.type_id(),
                ) ==> final(archetype).column(k) == old(archetype).column(k),
    {
        let j = archetype.index_of_resident(self.id);
        archetype.put(j, self.slot as usize, value);
    }

    /// Release the exclusive grant this handle holds, exactly once: the
    /// handle is consumed. Valid only while the exclusive flag is set on
    /// the handle's column of its own group — releasing without a
    /// matching successful acquire is a caller bug and is excluded here.
    pub fn release<T>(self, archetype: &mut Archetype<T>)
        requires
            old(archetype).wf(),
            old(archetype).has_type(self.type_id()),
            is_exclusive(old(archetype).word_at(old(archetype).index_of(self.type_id()))),
        ensures
            final(archetype).wf(),
            columns_unchanged(*old(archetype), *final(archetype)),
            final(archetype).word_at(old(archetype).index_of(self.type_id())) == 0,
            counters_unchanged_except(
                *old(archetype),
                *final(archetype),
                old(archetype).index_of(self.type_id()),
            ),
    {
        archetype.release_mut(self.id);
    }
}

/// Handle to an entity with any set of component types: an optional
/// owning group plus a slot index, meaningful only when the group is
/// present. The view holds no grant itself; grants are taken only when a
/// typed handle is requested from it. It is freely copyable.
#[derive(Clone, Copy)]
pub struct EntityRef {
    grouped: bool,
    index: u32,
}

impl EntityRef {
    /// Whether the view has an owning group.
    pub closed spec fn in_group(&self) -> bool {
        self.grouped
    }

    /// The slot index, meaningful only when the view has a group.
    pub closed spec fn slot(&self) -> u32 {
        self.index
    }

    /// A view for an entity with no components: no owning group.
    pub fn empty() -> (r: Self)
        ensures
            !r.in_group(),
    {
        EntityRef { grouped: false, index: 0 }
    }

    /// A view backed by an owning group, at slot `index` of that group's
    /// columns.
    pub fn new<T>(archetype: &Archetype<T>, index: u32) -> (r: Self)
        requires
            archetype.wf(),
            index < archetype.num_slots(),
        ensures
            r.in_group(),
            r.slot() == index,
    {
        EntityRef { grouped: true, index }
    }

    /// Borrow the component of type `id`, if it exists: nothing when the
    /// view has no owning group, when the group has no column for `id`,
    /// or when the shared grant is denied because the exclusive grant is
    /// held. A denial leaves the counter unchanged.
    ///
    /// This is the strict path: the grant outcome gates the handle.
    pub fn get<T>(&self, archetype: &mut Archetype<T>, id: u64) -> (r: Option<Ref>)
        requires
            old(archetype).wf(),
            self.in_group() && old(archetype).has_type(id) ==> self.slot() < old(
                archetype,
            ).num_slots(),
            self.in_group() && old(archetype).has_type(id) ==> count_of(
                old(archetype).word_at(old(archetype).index_of(id)),
            ) + 1 < UNIQUE_BIT,
        ensures
            final(archetype).wf(),
            columns_unchanged(*old(archetype), *final(archetype)),
            !(self.in_group() && old(archetype).has_type(id)) ==> r is None && *final(archetype)
                == *old(archetype),
            self.in_group() && old(archetype).has_type(id) ==> (r is Some <==> grants_shared(
                old(archetype).word_at(old(archetype).index_of(id)),
            )),
            self.in_group() && old(archetype).has_type(id) ==> final(archetype).word_at(
                old(archetype).index_of(id),
            ) == after_acquire_shared(old(archetype).word_at(old(archetype).index_of(id))),
            self.in_group() && old(archetype).has_type(id) ==> counters_unchanged_except(
                *old(archetype),
                *final(archetype),
                old(archetype).index_of(id),
            ),
            r is Some ==> (r->0.type_id() == id && r->0.slot_index() == self.slot()),
    {
        if !self.grouped {
            return None;
        }
        match archetype.column_index(id) {
            None => None,
            Some(_) => {
                if archetype.borrow(id) {
                    Some(Ref { id, slot: self.index })
                } else {
                    None
                }
            },
        }
    }

    /// Uniquely borrow the component of type `id`, if it exists: nothing
    /// when the view has no owning group, when the group has no column
    /// for `id`, or when the exclusive grant is denied because any grant
    /// is outstanding. A denial leaves the counter unchanged.
    ///
    /// This is the strict path: the grant outcome gates the handle.
    pub fn get_mut<T>(&self, archetype: &mut Archetype<T>, id: u64) -> (r: Option<RefMut>)
        requires
            old(archetype).wf(),
            self.in_group() && old(archetype).has_type(id) ==> self.slot() < old(
                archetype,
            ).num_slots(),
        ensures
            final(archetype).wf(),
            columns_unchanged(*old(archetype), *final(archetype)),
            !(self.in_group() && old(archetype).has_type(id)) ==> r is None && *final(archetype)
                == *old(archetype),
            self.in_group() && old(archetype).has_type(id) ==> (r is Some <==> grants_exclusive(
                old(archetype).word_at(old(archetype).index_of(id)),
            )),
            self.in_group() && old(archetype).has_type(id) ==> final(archetype).word_at(
                old(archetype).index_of(id),
            ) == after_acquire_exclusive(old(archetype).word_at(old(archetype).index_of(id))),
            self.in_group() && old(archetype).has_type(id) ==> counters_unchanged_except(
                *old(archetype),
                *final(archetype),
                old(archetype).index_of(id),
            ),
            r is Some ==> (r->0.type_id() == id && r->0.slot_index() == self.slot()),
    {
        if !self.grouped {
            return None;
        }
        match archetype.column_index(id) {
            None => None,
            Some(_) => {
                if archetype.borrow_mut(id) {
                    Some(RefMut { id, slot: self.index })
                } else {
                    None
                }
            },
        }
    }

    /// Borrow the component of type `id` through the ungated path: the
    /// handle is built whenever the view has a group and the group has
    /// the column, whether or not the shared grant was obtained.
    pub fn get_ungated<T>(&self, archetype: &mut Archetype<T>, id: u64) -> (r: Option<Ref>)
        requires
            old(archetype).wf(),
            self.in_group() && old(archetype).has_type(id) ==> self.slot() < old(
                archetype,
            ).num_slots(),
            self.in_group() && old(archetype).has_type(id) ==> count_of(
                old(archetype).word_at(old(archetype).index_of(id)),
            ) + 1 < UNIQUE_BIT,
        ensures
            final(archetype).wf(),
            columns_unchanged(*old(archetype), *final(archetype)),
            !(self.in_group() && old(archetype).has_type(id)) ==> r is None && *final(archetype)
                == *old(archetype),
            self.in_group() && old(archetype).has_type(id) ==> r is Some,
            self.in_group() && old(archetype).has_type(id) ==> final(archetype).word_at(
                old(archetype).index_of(id),
            ) == after_acquire_shared(old(archetype).word_at(old(archetype).index_of(id))),
            self.in_group() && old(archetype).has_type(id) ==> counters_unchanged_except(
                *old(archetype),
                *final(archetype),
                old(archetype).index_of(id),
            ),
            r is Some ==> (r->0.type_id() == id && r->0.slot_index() == self.slot()),
    {
        if !self.grouped {
            return None;
        }
        match Ref::new(archetype, self.index, id) {
            Ok(h) => Some(h),
            Err(_) => None,
        }
    }

    /// Uniquely borrow the component of type `id` through the ungated
    /// path: the handle is built whenever the view has a group and the
    /// group has the column, whether or not the exclusive grant was
    /// obtained.
    pub fn get_mut_ungated<T>(&self, archetype: &mut Archetype<T>, id: u64) -> (r: Option<RefMut>)
        requires
            old(archetype).wf(),
            self.in_group() && old(archetype).has_type(id) ==> self.slot() < old(
                archetype,
            ).num_slots(),
        ensures
            final(archetype).wf(),
            columns_unchanged(*old(archetype), *final(archetype)),
            !(self.in_group() && old(archetype).has_type(id)) ==> r is None && *final(archetype)
                == *old(archetype),
            self.in_group() && old(archetype).has_type(id) ==> r is Some,
            self.in_group() && old(archetype).has_type(id) ==> final(archetype).word_at(
                old(archetype).index_of(id),
            ) == after_acquire_exclusive(old(archetype).word_at(old(archetype).index_of(id))),
            self.in_group() && old(archetype).has_type(id) ==> counters_unchanged_except(
                *old(archetype),
                *final(archetype),
                old(archetype).index_of(id),
            ),
            r is Some ==> (r->0.type_id() == id && r->0.slot_index() == self.slot()),
    {
        if !self.grouped {
            return None;
        }
        match RefMut::new(archetype, self.index, id) {
            Ok(h) => Some(h),
            Err(_) => None,
        }
    }

    /// Enumerate the stable identifiers of every component type resident
    /// in the view's owning group, in the group's registration order;
    /// empty when the view has no group. The result is a pure function
    /// of the view and the group, so re-invoking it yields the same
    /// sequence again without mutating any state.
    pub fn component_types<T>(&self, archetype: &Archetype<T>) -> (r: Vec<u64>)
        ensures
            !self.in_group() ==> r@ == Seq::<u64>::empty(),
            self.in_group() ==> r@ == archetype.types_seq(),
    {
        let mut out: Vec<u64> = Vec::new();
        if !self.grouped {
            return out;
        }
        let ts = archetype.types();
        let n = ts.len();
        let mut i: usize = 0;
        while i < n
            invariant
                n == ts@.len(),
                ts@ == archetype.types_seq(),
                i <= n,
                out@ == archetype.types_seq().subrange(0, i as int),
            decreases n - i,
        {
            out.push(ts[i]);
            proof {
                assert(out@ =~= archetype.types_seq().subrange(0, i + 1 as int));
            }
            i = i + 1;
        }
        proof {
            assert(archetype.types_seq().subrange(0, n as int) =~= archetype.types_seq());
        }
        out
    }
}

} // verus!
