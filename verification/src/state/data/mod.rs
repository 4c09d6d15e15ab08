//! Sparse columns with stable handles.
//!
//! A column keeps its values in one contiguous ("dense") array, so that they
//! can be walked and uploaded as a block, and hands out handles that stay
//! valid while values are moved around inside that array.

use vstd::prelude::*;

pub mod column;
pub mod hash;
pub mod model;

pub use model::SlotModel;
pub use model::SlotOp;

verus! {

/// One more than the largest handle that fits a slot of the slot map.
pub const HANDLE_LIMIT: u64 = 0x1_0000_0000;

/// A sequence of handles or dense indices, as mathematical integers.
pub open spec fn lift(s: Seq<u32>) -> Seq<int> {
    Seq::new(s.len(), |i: int| s[i] as int)
}

/// The bookkeeping of a sparse collection: the slot map, which is indexed by
/// handle, and the list of the handles that are free to be handed out again.
pub trait SparseSlot: Default {
    /// The slot map.
    spec fn map_view(&self) -> Seq<u32>;

    /// The free list.
    spec fn free_view(&self) -> Seq<u32>;

    /// `other` holds the same values, in the same dense slots with the same
    /// owners, as `self`: the two differ at most in slot map and free list.
    spec fn same_storage(&self, other: &Self) -> bool;

    /// Having the same storage carries over from one pair to the next.
    proof fn lemma_same_storage_chain(&self, mid: &Self, other: &Self)
        requires
            self.same_storage(mid),
            mid.same_storage(other),
        ensures
            self.same_storage(other),
    ;

    fn slots_map(&self) -> (map: &Vec<u32>)
        ensures
            map@ == self.map_view(),
    ;

    fn slots_map_mut(&mut self) -> (map: &mut Vec<u32>)
        ensures
            map@ == old(self).map_view(),
            final(self).map_view() == final(map)@,
            final(self).free_view() == old(self).free_view(),
            old(self).same_storage(final(self)),
    ;

    fn free_list(&self) -> (free: &Vec<u32>)
        ensures
            free@ == self.free_view(),
    ;

    fn free_list_mut(&mut self) -> (free: &mut Vec<u32>)
        ensures
            free@ == old(self).free_view(),
            final(self).free_view() == final(free)@,
            final(self).map_view() == old(self).map_view(),
            old(self).same_storage(final(self)),
    ;

    /// Takes the handle for the next value: the one that was freed last, or,
    /// where no handle is free, a new one at the end of the slot map.
    ///
    /// A new handle points to nothing yet: its slot holds `0` until the
    /// caller stores a dense index there.
    fn next_slot_index(&mut self) -> (index: u32)
        requires
            old(self).free_view().len() == 0 ==> old(self).map_view().len() < HANDLE_LIMIT,
        ensures
            old(self).same_storage(final(self)),
            old(self).free_view().len() > 0 ==> {
                &&& index == old(self).free_view().last()
                &&& final(self).free_view() == old(self).free_view().drop_last()
                &&& final(self).map_view() == old(self).map_view()
            },
            old(self).free_view().len() == 0 ==> {
                &&& index == old(self).map_view().len()
                &&& final(self).free_view() == old(self).free_view()
                &&& final(self).map_view() == old(self).map_view().push(0u32)
            },
    {
        if let Some(cached_index) = self.free_list_mut().pop() {
            cached_index
        } else {
            let ghost mid = *self;
            let new_index = self.slots_map().len() as u32;
            self.slots_map_mut().push(0);
            proof {
                old(self).lemma_same_storage_chain(&mid, self);
            }
            new_index
        }
    }
}

/// A sparse collection of `T` with stable handles.
///
/// Handle `0` is the nil handle: it points to the degenerate element in dense
/// slot `0`, is never handed out and cannot be freed.
pub trait Column<T: Default>: SparseSlot + Default {
    /// The values, by dense slot.
    spec fn dense_view(&self) -> Seq<T>;

    /// The handle that owns each dense slot.
    spec fn owner_view(&self) -> Seq<u32>;

    /// Collections with the same storage hold the same values and owners.
    proof fn lemma_same_storage(&self, other: &Self)
        requires
            self.same_storage(other),
        ensures
            self.dense_view() == other.dense_view(),
            self.owner_view() == other.owner_view(),
    ;

    /// The column as plain sequences.
    open spec fn model(&self) -> SlotModel<T> {
        SlotModel {
            map: lift(self.map_view()),
            dense: self.dense_view(),
            owners: lift(self.owner_view()),
            free: lift(self.free_view()),
        }
    }

    /// The column's invariant: that of its model, and every handle fits a
    /// slot of the slot map.
    open spec fn wf(&self) -> bool {
        self.model().wf() && self.map_view().len() <= HANDLE_LIMIT
    }

    /// The next `put` has a handle to hand out.
    open spec fn has_room(&self) -> bool {
        self.free_view().len() == 0 ==> self.map_view().len() < HANDLE_LIMIT
    }

    /// The total amount of initialised slots.
    ///
    /// This includes the slots of handles that point to nothing, as it is a
    /// sparse collection.
    fn size(&self) -> (size: usize)
        ensures
            size == self.map_view().len(),
    ;

    /// The total length of the contiguous data.
    fn len(&self) -> (len: usize)
        ensures
            len == self.dense_view().len(),
    ;

    /// Get the dense index that `slot` points to, if `slot` is within the
    /// slot map.
    ///
    /// The returned index is not stable: it changes as values are moved
    /// around in the dense storage.
    fn get_indirect(&self, slot: u32) -> (index: Option<u32>)
        ensures
            index == if slot < self.map_view().len() {
                Some(self.map_view()[slot as int])
            } else {
                None
            },
    {
        let map = self.slots_map();
        if (slot as usize) < map.len() {
            Some(map[slot as usize])
        } else {
            None
        }
    }

    /// Get the dense index that `slot` points to.
    fn get_indirect_unchecked(&self, slot: u32) -> (index: u32)
        requires
            slot < self.map_view().len(),
        ensures
            index == self.map_view()[slot as int],
    {
        self.slots_map()[slot as usize]
    }

    /// Mark the handle `slot` as free.
    ///
    /// The value that `slot` points to leaves the dense storage, the last
    /// value takes its place, and `slot` joins the free list. Freeing a
    /// handle that points to nothing changes nothing.
    fn free(&mut self, slot: u32)
        requires
            old(self).wf(),
            old(self).model().is_handle(slot as int),
        ensures
            final(self).wf(),
            final(self).model() == old(self).model().release(slot as int),
    ;

    /// Add `value` to the dense storage.
    ///
    /// The handle is the one that was freed last; where no handle is free,
    /// the slot map grows by one.
    fn put(&mut self, value: T) -> (handle: u32)
        requires
            old(self).wf(),
            old(self).has_room(),
        ensures
            final(self).wf(),
            handle == old(self).model().next_handle(),
            final(self).model() == old(self).model().put(value),
    ;
}

} // verus!
