//! A column with handles of machine word size, and a column with a staging
//! copy of its values in another representation.

use vstd::prelude::*;
use vstd::std_specs::convert::FromSpec;

pub use crate::state::data::column::Entry;

use crate::state::data::column::entry_owners;
use crate::state::data::column::entry_values;
use crate::state::data::lift;
use crate::state::data::SlotModel;
use crate::state::data::HANDLE_LIMIT;

verus! {

/// A sequence of handles or dense indices, as mathematical integers.
pub open spec fn lift_word(s: Seq<usize>) -> Seq<int> {
    Seq::new(s.len(), |i: int| s[i] as int)
}

/// A sparse collection of `T` with stable handles.
///
/// The values lie in contiguous [`Entry`] slots; a handle is an index into a
/// slot map that never moves. Handle `0` is the nil handle: it points to the
/// degenerate element in dense slot `0`, is never handed out and cannot be
/// freed.
#[derive(Debug)]
pub struct Column<T: Default> {
    /// The slot map, indexed by handle: the dense index that each handle
    /// points to. Entries never move.
    indices: Vec<usize>,
    /// The entries, contiguous. Each holds, beside its value, the handle
    /// that points to it.
    contiguous: Vec<Entry<T>>,
    /// The handles that are free to be handed out again.
    free: Vec<usize>,
}

impl<T: Default> Default for Column<T> {
    /// The same column as [`Column::new`] makes.
    fn default() -> (column: Self)
        ensures
            column.wf(),
            column.model() == SlotModel::empty(column.model().dense[0]),
            call_ensures(T::default, (), column.model().dense[0]),
    {
        Self::new()
    }
}

impl<T: Default> Column<T> {
    /// The column as plain sequences.
    pub closed spec fn model(&self) -> SlotModel<T> {
        SlotModel {
            map: lift_word(self.indices@),
            dense: entry_values(self.contiguous@),
            owners: lift(entry_owners(self.contiguous@)),
            free: lift_word(self.free@),
        }
    }

    /// The column's invariant: that of its model, and every handle fits the
    /// owner field of an entry.
    pub open spec fn wf(&self) -> bool {
        self.model().wf() && self.model().map.len() <= HANDLE_LIMIT
    }

    /// The next `put` has a handle to hand out.
    pub open spec fn has_room(&self) -> bool {
        self.model().free.len() == 0 ==> self.model().map.len() < HANDLE_LIMIT
    }

    /// Create a column that holds only the degenerate element in dense
    /// slot `0`.
    pub fn new() -> (column: Self)
        ensures
            column.wf(),
            column.model() == SlotModel::empty(column.model().dense[0]),
            call_ensures(T::default, (), column.model().dense[0]),
    {
        Self::with_capacity(0)
    }

    /// Create a column with room for `capacity` entries before it has to
    /// grow. It holds only the degenerate element in dense slot `0`.
    pub fn with_capacity(capacity: usize) -> (column: Self)
        ensures
            column.wf(),
            column.model() == SlotModel::empty(column.model().dense[0]),
            call_ensures(T::default, (), column.model().dense[0]),
    {
        let mut stable_indices = Vec::with_capacity(capacity);
        let mut contiguous = Vec::with_capacity(capacity);

        stable_indices.push(0);
        contiguous.push(Entry::default());

        let column = Self { indices: stable_indices, contiguous, free: Vec::new() };
        proof {
            let model = column.model();
            let empty = SlotModel::empty(model.dense[0]);
            assert(model.map =~= empty.map);
            assert(model.dense =~= empty.dense);
            assert(model.owners =~= empty.owners);
            assert(model.free =~= empty.free);
            SlotModel::lemma_empty(model.dense[0]);
        }
        column
    }

    /// Mark the handle `index` as free.
    ///
    /// The value that `index` points to leaves the dense storage, the last
    /// value takes its place, and `index` joins the free list. Freeing a
    /// handle that points to nothing changes nothing.
    pub fn free(&mut self, index: usize)
        requires
            old(self).wf(),
            old(self).model().is_handle(index as int),
        ensures
            final(self).wf(),
            final(self).model() == old(self).model().release(index as int),
    {
        let ghost before = self.model();
        let slot = self.indices[index];
        proof {
            assert(before.map[index as int] == slot);
            before.lemma_release_wf(index as int);
        }
        if slot == 0 {
            return ;
        }
        let last = self.contiguous.len() - 1;
        let owner_last = self.contiguous[last].owner();
        proof {
            assert(before.is_live(index as int));
            assert(before.owners[last as int] == owner_last);
            assert(before.is_handle(before.owners[last as int]));
        }

        self.indices[index] = 0;
        if slot != last {
            self.indices[owner_last as usize] = slot;
        }
        self.contiguous.swap_remove(slot);
        self.free.push(index);

        proof {
            let after = self.model();
            let expect = before.release(index as int);
            assert(after.map =~= expect.map);
            assert(after.dense =~= expect.dense);
            assert(after.owners =~= expect.owners);
            assert(after.free =~= expect.free);
        }
    }

    /// Takes the handle for the next value: the one that was freed last, or,
    /// where no handle is free, a new one at the end of the slot map.
    ///
    /// A new handle points to nothing yet: its slot holds `0` until `put`
    /// stores a dense index there.
    fn next_slot_index(&mut self) -> (index: usize)
        ensures
            final(self).contiguous@ == old(self).contiguous@,
            old(self).free@.len() > 0 ==> {
                &&& index == old(self).free@.last()
                &&& final(self).free@ == old(self).free@.drop_last()
                &&& final(self).indices@ == old(self).indices@
            },
            old(self).free@.len() == 0 ==> {
                &&& index == old(self).indices@.len()
                &&& final(self).free@ == old(self).free@
                &&& final(self).indices@ == old(self).indices@.push(0usize)
            },
    {
        if let Some(free) = self.free.pop() {
            free
        } else {
            let i = self.indices.len();
            self.indices.push(0);
            i
        }
    }

    /// Add a `value` to the column.
    ///
    /// The handle is the one that was freed last; where no handle is free,
    /// the slot map grows by one.
    pub fn put(&mut self, value: T) -> (handle: usize)
        requires
            old(self).wf(),
            old(self).has_room(),
        ensures
            final(self).wf(),
            handle == old(self).model().next_handle(),
            final(self).model() == old(self).model().put(value),
    {
        let ghost before = self.model();
        proof {
            before.lemma_next_handle();
            before.lemma_put_wf(value);
        }
        let index = self.next_slot_index();
        let slot = self.contiguous.len();
        self.indices[index] = slot;
        self.contiguous.push(Entry::new(index as u32, value));
        proof {
            let after = self.model();
            let expect = before.put(value);
            assert(after.map =~= expect.map);
            assert(after.dense =~= expect.dense);
            assert(after.owners =~= expect.owners);
            assert(after.free =~= expect.free);
        }
        index
    }

    /// Get the value that the handle `index` points to. For a handle that
    /// points to nothing this is the degenerate element.
    pub fn get_indirect(&self, index: usize) -> (value: &T)
        requires
            self.wf(),
            0 <= index < self.model().map.len(),
        ensures
            *value == self.model().value(index as int),
    {
        proof {
            assert(self.model().map[index as int] == self.indices@[index as int]);
        }
        let slot = self.indices[index];
        self.contiguous[slot].inner_value()
    }

    /// Get the value in the dense slot `direct_index`.
    pub fn get_direct(&self, direct_index: usize) -> (value: &T)
        requires
            direct_index < self.model().dense.len(),
        ensures
            *value == self.model().dense[direct_index as int],
    {
        self.contiguous[direct_index].inner_value()
    }

    /// Get the value that the handle `index` points to, for writing.
    ///
    /// Nothing but that value changes.
    pub fn get_indirect_mut(&mut self, index: usize) -> (value: &mut T)
        requires
            old(self).wf(),
            0 <= index < old(self).model().map.len(),
        ensures
            *value == old(self).model().value(index as int),
            final(self).model() == (SlotModel {
                dense: old(self).model().dense.update(
                    old(self).model().map[index as int],
                    *final(value),
                ),
                ..old(self).model()
            }),
    {
        proof {
            assert(self.model().map[index as int] == self.indices@[index as int]);
        }
        let slot = self.indices[index];
        self.get_direct_mut(slot)
    }

    /// Get the value in the dense slot `direct_index`, for writing.
    ///
    /// Nothing but that value changes.
    pub fn get_direct_mut(&mut self, direct_index: usize) -> (value: &mut T)
        requires
            direct_index < old(self).model().dense.len(),
        ensures
            *value == old(self).model().dense[direct_index as int],
            final(self).model() == (SlotModel {
                dense: old(self).model().dense.update(direct_index as int, *final(value)),
                ..old(self).model()
            }),
    {
        let entry = &mut self.contiguous[direct_index];
        entry.inner_value_mut()
    }

    /// Get the values without the degenerate element in dense slot `0`, in
    /// dense order.
    pub fn iter(&self) -> (values: Vec<&T>)
        requires
            self.model().dense.len() >= 1,
        ensures
            values@.len() == self.model().dense.len() - 1,
            forall|i: int| 0 <= i < values@.len() ==> *#[trigger] values@[i] == self.model().dense[i + 1],
    {
        let mut values: Vec<&T> = Vec::new();
        let mut i: usize = 1;
        while i < self.contiguous.len()
            invariant
                1 <= i <= self.contiguous@.len(),
                values@.len() == i - 1,
                forall|k: int|
                    0 <= k < values@.len() ==> *#[trigger] values@[k] == self.model().dense[k + 1],
            decreases self.contiguous@.len() - i,
        {
            values.push(self.contiguous[i].inner_value());
            i += 1;
        }
        values
    }

    /// Get the entries for writing, without the degenerate element in dense
    /// slot `0`, in dense order. Each value is reached through
    /// [`Entry::inner_value_mut`].
    ///
    /// The slot map and the free list stay as they are. The column stays
    /// well formed as long as each entry keeps its owner.
    pub fn iter_mut(&mut self) -> (entries: &mut [Entry<T>])
        requires
            old(self).model().dense.len() >= 1,
        ensures
            entries@.len() == old(self).model().dense.len() - 1,
            forall|i: int|
                0 <= i < entries@.len() ==> (#[trigger] entries@[i]).value_spec() == old(
                    self,
                ).model().dense[i + 1],
            forall|i: int|
                0 <= i < entries@.len() ==> (#[trigger] entries@[i]).owner_spec() == old(
                    self,
                ).model().owners[i + 1],
            final(self).model().map == old(self).model().map,
            final(self).model().free == old(self).model().free,
            final(self).model().dense == old(self).model().dense.subrange(0, 1) + entry_values(
                final(entries)@,
            ),
            final(self).model().owners == old(self).model().owners.subrange(0, 1) + lift(
                entry_owners(final(entries)@),
            ),
    {
        let (_, entries) = self.contiguous.as_mut_slice().split_at_mut(1);
        entries
    }

    /// The slot map: the dense index that each handle points to.
    pub fn indirect(&self) -> (map: &[usize])
        ensures
            lift_word(map@) == self.model().map,
    {
        self.indices.as_slice()
    }

    /// Get the entries, contiguous.
    ///
    /// Each entry holds, beside its value, the handle that anything outside
    /// the column uses to refer to it. The degenerate element in dense slot
    /// `0` is included.
    pub fn contiguous(&self) -> (entries: &[Entry<T>])
        ensures
            entry_values(entries@) == self.model().dense,
            lift(entry_owners(entries@)) == self.model().owners,
    {
        self.contiguous.as_slice()
    }
}

impl<T: Default> IntoIterator for Column<T> {
    type Item = Entry<T>;

    type IntoIter = std::vec::IntoIter<Self::Item>;

    /// Walk the entries in dense order, the degenerate element first.
    fn into_iter(self) -> (iter: Self::IntoIter)
        ensures
            entry_values(vstd::std_specs::iter::IteratorSpec::remaining(&iter))
                == self.model().dense,
            lift(entry_owners(vstd::std_specs::iter::IteratorSpec::remaining(&iter)))
                == self.model().owners,
    {
        self.contiguous.into_iter()
    }
}

/// A column together with a staging copy of its values in another
/// representation, such as the one that is uploaded.
#[derive(Debug, Default)]
pub struct StagingColumn<Lo: Default, Re: Default> {
    inner: Column<Lo>,
    stage: Vec<Re>,
}

impl<T, S> StagingColumn<T, S> where T: Default, S: Default {
    /// The column that is staged.
    pub closed spec fn column(&self) -> Column<T> {
        self.inner
    }

    /// The staging copy.
    pub closed spec fn staged(&self) -> Seq<S> {
        self.stage@
    }

    /// How many values one synchronisation converts: the values behind the
    /// degenerate element, as far as the staging copy has room.
    pub open spec fn synced(&self) -> int {
        if self.column().model().dense.len() - 1 <= self.staged().len() {
            self.column().model().dense.len() - 1
        } else {
            self.staged().len() as int
        }
    }

    /// The staging copy.
    pub fn pod(&self) -> (staged: &[S])
        ensures
            staged@ == self.staged(),
    {
        self.stage.as_slice()
    }

    /// The column, for writing. The staging copy stays as it is until the
    /// next synchronisation.
    pub fn column_mut(&mut self) -> (column: &mut Column<T>)
        ensures
            *column == old(self).column(),
            final(self).column() == *final(column),
            final(self).staged() == old(self).staged(),
    {
        &mut self.inner
    }
}

impl<T, S> StagingColumn<T, S> where T: Default, S: Default + From<T> {
    /// Create an empty column, with one default element staged.
    pub fn new() -> (staging: Self)
        ensures
            staging.column().wf(),
            staging.column().model() == SlotModel::empty(staging.column().model().dense[0]),
            call_ensures(T::default, (), staging.column().model().dense[0]),
            staging.staged().len() == 1,
            call_ensures(S::default, (), staging.staged()[0]),
    {
        let mut stage = Vec::new();
        stage.push(S::default());

        Self { inner: Column::new(), stage }
    }

    /// Create an empty column with room for `capacity` values, with one
    /// default element staged.
    pub fn with_capacity(capacity: usize) -> (staging: Self)
        ensures
            staging.column().wf(),
            staging.column().model() == SlotModel::empty(staging.column().model().dense[0]),
            call_ensures(T::default, (), staging.column().model().dense[0]),
            staging.staged().len() == 1,
            call_ensures(S::default, (), staging.staged()[0]),
    {
        let mut stage = Vec::with_capacity(capacity);
        stage.push(S::default());

        Self { inner: Column::with_capacity(capacity), stage }
    }

}

impl<T, S> StagingColumn<T, S> where T: Default + Clone + Copy, S: Default {
    /// Convert the values of the column into the staging copy with
    /// `convert`.
    ///
    /// The values are taken in dense order from the one behind the degenerate
    /// element on, and written from the start of the staging copy, which
    /// keeps its length.
    pub fn sync_stage_with<F: Fn(T) -> S>(&mut self, convert: F)
        requires
            old(self).column().model().dense.len() >= 1,
            forall|i: int|
                1 <= i < old(self).column().model().dense.len() ==> call_requires(
                    convert,
                    (#[trigger] old(self).column().model().dense[i],),
                ),
        ensures
            final(self).column() == old(self).column(),
            final(self).staged().len() == old(self).staged().len(),
            forall|i: int|
                0 <= i < old(self).synced() ==> call_ensures(
                    convert,
                    (old(self).column().model().dense[i + 1],),
                    #[trigger] final(self).staged()[i],
                ),
            forall|i: int|
                old(self).synced() <= i < old(self).staged().len() ==> #[trigger] final(self).staged()[i]
                    == old(self).staged()[i],
    {
        let count = self.inner.contiguous().len();
        let mut i: usize = 0;
        while i + 1 < count && i < self.stage.len()
            invariant
                self.inner == old(self).inner,
                count == self.inner.model().dense.len(),
                count >= 1,
                self.stage@.len() == old(self).stage@.len(),
                0 <= i <= old(self).synced(),
                forall|k: int|
                    1 <= k < self.inner.model().dense.len() ==> call_requires(
                        convert,
                        (#[trigger] self.inner.model().dense[k],),
                    ),
                forall|k: int|
                    0 <= k < i ==> call_ensures(
                        convert,
                        (self.inner.model().dense[k + 1],),
                        #[trigger] self.stage@[k],
                    ),
                forall|k: int|
                    i <= k < self.stage@.len() ==> #[trigger] self.stage@[k] == old(self).stage@[k],
            decreases count - i,
        {
            let value = *self.inner.get_direct(i + 1);
            self.stage[i] = convert(value);
            i += 1;
        }
    }
}

impl<T, S> StagingColumn<T, S> where T: Default + Clone + Copy, S: Default + From<T> {
    /// Convert the values of the column into the staging copy.
    ///
    /// The values are taken in dense order from the one behind the degenerate
    /// element on, and written from the start of the staging copy, which
    /// keeps its length.
    pub fn sync_stage(&mut self)
        requires
            old(self).column().model().dense.len() >= 1,
        ensures
            final(self).column() == old(self).column(),
            final(self).staged().len() == old(self).staged().len(),
            forall|i: int|
                0 <= i < old(self).synced() ==> call_ensures(
                    S::from,
                    (old(self).column().model().dense[i + 1],),
                    #[trigger] final(self).staged()[i],
                ),
            S::obeys_from_spec() ==> forall|i: int|
                0 <= i < old(self).synced() ==> #[trigger] final(self).staged()[i] == S::from_spec(
                    old(self).column().model().dense[i + 1],
                ),
            forall|i: int|
                old(self).synced() <= i < old(self).staged().len() ==> #[trigger] final(self).staged()[i]
                    == old(self).staged()[i],
    {
        let count = self.inner.contiguous().len();
        let mut i: usize = 0;
        while i + 1 < count && i < self.stage.len()
            invariant
                self.inner == old(self).inner,
                count == self.inner.model().dense.len(),
                count >= 1,
                self.stage@.len() == old(self).stage@.len(),
                0 <= i <= old(self).synced(),
                forall|k: int|
                    0 <= k < i ==> call_ensures(
                        S::from,
                        (self.inner.model().dense[k + 1],),
                        #[trigger] self.stage@[k],
                    ),
                S::obeys_from_spec() ==> forall|k: int|
                    0 <= k < i ==> #[trigger] self.stage@[k] == S::from_spec(
                        self.inner.model().dense[k + 1],
                    ),
                forall|k: int|
                    i <= k < self.stage@.len() ==> #[trigger] self.stage@[k] == old(self).stage@[k],
            decreases count - i,
        {
            let value = *self.inner.get_direct(i + 1);
            self.stage[i] = S::from(value);
            i += 1;
        }
    }
}

impl<T, S> std::ops::Deref for StagingColumn<T, S> where T: Default, S: Default + From<T> {
    type Target = Column<T>;

    fn deref(&self) -> (column: &Self::Target)
        ensures
            *column == self.column(),
    {
        &self.inner
    }
}

} // verus!
