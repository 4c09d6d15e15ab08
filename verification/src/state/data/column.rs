//! The columns: three layouts of the same sparse collection.

use vstd::prelude::*;
use vstd::slice::slice_subrange;

use crate::state::data::Column;
use crate::state::data::SlotModel;
use crate::state::data::SparseSlot;

verus! {

/// An entry of an [`IndexArrayColumn`]: a value together with the handle
/// that owns it.
///
/// The owner takes four bytes. For the entries to fill cache lines evenly the
/// value should take 4, 12, 28 or 60 bytes.
#[derive(Debug)]
pub struct Entry<T> {
    inner: T,
    owner: u32,
}

impl<T: Clone> Clone for Entry<T> {
    /// A copy of the entry: the same owner, and a clone of the value.
    fn clone(&self) -> (entry: Self)
        ensures
            entry.owner_spec() == self.owner_spec(),
            cloned(self.value_spec(), entry.value_spec()),
    {
        Entry { inner: self.inner.clone(), owner: self.owner }
    }
}

impl<T: Default> Default for Entry<T> {
    /// An entry that the nil handle owns, with a default value.
    fn default() -> (entry: Self)
        ensures
            entry.owner_spec() == 0,
            call_ensures(T::default, (), entry.value_spec()),
    {
        Entry { inner: T::default(), owner: 0 }
    }
}

impl<T> Entry<T> {
    /// The handle that owns this entry.
    pub closed spec fn owner_spec(&self) -> u32 {
        self.owner
    }

    /// The value of this entry.
    pub closed spec fn value_spec(&self) -> T {
        self.inner
    }

    /// An entry that `owner` owns.
    pub fn new(owner: u32, value: T) -> (entry: Self)
        ensures
            entry.owner_spec() == owner,
            entry.value_spec() == value,
    {
        Self { owner, inner: value }
    }

    /// Get the handle that points to this entry in its column.
    ///
    /// It is the handle that anything outside the column uses to refer to
    /// this entry, and it is stable: it can be kept to track the value
    /// without copying it.
    pub fn owner(&self) -> (owner: u32)
        ensures
            owner == self.owner_spec(),
    {
        self.owner
    }

    /// The value of the entry.
    pub fn inner_value(&self) -> (value: &T)
        ensures
            *value == self.value_spec(),
    {
        &self.inner
    }

    /// Get the value for writing. The owner stays as it is.
    pub fn inner_value_mut(&mut self) -> (value: &mut T)
        ensures
            *value == old(self).value_spec(),
            final(self).value_spec() == *final(value),
            final(self).owner_spec() == old(self).owner_spec(),
    {
        &mut self.inner
    }
}

/// The values of a sequence of entries.
pub open spec fn entry_values<T>(entries: Seq<Entry<T>>) -> Seq<T> {
    Seq::new(entries.len(), |i: int| entries[i].value_spec())
}

/// The owners of a sequence of entries.
pub open spec fn entry_owners<T>(entries: Seq<Entry<T>>) -> Seq<u32> {
    Seq::new(entries.len(), |i: int| entries[i].owner_spec())
}

/// Access to the dense storage of a column as one block.
///
/// `R` is what the column stores for each `T`: the value itself, or an
/// [`Entry`] around it.
pub trait IterColumn<'iter, T, R> where T: Default, R: Default + 'iter {
    /// The dense storage, degenerate element included.
    spec fn stored(&self) -> Seq<R>;

    fn contiguous(&self) -> (block: &[R])
        ensures
            block@ == self.stored(),
    ;

    fn contiguous_mut(&mut self) -> (block: &mut [R])
        ensures
            block@ == old(self).stored(),
            final(self).stored() == final(block)@,
    ;

    /// Get the stored data without the degenerate element in dense
    /// slot `0`, in dense order.
    fn iter(&'iter self) -> (block: &'iter [R])
        requires
            self.stored().len() >= 1,
        ensures
            block@ == self.stored().subrange(1, self.stored().len() as int),
    {
        let block = self.contiguous();
        slice_subrange(block, 1, block.len())
    }

    /// Get the stored data for writing, without the degenerate element in
    /// dense slot `0`, in dense order.
    fn iter_mut(&'iter mut self) -> (block: &'iter mut [R])
        requires
            old(self).stored().len() >= 1,
        ensures
            block@ == old(self).stored().subrange(1, old(self).stored().len() as int),
            final(self).stored() == old(self).stored().subrange(0, 1) + final(block)@,
    {
        let (_, block) = self.contiguous_mut().split_at_mut(1);
        block
    }
}

/// A column that keeps the owner of each value in an array of its own,
/// parallel to the values.
///
/// The values lie back to back without any metadata between them, so they
/// can be copied out as one block; so can the owners.
#[derive(Debug)]
pub struct ParallelIndexArrayColumn<T: Default> {
    /// The slot map, indexed by handle: the dense index that each handle
    /// points to. Entries never move.
    indices: Vec<u32>,
    /// The values, contiguous.
    contiguous: Vec<T>,
    /// The handles that are free to be handed out again.
    free: Vec<u32>,
    /// The handle that owns each value; parallel to `contiguous`.
    owners: Vec<u32>,
}

impl<T: Default> Default for ParallelIndexArrayColumn<T> {
    /// The same column as [`ParallelIndexArrayColumn::new`] makes.
    fn default() -> (column: Self)
        ensures
            column.is_fresh(),
    {
        let mut indices = Vec::new();
        let mut contiguous = Vec::new();
        let mut owners = Vec::new();

        indices.push(0);
        contiguous.push(T::default());
        owners.push(0);

        Self { indices, contiguous, owners, free: Vec::new() }
    }
}

impl<T: Default> ParallelIndexArrayColumn<T> {
    /// The column holds one value, a default value of `T` in dense slot `0`,
    /// and no handle but the nil handle.
    pub closed spec fn is_fresh(&self) -> bool {
        &&& self.indices@ == seq![0u32]
        &&& self.owners@ == seq![0u32]
        &&& self.free@ == Seq::<u32>::empty()
        &&& self.contiguous@.len() == 1
        &&& call_ensures(T::default, (), self.contiguous@[0])
    }

    /// A fresh column is the empty column.
    pub proof fn lemma_fresh(&self)
        requires
            self.is_fresh(),
        ensures
            self.wf(),
            self.model() == SlotModel::empty(self.dense_view()[0]),
            call_ensures(T::default, (), self.dense_view()[0]),
    {
        let model = self.model();
        let empty = SlotModel::empty(self.dense_view()[0]);
        assert(model.map =~= empty.map);
        assert(model.dense =~= empty.dense);
        assert(model.owners =~= empty.owners);
        assert(model.free =~= empty.free);
        SlotModel::lemma_empty(self.dense_view()[0]);
    }

    /// Create a column that holds only the degenerate element in dense
    /// slot `0`.
    pub fn new() -> (column: Self)
        ensures
            column.wf(),
            column.model() == SlotModel::empty(column.dense_view()[0]),
            call_ensures(T::default, (), column.dense_view()[0]),
    {
        Self::with_capacity(0)
    }

    /// Create a column with room for `capacity` values before it has to
    /// grow. It holds only the degenerate element in dense slot `0`.
    pub fn with_capacity(capacity: usize) -> (column: Self)
        ensures
            column.wf(),
            column.model() == SlotModel::empty(column.dense_view()[0]),
            call_ensures(T::default, (), column.dense_view()[0]),
    {
        let mut stable_indices = Vec::with_capacity(capacity);
        let mut contiguous = Vec::with_capacity(capacity);
        let mut owners = Vec::with_capacity(capacity);

        stable_indices.push(0);
        contiguous.push(T::default());
        owners.push(0);

        let column = Self { indices: stable_indices, contiguous, owners, free: Vec::new() };
        proof {
            column.lemma_fresh();
        }
        column
    }

    /// The handle that owns each dense slot, parallel to the values.
    pub fn handles(&self) -> (handles: &[u32])
        ensures
            handles@ == self.owner_view(),
    {
        self.owners.as_slice()
    }
}

impl<T: Default> SparseSlot for ParallelIndexArrayColumn<T> {
    closed spec fn map_view(&self) -> Seq<u32> {
        self.indices@
    }

    closed spec fn free_view(&self) -> Seq<u32> {
        self.free@
    }

    closed spec fn same_storage(&self, other: &Self) -> bool {
        self.contiguous@ == other.contiguous@ && self.owners@ == other.owners@
    }

    proof fn lemma_same_storage_chain(&self, mid: &Self, other: &Self) {
    }

    fn slots_map(&self) -> (map: &Vec<u32>) {
        &self.indices
    }

    fn slots_map_mut(&mut self) -> (map: &mut Vec<u32>) {
        &mut self.indices
    }

    fn free_list(&self) -> (free: &Vec<u32>) {
        &self.free
    }

    fn free_list_mut(&mut self) -> (free: &mut Vec<u32>) {
        &mut self.free
    }
}

impl<T: Default> Column<T> for ParallelIndexArrayColumn<T> {
    closed spec fn dense_view(&self) -> Seq<T> {
        self.contiguous@
    }

    closed spec fn owner_view(&self) -> Seq<u32> {
        self.owners@
    }

    proof fn lemma_same_storage(&self, other: &Self) {
    }

    fn len(&self) -> (len: usize) {
        self.contiguous.len()
    }

    fn size(&self) -> (size: usize) {
        self.indices.len()
    }

    fn free(&mut self, slot: u32) {
        let ghost before = self.model();
        let contiguous_slot = self.indices[slot as usize];
        proof {
            assert(before.map[slot as int] == contiguous_slot);
            before.lemma_release_wf(slot as int);
        }
        if contiguous_slot == 0 {
            return ;
        }
        let last = self.owners.len() - 1;
        let last_owner = self.owners[last];
        proof {
            assert(before.is_live(slot as int));
            assert(before.owners[last as int] == last_owner);
            assert(before.is_handle(before.owners[last as int]));
        }

        self.indices[slot as usize] = 0;
        if contiguous_slot as usize != last {
            self.indices[last_owner as usize] = contiguous_slot;
        }
        self.owners.swap_remove(contiguous_slot as usize);
        self.contiguous.swap_remove(contiguous_slot as usize);
        self.free.push(slot);

        proof {
            let after = self.model();
            let expect = before.release(slot as int);
            assert(after.map =~= expect.map);
            assert(after.dense =~= expect.dense);
            assert(after.owners =~= expect.owners);
            assert(after.free =~= expect.free);
        }
    }

    fn put(&mut self, value: T) -> (handle: u32) {
        let ghost before = self.model();
        proof {
            before.lemma_next_handle();
            before.lemma_put_wf(value);
        }
        let index = self.next_slot_index();
        proof {
            old(self).lemma_same_storage(self);
        }
        let slot = self.contiguous.len();
        self.indices[index as usize] = slot as u32;
        self.contiguous.push(value);
        self.owners.push(index);
        proof {
            let after = self.model();
            let expect = before.put(value);
            assert(after.map =~= expect.map);
            assert(after.dense =~= expect.dense);
            assert(after.owners =~= expect.owners);
            assert(after.free =~= expect.free);
        }
        index
    }
}

impl<'iter, T: Default + 'iter> IterColumn<'iter, T, T> for ParallelIndexArrayColumn<T> {
    open spec fn stored(&self) -> Seq<T> {
        self.dense_view()
    }

    fn contiguous(&self) -> (block: &[T])
        ensures
            block@ == self.dense_view(),
    {
        self.contiguous.as_slice()
    }

    /// Get the values for writing. Handles, owners and free list stay as
    /// they are, and so does the number of values.
    fn contiguous_mut(&mut self) -> (block: &mut [T])
        ensures
            block@ == old(self).dense_view(),
            final(self).dense_view() == final(block)@,
            final(self).map_view() == old(self).map_view(),
            final(self).owner_view() == old(self).owner_view(),
            final(self).free_view() == old(self).free_view(),
    {
        self.contiguous.as_mut_slice()
    }
}

impl<T: Default> IntoIterator for ParallelIndexArrayColumn<T> {
    type Item = T;

    type IntoIter = std::vec::IntoIter<T>;

    /// Walk the values in dense order, the degenerate element first.
    fn into_iter(self) -> (iter: Self::IntoIter)
        ensures
            vstd::std_specs::iter::IteratorSpec::remaining(&iter) == self.dense_view(),
    {
        self.contiguous.into_iter()
    }
}

/// A column of [`Entry`] values: each value lies next to the handle that
/// owns it.
#[derive(Debug)]
pub struct IndexArrayColumn<T: Default> {
    /// The slot map, indexed by handle: the dense index that each handle
    /// points to. Entries never move.
    indices: Vec<u32>,
    /// The entries, contiguous.
    contiguous: Vec<Entry<T>>,
    /// The handles that are free to be handed out again.
    free: Vec<u32>,
}

impl<T: Default> Default for IndexArrayColumn<T> {
    /// The same column as [`IndexArrayColumn::new`] makes.
    fn default() -> (column: Self)
        ensures
            column.is_fresh(),
    {
        let mut indices = Vec::new();
        let mut contiguous = Vec::new();

        indices.push(0);
        contiguous.push(Entry::default());

        Self { indices, contiguous, free: Vec::new() }
    }
}

impl<T: Default> IndexArrayColumn<T> {
    /// The entries, by dense slot.
    pub closed spec fn entries(&self) -> Seq<Entry<T>> {
        self.contiguous@
    }

    /// The column holds one entry, with a default value of `T` in dense
    /// slot `0`, and no handle but the nil handle.
    pub closed spec fn is_fresh(&self) -> bool {
        &&& self.indices@ == seq![0u32]
        &&& self.free@ == Seq::<u32>::empty()
        &&& self.contiguous@.len() == 1
        &&& self.contiguous@[0].owner == 0
        &&& call_ensures(T::default, (), self.contiguous@[0].inner)
    }

    /// A fresh column is the empty column.
    pub proof fn lemma_fresh(&self)
        requires
            self.is_fresh(),
        ensures
            self.wf(),
            self.model() == SlotModel::empty(self.dense_view()[0]),
            call_ensures(T::default, (), self.dense_view()[0]),
    {
        let model = self.model();
        let empty = SlotModel::empty(self.dense_view()[0]);
        assert(model.map =~= empty.map);
        assert(model.dense =~= empty.dense);
        assert(model.owners =~= empty.owners);
        assert(model.free =~= empty.free);
        SlotModel::lemma_empty(self.dense_view()[0]);
    }

    /// Create a column that holds only the degenerate element in dense
    /// slot `0`.
    pub fn new() -> (column: Self)
        ensures
            column.wf(),
            column.model() == SlotModel::empty(column.dense_view()[0]),
            call_ensures(T::default, (), column.dense_view()[0]),
    {
        Self::with_capacity(0)
    }

    /// Create a column with room for `capacity` entries before it has to
    /// grow. It holds only the degenerate element in dense slot `0`.
    pub fn with_capacity(capacity: usize) -> (column: Self)
        ensures
            column.wf(),
            column.model() == SlotModel::empty(column.dense_view()[0]),
            call_ensures(T::default, (), column.dense_view()[0]),
    {
        let mut stable_indices = Vec::with_capacity(capacity);
        let mut contiguous = Vec::with_capacity(capacity);

        stable_indices.push(0);
        contiguous.push(Entry::default());

        let column = Self { indices: stable_indices, contiguous, free: Vec::new() };
        proof {
            column.lemma_fresh();
        }
        column
    }
}

impl<T: Default> SparseSlot for IndexArrayColumn<T> {
    closed spec fn map_view(&self) -> Seq<u32> {
        self.indices@
    }

    closed spec fn free_view(&self) -> Seq<u32> {
        self.free@
    }

    closed spec fn same_storage(&self, other: &Self) -> bool {
        self.contiguous@ == other.contiguous@
    }

    proof fn lemma_same_storage_chain(&self, mid: &Self, other: &Self) {
    }

    fn slots_map(&self) -> (map: &Vec<u32>) {
        &self.indices
    }

    fn slots_map_mut(&mut self) -> (map: &mut Vec<u32>) {
        &mut self.indices
    }

    fn free_list(&self) -> (free: &Vec<u32>) {
        &self.free
    }

    fn free_list_mut(&mut self) -> (free: &mut Vec<u32>) {
        &mut self.free
    }
}

impl<T: Default> Column<T> for IndexArrayColumn<T> {
    open spec fn dense_view(&self) -> Seq<T> {
        entry_values(self.entries())
    }

    open spec fn owner_view(&self) -> Seq<u32> {
        entry_owners(self.entries())
    }

    proof fn lemma_same_storage(&self, other: &Self) {
    }

    fn len(&self) -> (len: usize) {
        self.contiguous.len()
    }

    fn size(&self) -> (size: usize) {
        self.indices.len()
    }

    fn free(&mut self, slot: u32) {
        let ghost before = self.model();
        let contiguous_slot = self.indices[slot as usize];
        proof {
            assert(before.map[slot as int] == contiguous_slot);
            before.lemma_release_wf(slot as int);
        }
        if contiguous_slot == 0 {
            return ;
        }
        let last = self.contiguous.len() - 1;
        let owner_last = self.contiguous[last].owner();
        proof {
            assert(before.is_live(slot as int));
            assert(before.owners[last as int] == owner_last);
            assert(before.is_handle(before.owners[last as int]));
        }

        self.indices[slot as usize] = 0;
        if contiguous_slot as usize != last {
            self.indices[owner_last as usize] = contiguous_slot;
        }
        self.contiguous.swap_remove(contiguous_slot as usize);
        self.free.push(slot);

        proof {
            let after = self.model();
            let expect = before.release(slot as int);
            assert(after.map =~= expect.map);
            assert(after.dense =~= expect.dense);
            assert(after.owners =~= expect.owners);
            assert(after.free =~= expect.free);
        }
    }

    fn put(&mut self, value: T) -> (handle: u32) {
        let ghost before = self.model();
        proof {
            before.lemma_next_handle();
            before.lemma_put_wf(value);
        }
        let index = self.next_slot_index();
        proof {
            old(self).lemma_same_storage(self);
        }
        let slot = self.contiguous.len();
        self.indices[index as usize] = slot as u32;
        self.contiguous.push(Entry::new(index, value));
        proof {
            let after = self.model();
            let expect = before.put(value);
            assert(after.map =~= expect.map);
            assert(after.dense =~= expect.dense);
            assert(after.owners =~= expect.owners);
            assert(after.free =~= expect.free);
        }
        index
    }
}

impl<'iter, T: Default + 'iter> IterColumn<'iter, T, Entry<T>> for IndexArrayColumn<T> {
    open spec fn stored(&self) -> Seq<Entry<T>> {
        self.entries()
    }

    fn contiguous(&self) -> (block: &[Entry<T>])
        ensures
            entry_values(block@) == self.dense_view(),
            entry_owners(block@) == self.owner_view(),
    {
        self.contiguous.as_slice()
    }

    /// Get the entries for writing. The slot map and the free list stay as
    /// they are, and so does the number of entries.
    ///
    /// The column stays well formed as long as each entry keeps its owner.
    fn contiguous_mut(&mut self) -> (block: &mut [Entry<T>])
        ensures
            entry_values(block@) == old(self).dense_view(),
            entry_owners(block@) == old(self).owner_view(),
            final(self).dense_view() == entry_values(final(block)@),
            final(self).owner_view() == entry_owners(final(block)@),
            final(self).map_view() == old(self).map_view(),
            final(self).free_view() == old(self).free_view(),
    {
        self.contiguous.as_mut_slice()
    }
}

impl<T: Default> IntoIterator for IndexArrayColumn<T> {
    type Item = Entry<T>;

    type IntoIter = std::vec::IntoIter<Entry<T>>;

    /// Walk the entries in dense order, the degenerate element first.
    fn into_iter(self) -> (iter: Self::IntoIter)
        ensures
            entry_values(vstd::std_specs::iter::IteratorSpec::remaining(&iter))
                == self.dense_view(),
            entry_owners(vstd::std_specs::iter::IteratorSpec::remaining(&iter))
                == self.owner_view(),
    {
        self.contiguous.into_iter()
    }
}

/// A column of bare values: the dense storage holds nothing but the values.
///
/// No owner is stored. When a value moves, the handle that points to it is
/// searched for in the slot map, so freeing takes time in the number of
/// handles.
pub struct ArrayColumn<T: Default> {
    /// The slot map, indexed by handle: the dense index that each handle
    /// points to. Entries never move.
    indices: Vec<u32>,
    /// The values, contiguous.
    contiguous: Vec<T>,
    /// The handles that are free to be handed out again.
    free: Vec<u32>,
    /// The handle that owns each value. It is not stored: the slot map
    /// determines it.
    owners: Ghost<Seq<u32>>,
}

impl<T: Default> Default for ArrayColumn<T> {
    /// The same column as [`ArrayColumn::new`] makes.
    fn default() -> (column: Self)
        ensures
            column.is_fresh(),
    {
        let mut indices = Vec::new();
        let mut contiguous = Vec::new();

        indices.push(0);
        contiguous.push(T::default());

        let owners = Ghost(Seq::empty().push(0u32));
        Self { indices, contiguous, free: Vec::new(), owners }
    }
}

impl<T: Default> ArrayColumn<T> {
    /// The column holds one value, a default value of `T` in dense slot `0`,
    /// and no handle but the nil handle.
    pub closed spec fn is_fresh(&self) -> bool {
        &&& self.indices@ == seq![0u32]
        &&& self.owners@ == seq![0u32]
        &&& self.free@ == Seq::<u32>::empty()
        &&& self.contiguous@.len() == 1
        &&& call_ensures(T::default, (), self.contiguous@[0])
    }

    /// A fresh column is the empty column.
    pub proof fn lemma_fresh(&self)
        requires
            self.is_fresh(),
        ensures
            self.wf(),
            self.model() == SlotModel::empty(self.dense_view()[0]),
            call_ensures(T::default, (), self.dense_view()[0]),
    {
        let model = self.model();
        let empty = SlotModel::empty(self.dense_view()[0]);
        assert(model.map =~= empty.map);
        assert(model.dense =~= empty.dense);
        assert(model.owners =~= empty.owners);
        assert(model.free =~= empty.free);
        SlotModel::lemma_empty(self.dense_view()[0]);
    }

    /// Create a column that holds only the degenerate element in dense
    /// slot `0`.
    pub fn new() -> (column: Self)
        ensures
            column.wf(),
            column.model() == SlotModel::empty(column.dense_view()[0]),
            call_ensures(T::default, (), column.dense_view()[0]),
    {
        Self::with_capacity(0)
    }

    /// Create a column with room for `capacity` values before it has to
    /// grow. It holds only the degenerate element in dense slot `0`.
    pub fn with_capacity(capacity: usize) -> (column: Self)
        ensures
            column.wf(),
            column.model() == SlotModel::empty(column.dense_view()[0]),
            call_ensures(T::default, (), column.dense_view()[0]),
    {
        let mut stable_indices = Vec::with_capacity(capacity);
        let mut contiguous = Vec::with_capacity(capacity);

        stable_indices.push(0);
        contiguous.push(T::default());

        let owners = Ghost(Seq::empty().push(0u32));
        let column = Self { indices: stable_indices, contiguous, free: Vec::new(), owners };
        proof {
            column.lemma_fresh();
        }
        column
    }

    /// Find the handle that points to the dense slot `target`.
    fn owner_of(&self, target: u32) -> (owner: u32)
        requires
            self.wf(),
            1 <= target < self.dense_view().len(),
        ensures
            owner == self.owner_view()[target as int],
    {
        let ghost model = self.model();
        let ghost witness = model.owners[target as int];
        proof {
            assert(model.is_handle(witness));
            assert(model.map[witness] == target);
        }
        let mut handle: usize = 0;
        while self.indices[handle] != target
            invariant
                self.wf(),
                model == self.model(),
                0 <= handle <= witness < self.indices@.len(),
                model.map[witness] == target,
                witness == model.owners[target as int],
                1 <= target < model.dense.len(),
            decreases witness - handle,
        {
            proof {
                assert(model.map[handle as int] == self.indices@[handle as int]);
            }
            handle += 1;
        }
        proof {
            assert(model.map[handle as int] == target);
            assert(model.is_live(handle as int));
        }
        handle as u32
    }
}

impl<T: Default> SparseSlot for ArrayColumn<T> {
    closed spec fn map_view(&self) -> Seq<u32> {
        self.indices@
    }

    closed spec fn free_view(&self) -> Seq<u32> {
        self.free@
    }

    closed spec fn same_storage(&self, other: &Self) -> bool {
        self.contiguous@ == other.contiguous@ && self.owners@ == other.owners@
    }

    proof fn lemma_same_storage_chain(&self, mid: &Self, other: &Self) {
    }

    fn slots_map(&self) -> (map: &Vec<u32>) {
        &self.indices
    }

    fn slots_map_mut(&mut self) -> (map: &mut Vec<u32>) {
        &mut self.indices
    }

    fn free_list(&self) -> (free: &Vec<u32>) {
        &self.free
    }

    fn free_list_mut(&mut self) -> (free: &mut Vec<u32>) {
        &mut self.free
    }
}

impl<T: Default> Column<T> for ArrayColumn<T> {
    closed spec fn dense_view(&self) -> Seq<T> {
        self.contiguous@
    }

    closed spec fn owner_view(&self) -> Seq<u32> {
        self.owners@
    }

    proof fn lemma_same_storage(&self, other: &Self) {
    }

    fn len(&self) -> (len: usize) {
        self.contiguous.len()
    }

    fn size(&self) -> (size: usize) {
        self.indices.len()
    }

    fn free(&mut self, slot: u32) {
        let ghost before = self.model();
        let contiguous_slot = self.indices[slot as usize];
        proof {
            assert(before.map[slot as int] == contiguous_slot);
            before.lemma_release_wf(slot as int);
        }
        if contiguous_slot == 0 {
            return ;
        }
        let last = self.contiguous.len() - 1;
        let ghost moved = self.owners@[last as int];
        proof {
            assert(before.is_live(slot as int));
            assert(before.owners[last as int] == moved);
            assert(before.is_handle(before.owners[last as int]));
        }

        if contiguous_slot as usize != last {
            let owner_last = self.owner_of(last as u32);
            self.indices[owner_last as usize] = contiguous_slot;
        }
        self.indices[slot as usize] = 0;
        self.contiguous.swap_remove(contiguous_slot as usize);
        self.free.push(slot);
        self.owners = Ghost(self.owners@.update(contiguous_slot as int, moved).drop_last());

        proof {
            let after = self.model();
            let expect = before.release(slot as int);
            assert(after.map =~= expect.map);
            assert(after.dense =~= expect.dense);
            assert(after.owners =~= expect.owners);
            assert(after.free =~= expect.free);
        }
    }

    fn put(&mut self, value: T) -> (handle: u32) {
        let ghost before = self.model();
        proof {
            before.lemma_next_handle();
            before.lemma_put_wf(value);
        }
        let index = self.next_slot_index();
        proof {
            old(self).lemma_same_storage(self);
        }
        let slot = self.contiguous.len();
        self.indices[index as usize] = slot as u32;
        self.contiguous.push(value);
        self.owners = Ghost(self.owners@.push(index));
        proof {
            let after = self.model();
            let expect = before.put(value);
            assert(after.map =~= expect.map);
            assert(after.dense =~= expect.dense);
            assert(after.owners =~= expect.owners);
            assert(after.free =~= expect.free);
        }
        index
    }
}

impl<'iter, T: Default + 'iter> IterColumn<'iter, T, T> for ArrayColumn<T> {
    open spec fn stored(&self) -> Seq<T> {
        self.dense_view()
    }

    fn contiguous(&self) -> (block: &[T])
        ensures
            block@ == self.dense_view(),
    {
        self.contiguous.as_slice()
    }

    /// Get the values for writing. Handles, owners and free list stay as
    /// they are, and so does the number of values.
    fn contiguous_mut(&mut self) -> (block: &mut [T])
        ensures
            block@ == old(self).dense_view(),
            final(self).dense_view() == final(block)@,
            final(self).map_view() == old(self).map_view(),
            final(self).owner_view() == old(self).owner_view(),
            final(self).free_view() == old(self).free_view(),
    {
        self.contiguous.as_mut_slice()
    }
}

impl<T: Default> IntoIterator for ArrayColumn<T> {
    type Item = T;

    type IntoIter = std::vec::IntoIter<T>;

    /// Walk the values in dense order, the degenerate element first.
    fn into_iter(self) -> (iter: Self::IntoIter)
        ensures
            vstd::std_specs::iter::IteratorSpec::remaining(&iter) == self.dense_view(),
    {
        self.contiguous.into_iter()
    }
}

} // verus!
