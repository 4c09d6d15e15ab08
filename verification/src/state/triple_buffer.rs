//! Triple buffers between one producer and one consumer, over storage of
//! two kinds: three buffers that change hands, or three sections of one
//! block that are written in turn.

use vstd::prelude::*;
use vstd::slice::slice_subrange;

verus! {

/// What a triple buffer storage is, as plain values.
#[verifier::ext_equal]
pub struct StorageModel<T> {
    /// The three buffers, or the three sections of the block.
    pub buffers: Seq<Seq<T>>,
    /// The buffer that waits between producer and consumer, or the section
    /// that is written next.
    pub index: int,
    /// The length of the data that was written last.
    pub length: nat,
    /// The number of elements that each buffer holds.
    pub capacity: nat,
}

impl<T> StorageModel<T> {
    /// The invariant of a storage.
    pub open spec fn wf(self) -> bool {
        &&& self.buffers.len() == 3
        &&& 0 <= self.index < 3
        &&& forall|i: int| 0 <= i < 3 ==> (#[trigger] self.buffers[i]).len() == self.capacity
    }

    /// The storage after `data` was copied into buffer `target` from
    /// position `offset` on.
    pub open spec fn with_data(self, target: int, data: Seq<T>, offset: int) -> Seq<Seq<T>> {
        self.buffers.update(
            target,
            Seq::new(
                self.buffers[target].len(),
                |i: int|
                    if offset <= i < offset + data.len() {
                        data[i - offset]
                    } else {
                        self.buffers[target][i]
                    },
            ),
        )
    }
}

/// The smaller of two lengths.
pub open spec fn at_most(limit: int, wanted: int) -> int {
    if wanted <= limit {
        wanted
    } else {
        limit
    }
}

/// A buffer of a fixed capacity that knows the length of its data.
pub trait HasBufferExactSize {
    /// The storage as plain values.
    spec fn sizes(&self) -> (nat, nat);

    /// The maximum capacity of the shared buffer allocated at the start.
    ///
    /// This cannot be resized in any way.
    fn capacity(&self) -> (capacity: usize)
        ensures
            capacity == self.sizes().0,
    ;

    /// The length of the data currently living in the buffer.
    fn length(&self) -> (length: usize)
        ensures
            length == self.sizes().1,
    ;
}

/// A storage of three buffers that a producer writes and a consumer reads.
pub trait BufferStorage<T: Copy + Clone>: HasBufferExactSize {
    /// The storage as plain values.
    spec fn model(&self) -> StorageModel<T>;

    /// The storage can take `data` at `offset` from the producer that holds
    /// the buffer `buf_idx`.
    spec fn takes(&self, buf_idx: usize, data: Seq<T>, offset: usize) -> bool;

    /// The storage after that write.
    spec fn written(&self, buf_idx: usize, data: Seq<T>, offset: usize) -> StorageModel<T>;

    /// The buffer that the producer holds after that write.
    spec fn write_index(&self, buf_idx: usize) -> usize;

    /// The storage can give `length` elements from `offset` on to the
    /// consumer that holds the buffer `buf_idx`.
    spec fn gives(&self, buf_idx: usize, offset: usize, length: usize) -> bool;

    /// The buffer that the consumer holds after that read: the one that is
    /// read.
    spec fn read_index(&self, buf_idx: usize) -> usize;

    /// The storage after that read.
    spec fn after_read(&self, buf_idx: usize) -> StorageModel<T>;

    /// What that read gives.
    spec fn read_data(&self, buf_idx: usize, offset: usize, length: usize) -> Seq<T>;

    /// Copy `data` into the storage from `offset` on, for the producer that
    /// holds the buffer `buf_idx`.
    ///
    /// # Returns
    /// The buffer that the producer holds from now on.
    fn write_at(&mut self, buf_idx: usize, data: &[T], offset: usize) -> (next: usize)
        requires
            old(self).takes(buf_idx, data@, offset),
        ensures
            next == old(self).write_index(buf_idx),
            final(self).model() == old(self).written(buf_idx, data@, offset),
    ;

    /// Get `length` elements from `offset` on, or as many as were written
    /// last if that is less, for the consumer that holds the buffer
    /// `buf_idx`.
    ///
    /// # Returns
    /// The buffer that the consumer holds from now on, and the data.
    fn read_at_for(&mut self, buf_idx: usize, offset: usize, length: usize) -> (read: (usize, &[T]))
        requires
            old(self).gives(buf_idx, offset, length),
        ensures
            read.0 == old(self).read_index(buf_idx),
            read.1@ == old(self).read_data(buf_idx, offset, length),
            final(self).model() == old(self).after_read(buf_idx),
    ;
}

/// Three buffers that change hands: at any time the producer holds one, the
/// consumer holds one, and one waits between them.
///
/// A write ends with the producer giving its buffer for the one that
/// waits; a read starts with the consumer doing the same. So the consumer
/// never reads what the producer writes at the same time.
#[derive(Debug)]
pub struct Contiguous<T: Clone + Copy> {
    intermediate_idx: usize,
    length: usize,
    buffers: [Vec<T>; 3],
    capacity: usize,
}

impl<T: Clone + Copy> Contiguous<T> {
    /// The storage as plain values.
    pub closed spec fn view_model(&self) -> StorageModel<T> {
        StorageModel {
            buffers: Seq::new(3, |i: int| self.buffers@[i]@),
            index: self.intermediate_idx as int,
            length: self.length as nat,
            capacity: self.capacity as nat,
        }
    }

    /// Three buffers of `capacity` elements each, all of them `fill`. The
    /// second waits between producer and consumer.
    pub fn with_capacity(capacity: usize, fill: T) -> (storage: Self)
        ensures
            storage.model().wf(),
            storage.model().index == 1,
            storage.model().length == 0,
            storage.model().capacity == capacity,
            forall|i: int, k: int|
                0 <= i < 3 && 0 <= k < capacity ==> #[trigger] storage.model().buffers[i][k]
                    == fill,
    {
        let storage = Self {
            intermediate_idx: 1,
            length: 0,
            buffers: [filled(capacity, fill), filled(capacity, fill), filled(capacity, fill)],
            capacity,
        };
        storage
    }
}

/// A buffer of `count` elements, all of them `fill`.
fn filled<T: Copy>(count: usize, fill: T) -> (buffer: Vec<T>)
    ensures
        buffer@.len() == count,
        forall|i: int| 0 <= i < count ==> #[trigger] buffer@[i] == fill,
{
    let mut buffer: Vec<T> = Vec::with_capacity(count);
    let mut i: usize = 0;
    while i < count
        invariant
            0 <= i <= count,
            buffer@.len() == i,
            forall|k: int| 0 <= k < i ==> #[trigger] buffer@[k] == fill,
        decreases count - i,
    {
        buffer.push(fill);
        i += 1;
    }
    buffer
}

/// Copy `data` into `target`, from position `offset` on.
fn copy_at<T: Copy>(target: &mut Vec<T>, data: &[T], offset: usize)
    requires
        offset + data@.len() <= old(target)@.len(),
    ensures
        final(target)@ == Seq::new(
            old(target)@.len(),
            |i: int|
                if offset <= i < offset + data@.len() {
                    data@[i - offset]
                } else {
                    old(target)@[i]
                },
        ),
{
    let total = target.len();
    let mut i: usize = 0;
    while i < data.len()
        invariant
            0 <= i <= data@.len(),
            offset + data@.len() <= total,
            target@.len() == total,
            total == old(target)@.len(),
            target@ == Seq::new(
                old(target)@.len(),
                |k: int|
                    if offset <= k < offset + i {
                        data@[k - offset]
                    } else {
                        old(target)@[k]
                    },
            ),
        decreases data@.len() - i,
    {
        target[offset + i] = data[i];
        i += 1;
    }
}

impl<T: Copy + Clone> HasBufferExactSize for Contiguous<T> {
    open spec fn sizes(&self) -> (nat, nat) {
        (self.view_model().capacity, self.view_model().length)
    }

    fn capacity(&self) -> (capacity: usize) {
        self.capacity
    }

    fn length(&self) -> (length: usize) {
        self.length
    }
}

impl<T: Clone + Copy> BufferStorage<T> for Contiguous<T> {
    open spec fn model(&self) -> StorageModel<T> {
        self.view_model()
    }

    /// The data fits the buffer that the producer holds.
    open spec fn takes(&self, buf_idx: usize, data: Seq<T>, offset: usize) -> bool {
        &&& self.model().wf()
        &&& buf_idx < 3
        &&& offset + data.len() <= self.model().capacity
    }

    /// The data lies in the producer's buffer, which now waits; its length
    /// is recorded.
    open spec fn written(&self, buf_idx: usize, data: Seq<T>, offset: usize) -> StorageModel<T> {
        StorageModel {
            buffers: self.model().with_data(buf_idx as int, data, offset as int),
            index: buf_idx as int,
            length: data.len(),
            ..self.model()
        }
    }

    /// The producer gets the buffer that waited.
    open spec fn write_index(&self, buf_idx: usize) -> usize {
        self.model().index as usize
    }

    open spec fn gives(&self, buf_idx: usize, offset: usize, length: usize) -> bool {
        &&& self.model().wf()
        &&& buf_idx < 3
        &&& offset + at_most(self.model().length as int, length as int) <= self.model().capacity
    }

    /// The consumer gets the buffer that waited.
    open spec fn read_index(&self, buf_idx: usize) -> usize {
        self.model().index as usize
    }

    /// The consumer's buffer now waits.
    open spec fn after_read(&self, buf_idx: usize) -> StorageModel<T> {
        StorageModel { index: buf_idx as int, ..self.model() }
    }

    open spec fn read_data(&self, buf_idx: usize, offset: usize, length: usize) -> Seq<T> {
        self.model().buffers[self.model().index].subrange(
            offset as int,
            offset + at_most(self.model().length as int, length as int),
        )
    }

    fn write_at(&mut self, buf_idx: usize, data: &[T], offset: usize) -> (next: usize) {
        let len = data.len();
        proof {
            assert(self.model().buffers[buf_idx as int].len() == self.model().capacity);
        }
        copy_at(&mut self.buffers[buf_idx], data, offset);

        self.length = len;
        let previous = self.intermediate_idx;
        self.intermediate_idx = buf_idx;
        proof {
            let expect = old(self).written(buf_idx, data@, offset);
            assert(self.model().buffers =~~= expect.buffers);
        }
        previous
    }

    fn read_at_for(&mut self, buf_idx: usize, offset: usize, length: usize) -> (read: (usize, &[T])) {
        let read_idx = self.intermediate_idx;
        self.intermediate_idx = buf_idx;
        let length = if self.length <= length {
            self.length
        } else {
            length
        };
        proof {
            assert(self.model().buffers =~~= old(self).model().buffers);
            assert(old(self).model().buffers[read_idx as int].len() == self.capacity);
        }
        let slice = slice_subrange(self.buffers[read_idx].as_slice(), offset, offset + length);
        (read_idx, slice)
    }
}

/// The section after section `index` of three, in their order.
pub open spec fn section_after(index: int) -> int {
    (index + 1) % 3
}

/// The section before section `index` of three, in their order.
pub open spec fn section_before(index: int) -> int {
    (index + 2) % 3
}

/// One block of three sections that are written in turn: each write goes
/// to the section at the head and moves the head on; each read comes from
/// the section before the head.
///
/// The storage keeps the turn itself, whatever buffers producer and
/// consumer say they hold.
#[derive(Debug)]
pub struct Separate<T: Clone + Copy> {
    head: usize,
    length: usize,
    /// The three sections, one after the other.
    block: Vec<T>,
    /// The number of elements in each section.
    capacity: usize,
}

impl<T: Clone + Copy> Separate<T> {
    /// The elements of the block.
    pub closed spec fn cells(&self) -> Seq<T> {
        self.block@
    }

    /// The section that is written next.
    pub closed spec fn head(&self) -> nat {
        self.head as nat
    }

    /// The number of elements in each section.
    pub closed spec fn section_len(&self) -> nat {
        self.capacity as nat
    }

    /// The length that was recorded last.
    pub closed spec fn recorded(&self) -> nat {
        self.length as nat
    }

    /// The invariant of the storage.
    pub open spec fn wf(&self) -> bool {
        self.head() < 3 && self.cells().len() == 3 * self.section_len()
    }

    /// The storage as three buffers.
    pub open spec fn as_model(&self) -> StorageModel<T> {
        StorageModel {
            buffers: Seq::new(
                3,
                |i: int|
                    self.cells().subrange(i * self.section_len(), (i + 1) * self.section_len()),
            ),
            index: self.head() as int,
            length: self.recorded(),
            capacity: self.section_len(),
        }
    }

    /// A block of three sections of `capacity` elements each, all of them
    /// `fill`. The second section is written first.
    pub fn with_capacity(capacity: usize, fill: T) -> (storage: Self)
        requires
            3 * capacity <= usize::MAX,
        ensures
            storage.wf(),
            storage.head() == 1,
            storage.recorded() == 0,
            storage.section_len() == capacity,
            forall|i: int| 0 <= i < 3 * capacity ==> #[trigger] storage.cells()[i] == fill,
    {
        Self { head: 1, length: 0, block: filled(capacity * 3, fill), capacity }
    }

    /// The section that is written after the next one.
    pub fn next_section(&self) -> (section: usize)
        requires
            self.wf(),
        ensures
            section == section_after(self.head() as int),
            section < 3,
    {
        (self.head + 1) % 3
    }

    /// The section that was written last: the one that is read.
    pub fn last_section(&self) -> (section: usize)
        requires
            self.wf(),
        ensures
            section == section_before(self.head() as int),
            section < 3,
    {
        (self.head + 2) % 3
    }

    /// Where section `index` starts in the block.
    pub fn section_base(&self, index: usize) -> (base: usize)
        requires
            self.wf(),
            index < 3,
        ensures
            base == index * self.section_len(),
            base + self.section_len() <= self.cells().len(),
    {
        let total = self.block.len();
        proof {
            assert(0 <= index * self.section_len() && index * self.section_len()
                + self.section_len() <= 3 * self.section_len()) by (nonlinear_arith)
                requires
                    0 <= index < 3,
                    0 <= self.section_len(),
            ;
        }
        index * self.capacity
    }
}

impl<T: Clone + Copy> HasBufferExactSize for Separate<T> {
    open spec fn sizes(&self) -> (nat, nat) {
        (self.section_len(), self.recorded())
    }

    fn capacity(&self) -> (capacity: usize) {
        self.capacity
    }

    fn length(&self) -> (length: usize) {
        self.length
    }
}

/// The elements `old` after the first `count` of `data` were copied over
/// them from position `start` on.
pub open spec fn overlaid<T>(old: Seq<T>, start: int, data: Seq<T>, count: int) -> Seq<T> {
    Seq::new(
        old.len(),
        |i: int|
            if start <= i < start + count {
                data[i - start]
            } else {
                old[i]
            },
    )
}

impl<T: Clone + Copy> Separate<T> {
    /// The block after a write of `data` at `offset`: the data lies in the
    /// section at the head, cut to the length of a section.
    pub open spec fn cells_written(&self, data: Seq<T>, offset: usize) -> Seq<T> {
        overlaid(
            self.cells(),
            self.head() * self.section_len() + offset,
            data,
            at_most(self.section_len() as int, data.len() as int),
        )
    }

    /// Copy `data` into the section at the head, from `offset` on, and
    /// move the head on. What is longer than a section is left out.
    ///
    /// # Returns
    /// The section that is written next.
    pub fn write(&mut self, data: &[T], offset: usize) -> (next: usize)
        requires
            old(self).wf(),
            offset + at_most(old(self).section_len() as int, data@.len() as int) <= old(
                self,
            ).section_len(),
        ensures
            final(self).wf(),
            next == section_after(old(self).head() as int),
            final(self).head() == next,
            final(self).section_len() == old(self).section_len(),
            final(self).recorded() == old(self).recorded(),
            final(self).cells() == old(self).cells_written(data@, offset),
    {
        let current = self.head;
        let base = self.section_base(current);
        let count = if data.len() <= self.capacity {
            data.len()
        } else {
            self.capacity
        };
        let total = self.block.len();
        let mut i: usize = 0;
        while i < count
            invariant
                0 <= i <= count,
                count == at_most(self.capacity as int, data@.len() as int),
                base + offset + count <= total,
                self.block@.len() == total,
                total == old(self).block@.len(),
                self.head == old(self).head,
                self.capacity == old(self).capacity,
                self.length == old(self).length,
                self.block@ == overlaid(old(self).block@, base + offset, data@, i as int),
            decreases count - i,
        {
            self.block[base + offset + i] = data[i];
            i += 1;
        }

        let next = (current + 1) % 3;
        self.head = next;
        next
    }

    /// Get `length` elements of the section that was written last, from
    /// `offset` on.
    ///
    /// # Returns
    /// The section that is read, and the data.
    pub fn read(&self, offset: usize, length: usize) -> (read: (usize, &[T]))
        requires
            self.wf(),
            offset + length <= self.cells().len() - section_before(self.head() as int)
                * self.section_len(),
        ensures
            read.0 == section_before(self.head() as int),
            read.1@ == self.cells().subrange(
                read.0 * self.section_len() + offset,
                read.0 * self.section_len() + offset + length,
            ),
    {
        let prev = self.last_section();
        let total = self.block.len();
        let offset = self.section_base(prev) + offset;
        (prev, slice_subrange(self.block.as_slice(), offset, offset + length))
    }
}

impl<T: Clone + Copy> BufferStorage<T> for Separate<T> {
    open spec fn model(&self) -> StorageModel<T> {
        self.as_model()
    }

    /// The data, cut to the length of a section, fits the section at the
    /// head.
    open spec fn takes(&self, buf_idx: usize, data: Seq<T>, offset: usize) -> bool {
        &&& self.wf()
        &&& offset + at_most(self.section_len() as int, data.len() as int) <= self.section_len()
    }

    /// The data lies in the section at the head, and the head has moved
    /// on.
    open spec fn written(&self, buf_idx: usize, data: Seq<T>, offset: usize) -> StorageModel<T> {
        StorageModel {
            buffers: Seq::new(
                3,
                |i: int|
                    self.cells_written(data, offset).subrange(
                        i * self.section_len(),
                        (i + 1) * self.section_len(),
                    ),
            ),
            index: section_after(self.head() as int),
            ..self.as_model()
        }
    }

    /// The producer is told the section that is written next.
    open spec fn write_index(&self, buf_idx: usize) -> usize {
        section_after(self.head() as int) as usize
    }

    open spec fn gives(&self, buf_idx: usize, offset: usize, length: usize) -> bool {
        &&& self.wf()
        &&& offset + length <= self.cells().len() - section_before(self.head() as int)
            * self.section_len()
    }

    /// The consumer is told the section that is read: the one before the
    /// head.
    open spec fn read_index(&self, buf_idx: usize) -> usize {
        section_before(self.head() as int) as usize
    }

    /// A read changes nothing.
    open spec fn after_read(&self, buf_idx: usize) -> StorageModel<T> {
        self.as_model()
    }

    open spec fn read_data(&self, buf_idx: usize, offset: usize, length: usize) -> Seq<T> {
        self.cells().subrange(
            section_before(self.head() as int) * self.section_len() + offset,
            section_before(self.head() as int) * self.section_len() + offset + length,
        )
    }

    fn write_at(&mut self, buf_idx: usize, data: &[T], offset: usize) -> (next: usize) {
        self.write(data, offset)
    }

    fn read_at_for(&mut self, buf_idx: usize, offset: usize, length: usize) -> (read: (usize, &[T])) {
        self.read(offset, length)
    }
}

/// A storage of bytes together with the plan of the ranges in it.
#[derive(Debug)]
pub struct MappedStorage<const PARTS: usize, Inner: BufferStorage<u8>> {
    inner: Inner,
    ranges: [usize; PARTS],
    offsets: [usize; PARTS],
}

impl<const PARTS: usize, Inner> MappedStorage<PARTS, Inner> where Inner: BufferStorage<u8> {
    /// The storage.
    pub closed spec fn storage(&self) -> Inner {
        self.inner
    }

    /// The length of each range, in bytes.
    pub closed spec fn lengths(&self) -> Seq<usize> {
        self.ranges@
    }

    /// Where each range starts, in bytes.
    pub closed spec fn starts(&self) -> Seq<usize> {
        self.offsets@
    }

    /// The storage `inner` with the first `PARTS` ranges of `mapping`.
    pub fn new(inner: Inner, mapping: &MappingRange) -> (mapped: Self)
        ensures
            mapped.storage() == inner,
            forall|i: int|
                0 <= i < PARTS ==> #[trigger] mapped.starts()[i] == (if i
                    < mapping.starts().len() {
                    mapping.starts()[i]
                } else {
                    0usize
                }),
            forall|i: int|
                0 <= i < PARTS ==> #[trigger] mapped.lengths()[i] == (if i
                    < mapping.lengths().len() {
                    mapping.lengths()[i]
                } else {
                    0usize
                }),
    {
        let (offsets, ranges) = mapping.to_arrays();
        Self { inner, ranges, offsets }
    }

    /// Returns the `range` and `offset` of the section at `index`,
    /// respectively.
    pub fn alignment(&self, index: usize) -> (range: (usize, usize))
        requires
            index < PARTS,
        ensures
            range.0 == self.lengths()[index as int],
            range.1 == self.starts()[index as int],
    {
        (self.ranges[index], self.offsets[index])
    }

    /// Check that `data` fits the range at `index`. Nothing is written.
    pub fn write_section(&mut self, index: usize, data: &[u8])
        requires
            index < PARTS,
            data@.len() <= old(self).lengths()[index as int],
        ensures
            *final(self) == *old(self),
    {
    }
}

impl<const PARTS: usize, Inner> HasBufferExactSize for MappedStorage<PARTS, Inner> where
    Inner: BufferStorage<u8>,
 {
    open spec fn sizes(&self) -> (nat, nat) {
        self.storage().sizes()
    }

    fn capacity(&self) -> (capacity: usize) {
        self.inner.capacity()
    }

    fn length(&self) -> (length: usize) {
        self.inner.length()
    }
}

impl<const PARTS: usize, Inner> BufferStorage<u8> for MappedStorage<PARTS, Inner> where
    Inner: BufferStorage<u8>,
 {
    open spec fn model(&self) -> StorageModel<u8> {
        self.storage().model()
    }

    open spec fn takes(&self, buf_idx: usize, data: Seq<u8>, offset: usize) -> bool {
        self.storage().takes(buf_idx, data, offset)
    }

    open spec fn written(&self, buf_idx: usize, data: Seq<u8>, offset: usize) -> StorageModel<u8> {
        self.storage().written(buf_idx, data, offset)
    }

    open spec fn write_index(&self, buf_idx: usize) -> usize {
        self.storage().write_index(buf_idx)
    }

    open spec fn gives(&self, buf_idx: usize, offset: usize, length: usize) -> bool {
        self.storage().gives(buf_idx, offset, length)
    }

    open spec fn read_index(&self, buf_idx: usize) -> usize {
        self.storage().read_index(buf_idx)
    }

    open spec fn after_read(&self, buf_idx: usize) -> StorageModel<u8> {
        self.storage().after_read(buf_idx)
    }

    open spec fn read_data(&self, buf_idx: usize, offset: usize, length: usize) -> Seq<u8> {
        self.storage().read_data(buf_idx, offset, length)
    }

    fn write_at(&mut self, buf_idx: usize, data: &[u8], offset: usize) -> (next: usize)
        ensures
            final(self).lengths() == old(self).lengths(),
            final(self).starts() == old(self).starts(),
    {
        self.inner.write_at(buf_idx, data, offset)
    }

    fn read_at_for(&mut self, buf_idx: usize, offset: usize, length: usize) -> (read: (usize, &[u8]))
        ensures
            final(self).lengths() == old(self).lengths(),
            final(self).starts() == old(self).starts(),
    {
        self.inner.read_at_for(buf_idx, offset, length)
    }
}

/// The producer's end of a triple buffer: it remembers which buffer the
/// producer holds.
#[derive(Debug)]
pub struct Producer<T: Clone + Copy, Storage: BufferStorage<T>> {
    write_idx: usize,
    _marker: std::marker::PhantomData<(T, Storage)>,
}

/// The consumer's end of a triple buffer: it remembers which buffer the
/// consumer holds.
#[derive(Debug)]
pub struct Consumer<T: Clone + Copy, Storage: BufferStorage<T>> {
    read_idx: usize,
    _marker: std::marker::PhantomData<(T, Storage)>,
}

impl<T: Clone + Copy, Storage> Producer<T, Storage> where Storage: BufferStorage<T> {
    /// The buffer that the producer holds.
    pub closed spec fn held(&self) -> usize {
        self.write_idx
    }

    /// A producer that holds the first buffer.
    pub fn new() -> (producer: Self)
        ensures
            producer.held() == 0,
    {
        Self { write_idx: 0, _marker: std::marker::PhantomData }
    }

    /// Equal to [`Producer::write_at`], with offset as `0`.
    pub fn write(&mut self, storage: &mut Storage, data: &[T])
        requires
            old(storage).takes(old(self).held(), data@, 0),
        ensures
            final(self).held() == old(storage).write_index(old(self).held()),
            final(storage).model() == old(storage).written(old(self).held(), data@, 0),
    {
        self.write_at(storage, data, 0);
    }

    /// Write (copy) all `data` into the shared buffer, starting from the
    /// given `offset`.
    ///
    /// This data can then be received by a subsequent read of the consumer.
    pub fn write_at(&mut self, storage: &mut Storage, data: &[T], offset: usize)
        requires
            old(storage).takes(old(self).held(), data@, offset),
        ensures
            final(self).held() == old(storage).write_index(old(self).held()),
            final(storage).model() == old(storage).written(old(self).held(), data@, offset),
    {
        self.write_idx = storage.write_at(self.write_idx, data, offset);
    }
}

impl<T: Clone + Copy, Storage> Consumer<T, Storage> where Storage: BufferStorage<T> {
    /// The buffer that the consumer holds.
    pub closed spec fn held(&self) -> usize {
        self.read_idx
    }

    /// A consumer that holds the third buffer.
    pub fn new() -> (consumer: Self)
        ensures
            consumer.held() == 2,
    {
        Self { read_idx: 2, _marker: std::marker::PhantomData }
    }

    /// Equal to [`Consumer::read_at_for`], with length as [`usize::MAX`] and
    /// offset to `0`: all that was written last.
    pub fn read<'a>(&mut self, storage: &'a mut Storage) -> (data: &'a [T])
        requires
            old(storage).gives(old(self).held(), 0, usize::MAX),
        ensures
            final(self).held() == old(storage).read_index(old(self).held()),
            data@ == old(storage).read_data(old(self).held(), 0, usize::MAX),
            final(storage).model() == old(storage).after_read(old(self).held()),
    {
        self.read_at_for(storage, 0, usize::MAX)
    }

    /// Equal to [`Consumer::read_at_for`], with offset as `0`.
    pub fn read_for<'a>(&mut self, storage: &'a mut Storage, length: usize) -> (data: &'a [T])
        requires
            old(storage).gives(old(self).held(), 0, length),
        ensures
            final(self).held() == old(storage).read_index(old(self).held()),
            data@ == old(storage).read_data(old(self).held(), 0, length),
            final(storage).model() == old(storage).after_read(old(self).held()),
    {
        self.read_at_for(storage, 0, length)
    }

    /// Equal to [`Consumer::read_at_for`], with length as [`usize::MAX`].
    pub fn read_at<'a>(&mut self, storage: &'a mut Storage, offset: usize) -> (data: &'a [T])
        requires
            old(storage).gives(old(self).held(), offset, usize::MAX),
        ensures
            final(self).held() == old(storage).read_index(old(self).held()),
            data@ == old(storage).read_data(old(self).held(), offset, usize::MAX),
            final(storage).model() == old(storage).after_read(old(self).held()),
    {
        self.read_at_for(storage, offset, usize::MAX)
    }

    /// Reads the data that was written last and returns a reference to it:
    /// `length` elements from `offset` on, or as many as were written if
    /// that is less.
    ///
    /// For each write of the producer there must be no more than one read:
    /// a second read gets the buffer that the first gave back.
    pub fn read_at_for<'a>(&mut self, storage: &'a mut Storage, offset: usize, length: usize) -> (data:
        &'a [T])
        requires
            old(storage).gives(old(self).held(), offset, length),
        ensures
            final(self).held() == old(storage).read_index(old(self).held()),
            data@ == old(storage).read_data(old(self).held(), offset, length),
            final(storage).model() == old(storage).after_read(old(self).held()),
    {
        let (idx, read) = storage.read_at_for(self.read_idx, offset, length);
        self.read_idx = idx;
        read
    }
}

/// Create a triple buffer of `capacity` elements in each buffer, all of
/// them default values, with its two ends.
pub fn create_contiguous<T: Clone + Copy + Default>(capacity: usize) -> (parts: (
    Contiguous<T>,
    Producer<T, Contiguous<T>>,
    Consumer<T, Contiguous<T>>,
))
    ensures
        parts.0.model().wf(),
        parts.0.model().index == 1,
        parts.0.model().length == 0,
        parts.0.model().capacity == capacity,
        parts.1.held() == 0,
        parts.2.held() == 2,
{
    let storage = Contiguous::with_capacity(capacity, T::default());
    (storage, Producer::new(), Consumer::new())
}

/// Create a triple buffer whose waiting buffer holds a copy of `slice`,
/// with its two ends. The other two buffers hold default values.
pub fn from_slice_contiguous<T: Clone + Copy + Default>(slice: &[T]) -> (parts: (
    Contiguous<T>,
    Producer<T, Contiguous<T>>,
    Consumer<T, Contiguous<T>>,
))
    ensures
        parts.0.model().wf(),
        parts.0.model().index == 1,
        parts.0.model().length == slice@.len(),
        parts.0.model().capacity == slice@.len(),
        parts.0.model().buffers[1] == slice@,
        parts.1.held() == 0,
        parts.2.held() == 2,
{
    let len = slice.len();
    let mut storage = Contiguous::with_capacity(len, T::default());
    let ghost before = storage.model();
    proof {
        assert(before.buffers[0].len() == len);
        assert(before.buffers[1].len() == len);
        assert(before.buffers[2].len() == len);
    }
    copy_at(&mut storage.buffers[1], slice, 0);
    storage.length = len;
    proof {
        assert(storage.model().buffers[1] =~= slice@);
        assert(storage.model().buffers[0] == before.buffers[0]);
        assert(storage.model().buffers[2] == before.buffers[2]);
    }
    (storage, Producer::new(), Consumer::new())
}

/// The plan of ranges in a block: each range holds a number of elements of
/// one type, and starts where the one before it ends.
#[derive(Debug)]
pub struct MappingRange {
    head: usize,
    offsets: Vec<usize>,
    ranges: Vec<usize>,
    current_range: usize,
}

impl MappingRange {
    /// The end of the last range, in bytes.
    pub closed spec fn end(&self) -> nat {
        self.head as nat
    }

    /// Where each range starts, in bytes.
    pub closed spec fn starts(&self) -> Seq<usize> {
        self.offsets@
    }

    /// The length of each range, in bytes.
    pub closed spec fn lengths(&self) -> Seq<usize> {
        self.ranges@
    }

    /// The number of elements in the range that is reserved next.
    pub closed spec fn count(&self) -> nat {
        self.current_range as nat
    }

    /// A plan without ranges.
    pub fn new() -> (plan: Self)
        ensures
            plan.end() == 0,
            plan.count() == 0,
            plan.starts() == Seq::<usize>::empty(),
            plan.lengths() == Seq::<usize>::empty(),
    {
        Self { head: 0, offsets: Vec::new(), ranges: Vec::new(), current_range: 0 }
    }

    /// Set the number of elements in the ranges that are reserved from now
    /// on.
    pub fn with_range(self, range: usize) -> (plan: Self)
        ensures
            plan.count() == range,
            plan.end() == self.end(),
            plan.starts() == self.starts(),
            plan.lengths() == self.lengths(),
    {
        let mut plan = self;
        plan.current_range = range;
        plan
    }

    /// Reserve a range for elements of type `T`, behind the last range.
    pub fn reserve<T: Sized>(self) -> (plan: Self)
        requires
            self.end() + self.count() * vstd::layout::size_of::<T>() <= usize::MAX,
        ensures
            plan.count() == self.count(),
            plan.starts() == self.starts().push(self.end() as usize),
            plan.lengths() == self.lengths().push(
                (self.count() * vstd::layout::size_of::<T>()) as usize,
            ),
            plan.end() == self.end() + self.count() * vstd::layout::size_of::<T>(),
    {
        let mut plan = self;
        let size = core::mem::size_of::<T>();
        proof {
            assert(0 <= plan.current_range * size) by (nonlinear_arith)
                requires
                    0 <= plan.current_range,
                    0 <= size,
            ;
            assert(plan.current_range * size == self.count() * vstd::layout::size_of::<T>())
                by (nonlinear_arith)
                requires
                    plan.current_range == self.count(),
                    size == vstd::layout::size_of::<T>(),
            ;
        }
        let total = plan.current_range * size;

        plan.offsets.push(plan.head);
        plan.ranges.push(total);
        plan.head += total;
        plan
    }

    /// The length of all ranges together, in bytes.
    pub fn total_length(&self) -> (length: usize)
        ensures
            length == self.end(),
    {
        self.head
    }

    /// The start and the length of the first `COUNT` ranges; `0` for each
    /// range that the plan does not have.
    pub fn to_arrays<const COUNT: usize>(&self) -> (arrays: ([usize; COUNT], [usize; COUNT]))
        ensures
            forall|i: int|
                0 <= i < COUNT ==> #[trigger] arrays.0@[i] == (if i < self.starts().len() {
                    self.starts()[i]
                } else {
                    0usize
                }),
            forall|i: int|
                0 <= i < COUNT ==> #[trigger] arrays.1@[i] == (if i < self.lengths().len() {
                    self.lengths()[i]
                } else {
                    0usize
                }),
    {
        let mut offsets = [0usize;COUNT];
        let mut ranges = [0usize;COUNT];

        let mut i: usize = 0;
        while i < COUNT
            invariant
                0 <= i <= COUNT,
                forall|k: int|
                    0 <= k < i ==> #[trigger] offsets@[k] == (if k < self.starts().len() {
                        self.starts()[k]
                    } else {
                        0usize
                    }),
                forall|k: int|
                    0 <= k < i ==> #[trigger] ranges@[k] == (if k < self.lengths().len() {
                        self.lengths()[k]
                    } else {
                        0usize
                    }),
            decreases COUNT - i,
        {
            if i < self.offsets.len() {
                offsets[i] = self.offsets[i];
            } else {
                offsets[i] = 0;
            }
            if i < self.ranges.len() {
                ranges[i] = self.ranges[i];
            } else {
                ranges[i] = 0;
            }
            i += 1;
        }
        (offsets, ranges)
    }
}

} // verus!
