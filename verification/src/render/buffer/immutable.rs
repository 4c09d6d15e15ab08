//! A buffer that is filled once and read by the device from then on.

use vstd::prelude::*;

use crate::render::buffer::layout::Layout;
use crate::render::buffer::partitioned::bind_ranges;
use crate::render::buffer::partitioned::collect_bind_ranges;
use crate::render::buffer::partitioned::written;
use crate::render::buffer::partitioned::BindRange;

verus! {

/// Start a buffer of one section of `layout`, for the device object
/// `gl_obj`.
pub fn uninit<const PARTS: usize>(gl_obj: u32, layout: Layout<PARTS>) -> (buffer:
    UninitImmutableBuffer<PARTS>)
    requires
        layout.wf(),
    ensures
        buffer.wf(),
        buffer.object() == gl_obj,
        buffer.plan() == layout,
        forall|i: int| 0 <= i < buffer.bytes().len() ==> #[trigger] buffer.bytes()[i] == 0,
{
    UninitImmutableBuffer::new(gl_obj, layout)
}

/// A buffer of one section that is being filled, part by part.
#[derive(Debug)]
pub struct UninitImmutableBuffer<const PARTS: usize> {
    gl_obj: u32,
    memory: Vec<u8>,
    layout: Layout<PARTS>,
}

impl<const PARTS: usize> UninitImmutableBuffer<PARTS> {
    /// The device object.
    pub closed spec fn object(&self) -> u32 {
        self.gl_obj
    }

    /// The layout of the section.
    pub closed spec fn plan(&self) -> Layout<PARTS> {
        self.layout
    }

    /// The bytes of the section.
    pub closed spec fn bytes(&self) -> Seq<u8> {
        self.memory@
    }

    /// The invariant of the buffer: the memory holds one section.
    pub open spec fn wf(&self) -> bool {
        self.plan().wf() && self.bytes().len() == self.plan().section_length()
    }

    /// Take the memory for one section of `layout`, all bytes zero, for the
    /// device object `gl_obj`.
    pub fn new(gl_obj: u32, layout: Layout<PARTS>) -> (buffer: Self)
        requires
            layout.wf(),
        ensures
            buffer.wf(),
            buffer.object() == gl_obj,
            buffer.plan() == layout,
            forall|i: int| 0 <= i < buffer.bytes().len() ==> #[trigger] buffer.bytes()[i] == 0,
    {
        let total_length = layout.len();
        let mut memory: Vec<u8> = Vec::with_capacity(total_length);
        let mut i: usize = 0;
        while i < total_length
            invariant
                0 <= i <= total_length,
                memory@.len() == i,
                forall|k: int| 0 <= k < i ==> #[trigger] memory@[k] == 0,
            decreases total_length - i,
        {
            memory.push(0);
            i += 1;
        }
        Self { layout, memory, gl_obj }
    }

    /// Fill the `partition` of the buffer with `data`, from the start of
    /// the partition on. The data has to fit the partition.
    pub fn fill_partition(&mut self, partition: usize, data: &[u8])
        requires
            old(self).wf(),
            partition < PARTS,
            data@.len() <= old(self).plan().length(partition as int),
        ensures
            final(self).wf(),
            final(self).object() == old(self).object(),
            final(self).plan() == old(self).plan(),
            final(self).bytes() == written(
                old(self).bytes(),
                old(self).plan().offset(partition as int),
                data@,
                data@.len() as int,
            ),
    {
        proof {
            self.plan().lemma_section_length();
            if partition < self.plan().parts() {
                self.plan().lemma_part_in_section(partition as int);
                self.plan().lemma_offset_aligned(partition as int);
            } else {
                assert(self.plan().offset(partition as int) == 0);
            }
        }
        let offset = self.layout.offset_at(partition);
        let total = self.memory.len();
        let mut i: usize = 0;
        while i < data.len()
            invariant
                0 <= i <= data@.len(),
                offset + data@.len() <= total,
                self.memory@.len() == total,
                total == old(self).memory@.len(),
                self.layout == old(self).layout,
                self.gl_obj == old(self).gl_obj,
                self.memory@ == written(old(self).memory@, offset as int, data@, i as int),
            decreases data@.len() - i,
        {
            self.memory[offset + i] = data[i];
            i += 1;
        }
    }

    /// The bytes of the section as they are now: what the device is given
    /// when the buffer is finished.
    pub fn as_bytes(&self) -> (bytes: &[u8])
        ensures
            bytes@ == self.bytes(),
    {
        self.memory.as_slice()
    }

    /// Forbid any further change to the contents.
    ///
    /// # Returns
    /// An [`ImmutableBuffer`] of the same device object and layout.
    pub fn finish(self) -> (buffer: ImmutableBuffer<PARTS>)
        ensures
            buffer.object() == self.object(),
            buffer.plan() == self.plan(),
    {
        ImmutableBuffer { gl_obj: self.gl_obj, layout: self.layout.clone() }
    }
}

/// A buffer of one section whose contents do not change any more.
#[derive(Debug)]
pub struct ImmutableBuffer<const PARTS: usize> {
    gl_obj: u32,
    layout: Layout<PARTS>,
}

impl<const PARTS: usize> ImmutableBuffer<PARTS> {
    /// The device object.
    pub closed spec fn object(&self) -> u32 {
        self.gl_obj
    }

    /// The layout of the section.
    pub closed spec fn plan(&self) -> Layout<PARTS> {
        self.layout
    }

    /// The device object that holds the contents.
    pub fn gl_object(&self) -> (gl_obj: u32)
        ensures
            gl_obj == self.object(),
    {
        self.gl_obj
    }

    /// The ranges of the device buffer that hold the parts which have a
    /// shader storage binding, each with its binding, in the order of the
    /// parts.
    pub fn bind_shader_storage(&self) -> (ranges: Vec<BindRange>)
        requires
            self.plan().wf(),
        ensures
            ranges@ == bind_ranges(self.plan(), 0, PARTS as int),
    {
        proof {
            self.plan().lemma_section_length();
        }
        collect_bind_ranges(&self.layout, 0)
    }
}

} // verus!
