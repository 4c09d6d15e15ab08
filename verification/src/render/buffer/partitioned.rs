//! One device buffer, three sections, several typed parts in each.

use vstd::prelude::*;
use vstd::slice::slice_subrange;

use crate::render::buffer::layout::Layout;
use crate::render::buffer::layout::NO_BINDING;
use crate::render::buffer::view;
use crate::render::buffer::InitStrategy;

verus! {

/// The bytes `old` after the first `count` bytes of `data` were copied over
/// them from position `start` on.
pub open spec fn written(old: Seq<u8>, start: int, data: Seq<u8>, count: int) -> Seq<u8> {
    Seq::new(
        old.len(),
        |i: int|
            if start <= i < start + count {
                data[i - start]
            } else {
                old[i]
            },
    )
}

/// The bytes `old` after `count` bytes from position `start` on were cleared
/// to zero.
pub open spec fn cleared(old: Seq<u8>, start: int, count: int) -> Seq<u8> {
    Seq::new(
        old.len(),
        |i: int|
            if start <= i < start + count {
                0u8
            } else {
                old[i]
            },
    )
}

/// The smaller of two lengths: how much of a source fits its destination.
pub open spec fn fitting(room: int, wanted: int) -> int {
    if room <= wanted {
        room
    } else {
        wanted
    }
}

/// Copy the first `count` bytes of `data` into `memory`, from position
/// `start` on.
fn copy_into(memory: &mut Vec<u8>, start: usize, data: &[u8], count: usize)
    requires
        start + count <= old(memory)@.len(),
        count <= data@.len(),
    ensures
        final(memory)@ == written(old(memory)@, start as int, data@, count as int),
{
    let total = memory.len();
    let mut i: usize = 0;
    while i < count
        invariant
            0 <= i <= count,
            start + count <= total,
            count <= data@.len(),
            memory@.len() == total,
            total == old(memory)@.len(),
            memory@ == written(old(memory)@, start as int, data@, i as int),
        decreases count - i,
    {
        memory[start + i] = data[i];
        i += 1;
    }
}

/// Clear `count` bytes of `memory` to zero, from position `start` on.
fn clear_range(memory: &mut Vec<u8>, start: usize, count: usize)
    requires
        start + count <= old(memory)@.len(),
    ensures
        final(memory)@ == cleared(old(memory)@, start as int, count as int),
{
    let total = memory.len();
    let mut i: usize = 0;
    while i < count
        invariant
            0 <= i <= count,
            start + count <= total,
            memory@.len() == total,
            total == old(memory)@.len(),
            memory@ == cleared(old(memory)@, start as int, i as int),
        decreases count - i,
    {
        memory[start + i] = 0;
        i += 1;
    }
}

/// `piece` is the bytes of an element that `func` has made.
pub open spec fn made_by<F: Fn() -> Vec<u8>>(func: F, piece: Seq<u8>) -> bool {
    exists|element: Vec<u8>| #[trigger] call_ensures(func, (), element) && element@ == piece
}

/// The bytes of element `index` among elements of `size` bytes that lie
/// back to back from position `start` on.
pub open spec fn element_at(bytes: Seq<u8>, start: int, size: int, index: int) -> Seq<u8> {
    bytes.subrange(start + index * size, start + (index + 1) * size)
}

/// Elements that lie back to back do not overlap, and lie within the run of
/// all of them.
proof fn lemma_elements_apart(size: int, count: int, first: int, second: int)
    by (nonlinear_arith)
    requires
        0 < size,
        0 <= first < second <= count,
    ensures
        0 <= first * size,
        (first + 1) * size == first * size + size,
        (first + 1) * size <= second * size,
        second * size <= count * size,
{
}

/// Write `count` elements of `size` bytes each into `memory`, back to back
/// from position `start` on, each made by a call of `func`.
fn fill_elements<F: Fn() -> Vec<u8>>(
    memory: &mut Vec<u8>,
    start: usize,
    size: usize,
    count: usize,
    func: &F,
)
    requires
        size > 0,
        start + count * size <= old(memory)@.len(),
        call_requires(*func, ()),
        forall|element: Vec<u8>| #[trigger]
            call_ensures(*func, (), element) ==> element@.len() == size,
    ensures
        final(memory)@.len() == old(memory)@.len(),
        forall|k: int|
            0 <= k < count ==> made_by(
                *func,
                #[trigger] element_at(final(memory)@, start as int, size as int, k),
            ),
        forall|i: int|
            0 <= i < old(memory)@.len() && !(start <= i < start + count * size)
                ==> #[trigger] final(memory)@[i] == old(memory)@[i],
{
    let total = memory.len();
    let mut k: usize = 0;
    let mut at: usize = start;
    while k < count
        invariant
            size > 0,
            0 <= k <= count,
            at == start + k * size,
            start + count * size <= total,
            memory@.len() == total,
            total == old(memory)@.len(),
            call_requires(*func, ()),
            forall|element: Vec<u8>| #[trigger]
                call_ensures(*func, (), element) ==> element@.len() == size,
            forall|j: int|
                0 <= j < k ==> made_by(
                    *func,
                    #[trigger] element_at(memory@, start as int, size as int, j),
                ),
            forall|i: int|
                0 <= i < total && !(start <= i < at) ==> #[trigger] memory@[i] == old(memory)@[i],
        decreases count - k,
    {
        proof {
            lemma_elements_apart(size as int, count as int, k as int, k as int + 1);
        }
        let element = func();
        let ghost before = memory@;
        copy_into(memory, at, element.as_slice(), size);
        proof {
            assert(element_at(memory@, start as int, size as int, k as int) =~= element@);
            assert forall|j: int| 0 <= j < k implies made_by(
                *func,
                #[trigger] element_at(memory@, start as int, size as int, j),
            ) by {
                lemma_elements_apart(size as int, count as int, j, k as int);
                assert(made_by(*func, element_at(before, start as int, size as int, j)));
                assert(element_at(memory@, start as int, size as int, j) =~= element_at(
                    before,
                    start as int,
                    size as int,
                    j,
                ));
            }
        }
        k += 1;
        at += size;
    }
}

/// A range of a device buffer that is to be bound to a shader storage
/// block.
#[derive(Clone, Copy, Debug, PartialEq, Eq, Structural)]
pub struct BindRange {
    /// The shader storage block.
    pub binding: u32,
    /// Where the range starts, in bytes from the start of the buffer.
    pub offset: usize,
    /// The length of the range in bytes.
    pub length: usize,
}

/// The ranges to bind for the first `upto` parts of `layout`, for a section
/// that starts at `base`: one range for each part that has a binding, in the
/// order of the parts.
pub open spec fn bind_ranges<const PARTS: usize>(layout: Layout<PARTS>, base: int, upto: int) -> Seq<
    BindRange,
>
    decreases upto,
{
    if upto <= 0 {
        Seq::empty()
    } else if layout.binding(upto - 1) != NO_BINDING {
        bind_ranges(layout, base, upto - 1).push(
            BindRange {
                binding: layout.binding(upto - 1),
                offset: (base + layout.offset(upto - 1)) as usize,
                length: layout.length(upto - 1) as usize,
            },
        )
    } else {
        bind_ranges(layout, base, upto - 1)
    }
}

/// The ranges to bind for the parts of `layout` that have a shader storage
/// binding, for a section that starts at `base`, in the order of the parts.
pub fn collect_bind_ranges<const PARTS: usize>(layout: &Layout<PARTS>, base: usize) -> (ranges: Vec<
    BindRange,
>)
    requires
        layout.wf(),
        base + layout.section_length() <= usize::MAX,
    ensures
        ranges@ == bind_ranges(*layout, base as int, PARTS as int),
{
    let mut ranges: Vec<BindRange> = Vec::new();
    let mut part: usize = 0;
    while part < PARTS
        invariant
            layout.wf(),
            base + layout.section_length() <= usize::MAX,
            0 <= part <= PARTS,
            ranges@ == bind_ranges(*layout, base as int, part as int),
        decreases PARTS - part,
    {
        proof {
            layout.lemma_section_length();
            if part < layout.parts() {
                layout.lemma_part_in_section(part as int);
                layout.lemma_offset_aligned(part as int);
            } else {
                assert(layout.offset(part as int) == 0);
            }
        }
        if let Some(binding) = layout.ssbo_of(part) {
            let offset = layout.offset_at(part);
            let length = layout.length_at(part);
            ranges.push(BindRange { binding, offset: base + offset, length });
        }
        part += 1;
    }
    ranges
}

/// A partitioned triple buffer over a single block of memory.
///
/// The block holds three sections of the same [`Layout`], back to back. Each
/// section holds the parts that the layout plans, each part a run of
/// elements of one type at an aligned offset.
///
/// The buffer holds the bytes as the host sees them, and the name of the
/// device object that they belong to. Which section may be read or written
/// at a given time is not this type's concern: the sections are handed out
/// by index, and the callers keep to the order that the boundary between the
/// logic side and the render side sets.
#[derive(Debug)]
pub struct PartitionedTriBuffer<const PARTS: usize> {
    gl_obj: u32,
    layout: Layout<PARTS>,
    memory: Vec<u8>,
}

impl<const PARTS: usize> PartitionedTriBuffer<PARTS> {
    /// The device object.
    pub closed spec fn object(&self) -> u32 {
        self.gl_obj
    }

    /// The layout of each section.
    pub closed spec fn plan(&self) -> Layout<PARTS> {
        self.layout
    }

    /// The bytes of the three sections.
    pub closed spec fn bytes(&self) -> Seq<u8> {
        self.memory@
    }

    /// The length of one section in bytes.
    pub open spec fn section_length(&self) -> int {
        self.plan().section_length()
    }

    /// Where `section` starts, in bytes from the start of the buffer.
    pub open spec fn section_start(&self, section: int) -> int {
        section * self.section_length()
    }

    /// Where `part` of `section` starts, in bytes from the start of the
    /// buffer.
    pub open spec fn part_start(&self, section: int, part: int) -> int {
        self.section_start(section) + self.plan().offset(part)
    }

    /// The invariant of the buffer: the memory holds three sections, and
    /// every offset into it fits the 32 bits of a view's offset.
    pub open spec fn wf(&self) -> bool {
        &&& self.plan().wf()
        &&& self.bytes().len() == 3 * self.section_length()
        &&& 3 * self.section_length() <= u32::MAX
    }

    /// Every section lies within the memory.
    pub proof fn lemma_section_in_memory(&self, section: int)
        requires
            self.wf(),
            0 <= section < 3,
        ensures
            0 <= self.section_length(),
            0 <= self.section_start(section),
            self.section_start(section) + self.section_length() <= self.bytes().len(),
    {
        self.plan().lemma_section_length();
        assert(0 <= section * self.section_length() && section * self.section_length()
            + self.section_length() <= 3 * self.section_length()) by (nonlinear_arith)
            requires
                0 <= section < 3,
                0 <= self.section_length(),
        ;
    }

    /// Every part of every section lies within the section, and so within
    /// the memory.
    pub proof fn lemma_part_in_memory(&self, section: int, part: int)
        requires
            self.wf(),
            0 <= section < 3,
            0 <= part < PARTS,
        ensures
            0 <= self.section_start(section),
            self.section_start(section) + self.section_length() <= self.bytes().len(),
            0 <= self.plan().offset(part),
            0 <= self.plan().length(part),
            self.plan().offset(part) + self.plan().length(part) <= self.section_length(),
            self.part_start(section, part) + self.plan().length(part) <= self.bytes().len(),
    {
        self.lemma_section_in_memory(section);
        if part < self.plan().parts() {
            self.plan().lemma_part_in_section(part);
            self.plan().lemma_offset_aligned(part);
            assert(0 <= self.plan().length(part));
        } else {
            assert(self.plan().offset(part) == 0);
        }
    }

    /// Take the memory for three sections of `layout`, all bytes zero, for
    /// the device object `gl_obj`.
    pub fn new(gl_obj: u32, layout: Layout<PARTS>) -> (buffer: Self)
        requires
            layout.wf(),
            3 * layout.section_length() <= u32::MAX,
        ensures
            buffer.wf(),
            buffer.object() == gl_obj,
            buffer.plan() == layout,
            forall|i: int| 0 <= i < buffer.bytes().len() ==> #[trigger] buffer.bytes()[i] == 0,
    {
        let section_length = layout.len();
        let total_length = section_length * 3;
        let mut memory: Vec<u8> = Vec::with_capacity(total_length);
        let mut i: usize = 0;
        while i < total_length
            invariant
                0 <= i <= total_length,
                memory@.len() == i,
                forall|k: int| 0 <= k < i ==> #[trigger] memory@[k] == 0,
            decreases total_length - i,
        {
            memory.push(0);
            i += 1;
        }
        Self { gl_obj, layout, memory }
    }

    /// The layout of each section.
    pub fn layout(&self) -> (layout: &Layout<PARTS>)
        ensures
            *layout == self.plan(),
    {
        &self.layout
    }

    /// The device object that the memory belongs to.
    pub fn gl_object(&self) -> (gl_obj: u32)
        ensures
            gl_obj == self.object(),
    {
        self.gl_obj
    }

    /// The ranges of the device buffer that hold the parts of `section`
    /// which have a shader storage binding, each with its binding, in the
    /// order of the parts.
    pub fn bind_shader_storage(&self, section: usize) -> (ranges: Vec<BindRange>)
        requires
            self.wf(),
            section < 3,
        ensures
            ranges@ == bind_ranges(self.plan(), self.section_start(section as int), PARTS as int),
    {
        proof {
            self.lemma_section_in_memory(section as int);
        }
        let base_offset = self.layout.len() * section;
        collect_bind_ranges(&self.layout, base_offset)
    }

    /// Copy `data` into `section`, from the start of the section on.
    ///
    /// What does not fit the section is left out.
    pub fn blit_section(&mut self, section: usize, data: &[u8])
        requires
            old(self).wf(),
            section < 3,
        ensures
            final(self).wf(),
            final(self).object() == old(self).object(),
            final(self).plan() == old(self).plan(),
            final(self).bytes() == written(
                old(self).bytes(),
                old(self).section_start(section as int),
                data@,
                fitting(old(self).section_length(), data@.len() as int),
            ),
    {
        proof {
            self.lemma_section_in_memory(section as int);
        }
        let section_len = self.layout.len();
        let data_len = if section_len <= data.len() {
            section_len
        } else {
            data.len()
        };
        let offset = section * section_len;
        copy_into(&mut self.memory, offset, data, data_len);
    }

    /// Get a read-only view of `section`: all its bytes, whatever the parts
    /// hold.
    pub fn view_section(&self, section: usize) -> (window: view::View<'_, u8>)
        requires
            self.wf(),
            section < 3,
        ensures
            window.items() == self.bytes().subrange(
                self.section_start(section as int),
                self.section_start(section as int) + self.section_length(),
            ),
            window.offset_spec() == self.section_start(section as int),
            window.length_spec() == self.section_length(),
            window.source_spec() == self.object(),
    {
        proof {
            self.lemma_section_in_memory(section as int);
        }
        let length = self.layout.len();
        let offset = section * length;
        let slice = slice_subrange(self.memory.as_slice(), offset, offset + length);
        view::View::new(slice, offset as u32, length as u32, self.gl_obj)
    }

    /// Get a read-only view of `part` of `section`.
    pub fn view_part(&self, section: usize, part: usize) -> (window: view::View<'_, u8>)
        requires
            self.wf(),
            section < 3,
            part < PARTS,
        ensures
            window.items() == self.bytes().subrange(
                self.part_start(section as int, part as int),
                self.part_start(section as int, part as int) + self.plan().length(part as int),
            ),
            window.offset_spec() == self.plan().offset(part as int),
            window.length_spec() == self.plan().length(part as int),
            window.source_spec() == self.object(),
    {
        proof {
            self.lemma_part_in_memory(section as int, part as int);
        }
        let base_offset = section * self.layout.len();
        let offset = self.layout.offset_at(part);
        let length = self.layout.length_at(part);
        let slice = slice_subrange(
            self.memory.as_slice(),
            base_offset + offset,
            base_offset + offset + length,
        );
        view::View::new(slice, offset as u32, length as u32, self.gl_obj)
    }

    /// Copy `data` into `part` of `section`, from the start of the part on.
    ///
    /// What does not fit the part is left out.
    pub fn blit_part(&mut self, section: usize, part: usize, data: &[u8])
        requires
            old(self).wf(),
            section < 3,
            part < PARTS,
        ensures
            final(self).wf(),
            final(self).object() == old(self).object(),
            final(self).plan() == old(self).plan(),
            final(self).bytes() == written(
                old(self).bytes(),
                old(self).part_start(section as int, part as int),
                data@,
                fitting(old(self).plan().length(part as int), data@.len() as int),
            ),
    {
        proof {
            self.lemma_part_in_memory(section as int, part as int);
        }
        let base_offset = section * self.layout.len();
        let offset = self.layout.offset_at(part);
        let length = self.layout.length_at(part);
        let data_len = if length <= data.len() {
            length
        } else {
            data.len()
        };
        copy_into(&mut self.memory, base_offset + offset, data, data_len);
    }

    /// Get a view of `section` for writing: all its bytes, whatever the
    /// parts hold.
    pub fn view_section_mut(&mut self, section: usize) -> (window: view::ViewMut<'_, u8>)
        requires
            old(self).wf(),
            section < 3,
        ensures
            window.items() == old(self).bytes().subrange(
                old(self).section_start(section as int),
                old(self).section_start(section as int) + old(self).section_length(),
            ),
            window.offset_spec() == old(self).section_start(section as int),
            window.length_spec() == old(self).section_length(),
            window.source_spec() == old(self).object(),
            final(self).object() == old(self).object(),
            final(self).plan() == old(self).plan(),
            final(self).bytes() == old(self).bytes().subrange(
                0,
                old(self).section_start(section as int),
            ) + final(window.borrow())@ + old(self).bytes().subrange(
                old(self).section_start(section as int) + old(self).section_length(),
                old(self).bytes().len() as int,
            ),
    {
        proof {
            self.lemma_section_in_memory(section as int);
        }
        let length = self.layout.len();
        let offset = section * length;
        let gl_obj = self.gl_obj;
        let (_, rest) = self.memory.as_mut_slice().split_at_mut(offset);
        let (slice, _) = rest.split_at_mut(length);
        view::ViewMut::new(slice, offset as u32, length as u32, gl_obj)
    }

    /// Get a view of `part` of `section` for writing.
    pub fn view_part_mut(&mut self, section: usize, part: usize) -> (window: view::ViewMut<'_, u8>)
        requires
            old(self).wf(),
            section < 3,
            part < PARTS,
        ensures
            window.items() == old(self).bytes().subrange(
                old(self).part_start(section as int, part as int),
                old(self).part_start(section as int, part as int) + old(self).plan().length(
                    part as int,
                ),
            ),
            window.offset_spec() == old(self).plan().offset(part as int),
            window.length_spec() == old(self).plan().length(part as int),
            window.source_spec() == old(self).object(),
            final(self).object() == old(self).object(),
            final(self).plan() == old(self).plan(),
            final(self).bytes() == old(self).bytes().subrange(
                0,
                old(self).part_start(section as int, part as int),
            ) + final(window.borrow())@ + old(self).bytes().subrange(
                old(self).part_start(section as int, part as int) + old(self).plan().length(
                    part as int,
                ),
                old(self).bytes().len() as int,
            ),
    {
        proof {
            self.lemma_part_in_memory(section as int, part as int);
        }
        let base_offset = section * self.layout.len();
        let offset = self.layout.offset_at(part);
        let length = self.layout.length_at(part);
        let gl_obj = self.gl_obj;
        let (_, rest) = self.memory.as_mut_slice().split_at_mut(base_offset + offset);
        let (slice, _) = rest.split_at_mut(length);
        view::ViewMut::new(slice, offset as u32, length as u32, gl_obj)
    }

    /// Byte `i` of the memory lies within the first `reach` bytes of `part`
    /// in one of the sections before `upto`.
    pub open spec fn in_part_upto(&self, part: int, reach: int, upto: int, i: int) -> bool {
        ||| (0 < upto && self.part_start(0, part) <= i < self.part_start(0, part) + reach)
        ||| (1 < upto && self.part_start(1, part) <= i < self.part_start(1, part) + reach)
        ||| (2 < upto && self.part_start(2, part) <= i < self.part_start(2, part) + reach)
    }

    /// Byte `i` of the memory lies within `part`, in whichever section.
    pub open spec fn in_part(&self, part: int, i: int) -> bool {
        self.in_part_upto(part, self.plan().length(part), 3, i)
    }

    /// Byte `i` of the memory lies within one of the elements of `size`
    /// bytes that fit `part` back to back, in whichever section.
    pub open spec fn in_elements(&self, part: int, size: int, i: int) -> bool {
        self.in_part_upto(part, (self.plan().length(part) / size) * size, 3, i)
    }

    /// Set the elements of `part` before its first use, in each of the
    /// three sections.
    ///
    /// With [`InitStrategy::Zero`] every byte of the part is cleared to
    /// zero. With [`InitStrategy::FillWith`] the part is filled with
    /// elements of `size` bytes, back to back from the start of the part
    /// on, as many as fit it; the function is called once for each element
    /// and returns the bytes of that element.
    ///
    /// What lies outside the part stays as it is.
    pub fn initialise_part<F: Fn() -> Vec<u8>>(
        &mut self,
        part: usize,
        size: usize,
        strategy: InitStrategy<Vec<u8>, F>,
    )
        requires
            old(self).wf(),
            part < PARTS,
            strategy matches InitStrategy::FillWith(func) ==> {
                &&& size > 0
                &&& call_requires(func, ())
                &&& forall|element: Vec<u8>| #[trigger]
                    call_ensures(func, (), element) ==> element@.len() == size
            },
        ensures
            final(self).wf(),
            final(self).object() == old(self).object(),
            final(self).plan() == old(self).plan(),
            strategy is Zero ==> forall|i: int|
                0 <= i < old(self).bytes().len() ==> #[trigger] final(self).bytes()[i] == (if old(
                    self,
                ).in_part(part as int, i) {
                    0u8
                } else {
                    old(self).bytes()[i]
                }),
            strategy matches InitStrategy::FillWith(func) ==> {
                &&& forall|section: int, k: int|
                    0 <= section < 3 && 0 <= k < old(self).plan().length(part as int) / (
                    size as int) ==> made_by(
                        func,
                        #[trigger] element_at(
                            final(self).bytes(),
                            old(self).part_start(section, part as int),
                            size as int,
                            k,
                        ),
                    )
                &&& forall|i: int|
                    0 <= i < old(self).bytes().len() && !old(self).in_elements(
                        part as int,
                        size as int,
                        i,
                    ) ==> #[trigger] final(self).bytes()[i] == old(self).bytes()[i]
            },
    {
        let len = self.layout.length_at(part);
        let offset = self.layout.offset_at(part);
        let section_len = self.layout.len();
        proof {
            self.lemma_part_in_memory(0, part as int);
            self.lemma_part_in_memory(1, part as int);
            self.lemma_part_in_memory(2, part as int);
        }

        match strategy {
            InitStrategy::Zero => {
                let mut section: usize = 0;
                while section < 3
                    invariant
                        0 <= section <= 3,
                        part < PARTS,
                        self.wf(),
                        self.object() == old(self).object(),
                        self.plan() == old(self).plan(),
                        len == self.plan().length(part as int),
                        offset == self.plan().offset(part as int),
                        section_len == self.section_length(),
                        self.bytes().len() == old(self).bytes().len(),
                        forall|i: int|
                            0 <= i < old(self).bytes().len() ==> #[trigger] self.bytes()[i] == (
                            if old(self).in_part_upto(part as int, len as int, section as int, i) {
                                0u8
                            } else {
                                old(self).bytes()[i]
                            }),
                    decreases 3 - section,
                {
                    proof {
                        self.lemma_part_in_memory(section as int, part as int);
                    }
                    let section_offset = section_len * section;
                    clear_range(&mut self.memory, section_offset + offset, len);
                    section += 1;
                }
            },
            InitStrategy::FillWith(func) => {
                let count = len / size;
                proof {
                    vstd::arithmetic::div_mod::lemma_fundamental_div_mod(len as int, size as int);
                    assert(0 <= (len as int) % (size as int)) by (nonlinear_arith)
                        requires
                            size > 0,
                    ;
                    assert(count * size == size * count) by (nonlinear_arith);
                }
                let mut section: usize = 0;
                while section < 3
                    invariant
                        0 <= section <= 3,
                        part < PARTS,
                        size > 0,
                        count == len / size,
                        count * size <= len,
                        self.wf(),
                        self.object() == old(self).object(),
                        self.plan() == old(self).plan(),
                        len == self.plan().length(part as int),
                        offset == self.plan().offset(part as int),
                        section_len == self.section_length(),
                        self.bytes().len() == old(self).bytes().len(),
                        call_requires(func, ()),
                        forall|element: Vec<u8>| #[trigger]
                            call_ensures(func, (), element) ==> element@.len() == size,
                        forall|s: int, k: int|
                            0 <= s < section && 0 <= k < count ==> made_by(
                                func,
                                #[trigger] element_at(
                                    self.bytes(),
                                    old(self).part_start(s, part as int),
                                    size as int,
                                    k,
                                ),
                            ),
                        forall|i: int|
                            0 <= i < old(self).bytes().len() && !old(self).in_part_upto(
                                part as int,
                                count * size,
                                section as int,
                                i,
                            ) ==> #[trigger] self.bytes()[i] == old(self).bytes()[i],
                    decreases 3 - section,
                {
                    proof {
                        self.lemma_part_in_memory(section as int, part as int);
                        self.lemma_part_in_memory(0, part as int);
                        self.lemma_part_in_memory(1, part as int);
                        self.lemma_part_in_memory(2, part as int);
                    }
                    let section_offset = section_len * section;
                    let ghost before = self.bytes();
                    fill_elements(&mut self.memory, section_offset + offset, size, count, &func);
                    proof {
                        assert forall|s: int, k: int| 0 <= s < section && 0 <= k < count implies made_by(
                            func,
                            #[trigger] element_at(
                                self.bytes(),
                                old(self).part_start(s, part as int),
                                size as int,
                                k,
                            ),
                        ) by {
                            lemma_elements_apart(size as int, count as int, k, k + 1);
                            assert(made_by(
                                func,
                                element_at(
                                    before,
                                    old(self).part_start(s, part as int),
                                    size as int,
                                    k,
                                ),
                            ));
                            assert(element_at(
                                self.bytes(),
                                old(self).part_start(s, part as int),
                                size as int,
                                k,
                            ) =~= element_at(
                                before,
                                old(self).part_start(s, part as int),
                                size as int,
                                k,
                            ));
                        }
                    }
                    section += 1;
                }
            },
        }
    }
}

} // verus!
