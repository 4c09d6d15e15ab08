//! The plan of one buffer section: typed parts, each at an aligned offset.

use vstd::arithmetic::div_mod::lemma_fundamental_div_mod;
use vstd::arithmetic::div_mod::lemma_fundamental_div_mod_converse;
use vstd::prelude::*;

verus! {

/// The binding value that stands for "this part is bound to no shader
/// storage block".
pub const NO_BINDING: u32 = 0xffff_ffff;

/// `cursor` rounded up to the next multiple of `alignment`.
pub open spec fn align_up(cursor: int, alignment: int) -> int {
    ((cursor + alignment - 1) / alignment) * alignment
}

/// Rounding up gives the least multiple of the alignment that is not below
/// the cursor.
pub proof fn lemma_align_up(cursor: int, alignment: int)
    requires
        0 <= cursor,
        0 < alignment,
    ensures
        align_up(cursor, alignment) % alignment == 0,
        cursor <= align_up(cursor, alignment) < cursor + alignment,
        cursor % alignment == 0 ==> align_up(cursor, alignment) == cursor,
{
    let y = cursor + alignment - 1;
    let q = y / alignment;
    lemma_fundamental_div_mod(y, alignment);
    assert(y == alignment * q + y % alignment);
    assert(alignment * q == q * alignment) by (nonlinear_arith);
    assert(0 <= y % alignment < alignment) by (nonlinear_arith)
        requires
            0 < alignment,
    ;
    assert((q * alignment) % alignment == 0) by (nonlinear_arith)
        requires
            0 < alignment,
    ;
    if cursor % alignment == 0 {
        let c = cursor / alignment;
        lemma_fundamental_div_mod(cursor, alignment);
        assert(y == c * alignment + (alignment - 1)) by (nonlinear_arith)
            requires
                cursor == alignment * c + 0,
                y == cursor + alignment - 1,
        ;
        lemma_fundamental_div_mod_converse(y, alignment, c, alignment - 1);
    }
}

/// Round `cursor` up to the next multiple of `alignment`.
pub fn align_to(cursor: usize, alignment: usize) -> (aligned: usize)
    requires
        alignment > 0,
        cursor + alignment - 1 <= usize::MAX,
    ensures
        aligned == align_up(cursor as int, alignment as int),
{
    let reach = cursor + (alignment - 1);
    let whole = reach / alignment;
    proof {
        lemma_fundamental_div_mod(reach as int, alignment as int);
        assert(0 <= (reach as int) % (alignment as int)) by (nonlinear_arith)
            requires
                alignment > 0,
        ;
        assert(whole * alignment == alignment * whole) by (nonlinear_arith);
    }
    whole * alignment
}

/// The plan of one section of a partitioned buffer: up to `PARTS` typed
/// parts, laid out one after the other.
///
/// Each part starts at the end of the part before it, rounded up to the
/// device's offset alignment for shader storage, so that each part can be
/// bound as a range of its own.
#[derive(Debug)]
pub struct Layout<const PARTS: usize> {
    /// The number of parts planned so far.
    head: usize,
    /// The end of the last part, in bytes from the start of the section.
    last: usize,
    /// The offset alignment for shader storage that the device reports.
    alignment: usize,
    offsets: [usize; PARTS],
    lengths: [usize; PARTS],
    shader: [u32; PARTS],
}

impl<const PARTS: usize> Clone for Layout<PARTS> {
    fn clone(&self) -> (layout: Self)
        ensures
            layout == *self,
    {
        Layout {
            head: self.head,
            last: self.last,
            alignment: self.alignment,
            offsets: self.offsets,
            lengths: self.lengths,
            shader: self.shader,
        }
    }
}

impl<const PARTS: usize> Layout<PARTS> {
    /// The number of parts planned so far.
    pub closed spec fn parts(&self) -> int {
        self.head as int
    }

    /// The end of the last part, in bytes from the start of the section.
    pub closed spec fn cursor(&self) -> int {
        self.last as int
    }

    /// The alignment of part offsets, in bytes.
    pub closed spec fn alignment(&self) -> int {
        self.alignment as int
    }

    /// The offset of part `index`, in bytes from the start of the section.
    pub closed spec fn offset(&self, index: int) -> int {
        self.offsets@[index] as int
    }

    /// The length of part `index`, in bytes.
    pub closed spec fn length(&self, index: int) -> int {
        self.lengths@[index] as int
    }

    /// The shader storage binding of part `index`, or [`NO_BINDING`].
    pub closed spec fn binding(&self, index: int) -> u32 {
        self.shader@[index]
    }

    /// The length of one section: the least multiple of the alignment that
    /// lies above the end of the last part. So a section ends with padding,
    /// of one byte at least and one alignment step at most, and the next
    /// section starts at an aligned offset as well.
    pub open spec fn section_length(&self) -> int {
        align_up(self.cursor() + 1, self.alignment())
    }

    /// The invariant of a layout.
    pub open spec fn wf(&self) -> bool {
        &&& self.alignment() > 0
        &&& 0 <= self.parts() <= PARTS
        &&& 0 <= self.cursor()
        &&& self.cursor() + self.alignment() <= usize::MAX
        &&& self.parts() == 0 ==> self.cursor() == 0
        &&& self.parts() > 0 ==> self.offset(0) == 0 && self.cursor() == self.offset(
            self.parts() - 1,
        ) + self.length(self.parts() - 1)
        &&& forall|i: int|
            0 < i < self.parts() ==> #[trigger] self.offset(i) == align_up(
                self.offset(i - 1) + self.length(i - 1),
                self.alignment(),
            )
        &&& forall|i: int| 0 <= i < self.parts() ==> 0 <= #[trigger] self.length(i)
        &&& forall|i: int|
            self.parts() <= i < PARTS ==> #[trigger] self.offset(i) == 0 && self.length(i) == 0
                && self.binding(i) == NO_BINDING
    }

    /// `other` plans part `index` as `self` does.
    pub open spec fn same_part(&self, other: &Self, index: int) -> bool {
        &&& self.offset(index) == other.offset(index)
        &&& self.length(index) == other.length(index)
        &&& self.binding(index) == other.binding(index)
    }

    /// Every planned part starts at an aligned offset, not before the start
    /// of the section.
    pub proof fn lemma_offset_aligned(&self, index: int)
        requires
            self.wf(),
            0 <= index < self.parts(),
        ensures
            0 <= self.offset(index),
            self.offset(index) % self.alignment() == 0,
        decreases index,
    {
        if index > 0 {
            self.lemma_offset_aligned(index - 1);
            assert(0 <= self.length(index - 1));
            lemma_align_up(self.offset(index - 1) + self.length(index - 1), self.alignment());
        } else {
            assert(0int % self.alignment() == 0) by (nonlinear_arith)
                requires
                    self.alignment() > 0,
            ;
        }
    }

    /// The parts do not overlap and come in the order in which they were
    /// planned: a part ends where a later one starts, or before.
    pub proof fn lemma_parts_ordered(&self, first: int, second: int)
        requires
            self.wf(),
            0 <= first < second < self.parts(),
        ensures
            self.offset(first) + self.length(first) <= self.offset(second),
        decreases second - first,
    {
        self.lemma_offset_aligned(second - 1);
        assert(0 <= self.length(second - 1));
        lemma_align_up(self.offset(second - 1) + self.length(second - 1), self.alignment());
        if first < second - 1 {
            self.lemma_parts_ordered(first, second - 1);
        }
    }

    /// Between a part and the next lies less than one alignment step of
    /// padding.
    pub proof fn lemma_padding(&self, index: int)
        requires
            self.wf(),
            0 < index < self.parts(),
        ensures
            self.offset(index - 1) + self.length(index - 1) <= self.offset(index),
            self.offset(index) < self.offset(index - 1) + self.length(index - 1) + self.alignment(),
    {
        self.lemma_offset_aligned(index - 1);
        assert(0 <= self.length(index - 1));
        lemma_align_up(self.offset(index - 1) + self.length(index - 1), self.alignment());
    }

    /// Every planned part lies within the section, and the section length
    /// is aligned.
    pub proof fn lemma_part_in_section(&self, index: int)
        requires
            self.wf(),
            0 <= index < self.parts(),
        ensures
            self.offset(index) + self.length(index) <= self.cursor(),
            self.cursor() < self.section_length() <= usize::MAX,
            self.section_length() % self.alignment() == 0,
    {
        lemma_align_up(self.cursor() + 1, self.alignment());
        if index < self.parts() - 1 {
            self.lemma_parts_ordered(index, self.parts() - 1);
            assert(0 <= self.length(self.parts() - 1));
        }
    }

    /// The section length is aligned, and lies above the end of the last
    /// part by one alignment step at most.
    pub proof fn lemma_section_length(&self)
        requires
            self.wf(),
        ensures
            self.cursor() < self.section_length() <= self.cursor() + self.alignment(),
            self.section_length() <= usize::MAX,
            self.section_length() % self.alignment() == 0,
    {
        lemma_align_up(self.cursor() + 1, self.alignment());
    }

    /// Create a layout without parts, for a device whose offset alignment
    /// for shader storage is `alignment` bytes.
    pub fn new(alignment: usize) -> (layout: Self)
        requires
            PARTS != 0,
            alignment > 0,
        ensures
            layout.wf(),
            layout.parts() == 0,
            layout.alignment() == alignment,
    {
        Self {
            head: 0,
            last: 0,
            alignment,
            offsets: [0;PARTS],
            lengths: [0;PARTS],
            shader: [NO_BINDING;PARTS],
        }
    }

    /// Plan the next part: `count` elements of type `T`.
    ///
    /// The part starts at the end of the part before it, rounded up to the
    /// alignment. It has no shader storage binding.
    pub fn partition<T: Sized>(self, count: usize) -> (layout: Self)
        requires
            self.wf(),
            self.parts() < PARTS,
            align_up(self.cursor(), self.alignment()) + vstd::layout::size_of::<T>() * count
                + self.alignment() <= usize::MAX,
        ensures
            layout.wf(),
            layout.alignment() == self.alignment(),
            layout.parts() == self.parts() + 1,
            layout.offset(self.parts()) == align_up(self.cursor(), self.alignment()),
            layout.length(self.parts()) == vstd::layout::size_of::<T>() * count,
            layout.binding(self.parts()) == NO_BINDING,
            layout.cursor() == layout.offset(self.parts()) + layout.length(self.parts()),
            forall|i: int| 0 <= i < PARTS && i != self.parts() ==> layout.same_part(&self, i),
    {
        let mut layout = self;
        let head = layout.head;
        proof {
            lemma_align_up(self.cursor(), self.alignment());
            assert(vstd::layout::size_of::<T>() * count <= usize::MAX) by (nonlinear_arith)
                requires
                    align_up(self.cursor(), self.alignment()) + vstd::layout::size_of::<T>()
                        * count + self.alignment() <= usize::MAX,
                    0 <= align_up(self.cursor(), self.alignment()),
                    self.alignment() > 0,
            ;
            assert(self.offset(head as int) == 0);
        }
        let length = core::mem::size_of::<T>() * count;

        let offset = align_to(layout.last, layout.alignment);
        layout.offsets[head] = offset;
        layout.lengths[head] = length;

        layout.last = length + offset;
        layout.head += 1;

        proof {
            assert forall|i: int| 0 < i < layout.parts() implies #[trigger] layout.offset(i)
                == align_up(layout.offset(i - 1) + layout.length(i - 1), layout.alignment()) by {
                if i < head {
                    assert(self.offset(i) == align_up(
                        self.offset(i - 1) + self.length(i - 1),
                        self.alignment(),
                    ));
                }
            }
            assert forall|i: int| 0 <= i < layout.parts() implies 0 <= #[trigger] layout.length(
                i,
            ) by {
                if i < head {
                    assert(0 <= self.length(i));
                }
            }
            assert forall|i: int| layout.parts() <= i < PARTS implies #[trigger] layout.offset(i)
                == 0 && layout.length(i) == 0 && layout.binding(i) == NO_BINDING by {
                assert(self.offset(i) == 0);
            }
            if head > 0 {
                assert(self.offset(0) == 0);
            }
        }
        layout
    }

    /// Bind the part that was planned last to the shader storage block
    /// `binding`.
    pub fn with_shader_storage(self, binding: u32) -> (layout: Self)
        requires
            self.wf(),
            self.parts() >= 1,
        ensures
            layout.wf(),
            layout.alignment() == self.alignment(),
            layout.parts() == self.parts(),
            layout.cursor() == self.cursor(),
            layout.binding(self.parts() - 1) == binding,
            forall|i: int|
                0 <= i < PARTS ==> layout.offset(i) == self.offset(i) && layout.length(i)
                    == self.length(i),
            forall|i: int|
                0 <= i < PARTS && i != self.parts() - 1 ==> layout.binding(i) == self.binding(i),
    {
        let mut layout = self;
        layout.shader[layout.head - 1] = binding;
        proof {
            assert forall|i: int| 0 < i < layout.parts() implies #[trigger] layout.offset(i)
                == align_up(layout.offset(i - 1) + layout.length(i - 1), layout.alignment()) by {
                assert(self.offset(i) == align_up(
                    self.offset(i - 1) + self.length(i - 1),
                    self.alignment(),
                ));
            }
            assert forall|i: int| 0 <= i < layout.parts() implies 0 <= #[trigger] layout.length(
                i,
            ) by {
                assert(0 <= self.length(i));
            }
            assert forall|i: int| layout.parts() <= i < PARTS implies #[trigger] layout.offset(i)
                == 0 && layout.length(i) == 0 && layout.binding(i) == NO_BINDING by {
                assert(self.offset(i) == 0);
            }
        }
        layout
    }

    /// The offset (in bytes) of the part at `index` within a section.
    pub fn offset_at(&self, index: usize) -> (offset: usize)
        requires
            index < PARTS,
        ensures
            offset == self.offset(index as int),
    {
        self.offsets[index]
    }

    /// The length (in bytes) of the part at `index`.
    pub fn length_at(&self, index: usize) -> (length: usize)
        requires
            index < PARTS,
        ensures
            length == self.length(index as int),
    {
        self.lengths[index]
    }

    /// The shader storage binding of the part at `index`, if it has one.
    pub fn ssbo_of(&self, index: usize) -> (binding: Option<u32>)
        requires
            index < PARTS,
        ensures
            binding == if self.binding(index as int) != NO_BINDING {
                Some(self.binding(index as int))
            } else {
                None
            },
    {
        let binding = self.shader[index];
        if binding != NO_BINDING {
            Some(binding)
        } else {
            None
        }
    }

    /// The length of one section in bytes: the least multiple of the
    /// alignment above the end of the last part.
    ///
    /// Sections lie back to back in one device buffer, so only with this
    /// length does every section, and every part in it, start at an offset
    /// that the device accepts for binding a range.
    pub fn len(&self) -> (length: usize)
        requires
            self.wf(),
        ensures
            length == self.section_length(),
    {
        align_to(self.last + 1, self.alignment)
    }
}

/// What is asked of one part of a section: so many elements of such a size,
/// bound to a shader storage block or, with [`NO_BINDING`], to none.
#[derive(Clone, Copy, Debug, PartialEq, Eq, Structural)]
pub struct PartSpec {
    /// The size of one element in bytes.
    pub size: usize,
    /// The number of elements.
    pub count: usize,
    /// The shader storage block, or [`NO_BINDING`].
    pub binding: u32,
}

/// The end of the first `upto` of `parts`, laid out one after the other at
/// aligned offsets.
pub open spec fn plan_end(alignment: int, parts: Seq<PartSpec>, upto: int) -> int
    decreases upto,
{
    if upto <= 0 {
        0
    } else {
        align_up(plan_end(alignment, parts, upto - 1), alignment) + parts[upto - 1].size * parts[upto
            - 1].count
    }
}

/// The parts can be laid out: there is room for each in the layout, and
/// every end, with the padding behind it, fits the machine word.
pub open spec fn plan_fits(room: int, alignment: int, parts: Seq<PartSpec>) -> bool {
    &&& room != 0
    &&& alignment > 0
    &&& parts.len() <= room
    &&& forall|upto: int|
        0 <= upto <= parts.len() ==> #[trigger] plan_end(alignment, parts, upto) + alignment
            <= usize::MAX
}

/// No part ends before the start of the section.
pub proof fn lemma_plan_end_positive(alignment: int, parts: Seq<PartSpec>, upto: int)
    requires
        alignment > 0,
        0 <= upto <= parts.len(),
    ensures
        0 <= plan_end(alignment, parts, upto),
    decreases upto,
{
    if upto > 0 {
        lemma_plan_end_positive(alignment, parts, upto - 1);
        lemma_align_up(plan_end(alignment, parts, upto - 1), alignment);
        assert(0 <= parts[upto - 1].size * parts[upto - 1].count) by (nonlinear_arith)
            requires
                0 <= parts[upto - 1].size,
                0 <= parts[upto - 1].count,
        ;
    }
}

impl<const PARTS: usize> Layout<PARTS> {
    /// Lay out `parts`, in their order, for a device whose offset alignment
    /// for shader storage is `alignment` bytes.
    ///
    /// # Returns
    /// The layout, or `None` where the parts cannot be laid out: the layout
    /// has no room for them, the alignment is zero, or an offset does not
    /// fit the machine word.
    pub fn plan(alignment: usize, parts: &[PartSpec]) -> (planned: Option<Self>)
        ensures
            planned is Some <==> plan_fits(PARTS as int, alignment as int, parts@),
            planned matches Some(layout) ==> {
                &&& layout.wf()
                &&& layout.alignment() == alignment
                &&& layout.parts() == parts@.len()
                &&& layout.cursor() == plan_end(alignment as int, parts@, parts@.len() as int)
                &&& forall|i: int|
                    0 <= i < parts@.len() ==> #[trigger] layout.length(i) == parts@[i].size
                        * parts@[i].count
                &&& forall|i: int|
                    0 <= i < parts@.len() ==> #[trigger] layout.binding(i) == parts@[i].binding
            },
    {
        if PARTS == 0 || alignment == 0 || parts.len() > PARTS {
            return None;
        }
        let mut layout = Self::new(alignment);
        proof {
            assert(plan_end(alignment as int, parts@, 0) == 0);
        }
        let mut i: usize = 0;
        while i < parts.len()
            invariant
                PARTS != 0,
                alignment > 0,
                parts@.len() <= PARTS,
                0 <= i <= parts@.len(),
                layout.wf(),
                layout.alignment() == alignment,
                layout.parts() == i,
                layout.cursor() == plan_end(alignment as int, parts@, i as int),
                forall|upto: int|
                    0 <= upto <= i ==> #[trigger] plan_end(alignment as int, parts@, upto)
                        + alignment <= usize::MAX,
                forall|k: int|
                    0 <= k < i ==> #[trigger] layout.length(k) == parts@[k].size * parts@[k].count,
                forall|k: int| 0 <= k < i ==> #[trigger] layout.binding(k) == parts@[k].binding,
            decreases parts@.len() - i,
        {
            let part = parts[i];
            let ghost before = layout;
            proof {
                lemma_align_up(layout.cursor(), alignment as int);
                lemma_plan_end_positive(alignment as int, parts@, i as int);
                assert(0 <= part.size * part.count) by (nonlinear_arith)
                    requires
                        0 <= part.size,
                        0 <= part.count,
                ;
            }
            let offset = align_to(layout.last, alignment);
            let fits = match part.size.checked_mul(part.count) {
                Some(length) => match offset.checked_add(length) {
                    Some(end) => end.checked_add(alignment).is_some(),
                    None => false,
                },
                None => false,
            };
            if !fits {
                proof {
                    assert(plan_end(alignment as int, parts@, i + 1) + alignment > usize::MAX);
                }
                return None;
            }
            let length = part.size * part.count;
            layout.offsets[i] = offset;
            layout.lengths[i] = length;
            layout.shader[i] = part.binding;
            layout.last = length + offset;
            layout.head += 1;
            i += 1;
            proof {
                assert forall|k: int| 0 < k < layout.parts() implies #[trigger] layout.offset(k)
                    == align_up(layout.offset(k - 1) + layout.length(k - 1), layout.alignment()) by {
                    if k < i - 1 {
                        assert(before.offset(k) == align_up(
                            before.offset(k - 1) + before.length(k - 1),
                            before.alignment(),
                        ));
                    }
                }
                assert forall|k: int| 0 <= k < layout.parts() implies 0 <= #[trigger] layout.length(
                    k,
                ) by {
                    if k < i - 1 {
                        assert(0 <= before.length(k));
                    }
                }
                assert forall|k: int| layout.parts() <= k < PARTS implies #[trigger] layout.offset(k)
                    == 0 && layout.length(k) == 0 && layout.binding(k) == NO_BINDING by {
                    assert(before.offset(k) == 0);
                }
                if i > 1 {
                    assert(before.offset(0) == 0);
                }
                assert forall|k: int| 0 <= k < i implies #[trigger] layout.length(k) == parts@[k].size
                    * parts@[k].count by {
                    if k < i - 1 {
                        assert(before.length(k) == parts@[k].size * parts@[k].count);
                    }
                }
                assert forall|k: int| 0 <= k < i implies #[trigger] layout.binding(k)
                    == parts@[k].binding by {
                    if k < i - 1 {
                        assert(before.binding(k) == parts@[k].binding);
                    }
                }
            }
        }
        Some(layout)
    }
}

} // verus!
