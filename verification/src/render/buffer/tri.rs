//! Three device buffers of one element type, one for each section.

use vstd::prelude::*;

use crate::render::buffer::view;
use crate::render::buffer::InitStrategy;

verus! {

/// A device object that is to be bound as a whole to a shader storage
/// block.
#[derive(Clone, Copy, Debug, PartialEq, Eq, Structural)]
pub struct BindBase {
    /// The shader storage block.
    pub binding: u32,
    /// The device object.
    pub object: u32,
}

/// A triple buffer over three blocks of memory, one for each section, all
/// of one element type.
///
/// Unlike the partitioned buffer, each section is a device object of its
/// own. That is what buffers need which the device takes only as a whole,
/// never as a range of a larger one, such as buffers of indirect draw
/// commands. For the same reason there are no parts.
///
/// The buffer holds the elements as the host sees them, and the names of
/// the device objects that they belong to.
#[derive(Debug)]
pub struct TriBuffer<T: Sized + Clone> {
    gl_obj: [u32; 3],
    sections: [Vec<T>; 3],
    capacity: usize,
}

impl<T> TriBuffer<T> where T: Sized + Clone {
    /// The device object of each section.
    pub closed spec fn objects(&self) -> Seq<u32> {
        self.gl_obj@
    }

    /// The elements of `section`.
    pub closed spec fn section(&self, section: int) -> Seq<T> {
        self.sections@[section]@
    }

    /// The number of elements in each section.
    pub closed spec fn capacity(&self) -> nat {
        self.capacity as nat
    }

    /// The invariant of the buffer: every section holds as many elements as
    /// the capacity says, and that number fits the 32 bits of a view's
    /// length.
    pub open spec fn wf(&self) -> bool {
        &&& self.objects().len() == 3
        &&& self.capacity() <= u32::MAX
        &&& forall|s: int| 0 <= s < 3 ==> (#[trigger] self.section(s)).len() == self.capacity()
    }

    /// Make one section of `capacity` elements.
    fn make_section<F: Fn() -> T>(capacity: usize, init: &InitStrategy<T, F>) -> (section: Vec<T>)
        where T: Default
        requires
            init matches InitStrategy::FillWith(func) ==> call_requires(*func, ()),
        ensures
            section@.len() == capacity,
            init matches InitStrategy::FillWith(func) ==> forall|i: int|
                0 <= i < capacity ==> call_ensures(*func, (), #[trigger] section@[i]),
            init is Zero ==> forall|i: int|
                0 <= i < capacity ==> call_ensures(T::default, (), #[trigger] section@[i]),
    {
        let mut section: Vec<T> = Vec::with_capacity(capacity);
        let mut j: usize = 0;
        while j < capacity
            invariant
                0 <= j <= capacity,
                section@.len() == j,
                init matches InitStrategy::FillWith(func) ==> call_requires(*func, ()),
                init matches InitStrategy::FillWith(func) ==> forall|i: int|
                    0 <= i < j ==> call_ensures(*func, (), #[trigger] section@[i]),
                init is Zero ==> forall|i: int|
                    0 <= i < j ==> call_ensures(T::default, (), #[trigger] section@[i]),
            decreases capacity - j,
        {
            match init {
                InitStrategy::Zero => section.push(T::default()),
                InitStrategy::FillWith(func) => section.push(func()),
            }
            j += 1;
        }
        section
    }

    /// Take the memory for three sections of `capacity` elements each, for
    /// the device objects `gl_obj`, and set every element as `init` says.
    ///
    /// With [`InitStrategy::Zero`] every element is a default value of `T`:
    /// the value that stands, on the host, for an element whose bytes are
    /// all zero.
    pub fn new<F: Fn() -> T>(gl_obj: [u32; 3], capacity: usize, init: InitStrategy<T, F>) -> (buffer:
        Self) where T: Default
        requires
            capacity <= u32::MAX,
            init matches InitStrategy::FillWith(func) ==> call_requires(func, ()),
        ensures
            buffer.wf(),
            buffer.objects() == gl_obj@,
            buffer.capacity() == capacity,
            init matches InitStrategy::FillWith(func) ==> forall|s: int, i: int|
                0 <= s < 3 && 0 <= i < capacity ==> call_ensures(
                    func,
                    (),
                    #[trigger] buffer.section(s)[i],
                ),
            init is Zero ==> forall|s: int, i: int|
                0 <= s < 3 && 0 <= i < capacity ==> call_ensures(
                    T::default,
                    (),
                    #[trigger] buffer.section(s)[i],
                ),
    {
        let front = Self::make_section(capacity, &init);
        let back = Self::make_section(capacity, &init);
        let spare = Self::make_section(capacity, &init);
        Self { gl_obj, sections: [front, back, spare], capacity }
    }

    /// The device object of `section` together with the shader storage
    /// block `ssbo_index`, to which it is to be bound as a whole.
    pub fn bind_shader_storage(&self, section: usize, ssbo_index: usize) -> (bind: BindBase)
        requires
            self.wf(),
            section < 3,
            ssbo_index <= u32::MAX,
        ensures
            bind.binding == ssbo_index,
            bind.object == self.objects()[section as int],
    {
        BindBase { binding: ssbo_index as u32, object: self.gl_obj[section] }
    }

    /// Get a read-only view of `section`.
    pub fn view_section(&self, section: usize) -> (window: view::View<'_, T>)
        requires
            self.wf(),
            section < 3,
        ensures
            window.items() == self.section(section as int),
            window.offset_spec() == 0,
            window.length_spec() == self.capacity(),
            window.source_spec() == self.objects()[section as int],
    {
        proof {
            assert(self.section(section as int).len() == self.capacity());
        }
        view::View::new(
            self.sections[section].as_slice(),
            0,
            self.capacity as u32,
            self.gl_obj[section],
        )
    }

    /// Get a view of `section` for writing.
    pub fn view_section_mut(&mut self, section: usize) -> (window: view::ViewMut<'_, T>)
        requires
            old(self).wf(),
            section < 3,
        ensures
            window.items() == old(self).section(section as int),
            window.offset_spec() == 0,
            window.length_spec() == old(self).capacity(),
            window.source_spec() == old(self).objects()[section as int],
            final(self).objects() == old(self).objects(),
            final(self).capacity() == old(self).capacity(),
            final(self).section(section as int) == final(window.borrow())@,
            forall|s: int|
                0 <= s < 3 && s != section ==> #[trigger] final(self).section(s) == old(
                    self,
                ).section(s),
    {
        let capacity = self.capacity as u32;
        let gl_obj = self.gl_obj[section];
        view::ViewMut::new(self.sections[section].as_mut_slice(), 0, capacity, gl_obj)
    }

    /// Get the elements of `section` for writing, as a plain slice.
    pub fn section_mut(&mut self, section: usize) -> (elements: &mut [T])
        requires
            old(self).wf(),
            section < 3,
        ensures
            elements@ == old(self).section(section as int),
            final(self).objects() == old(self).objects(),
            final(self).capacity() == old(self).capacity(),
            final(self).section(section as int) == final(elements)@,
            forall|s: int|
                0 <= s < 3 && s != section ==> #[trigger] final(self).section(s) == old(
                    self,
                ).section(s),
    {
        self.sections[section].as_mut_slice()
    }

    /// Copy `data` into `section`, from the first element on.
    ///
    /// What does not fit the section is left out.
    pub fn blit_section(&mut self, section: usize, data: &[T])
        requires
            old(self).wf(),
            section < 3,
        ensures
            final(self).wf(),
            final(self).objects() == old(self).objects(),
            final(self).capacity() == old(self).capacity(),
            forall|i: int|
                0 <= i < old(self).capacity() && i < data@.len() ==> cloned(
                    data@[i],
                    #[trigger] final(self).section(section as int)[i],
                ),
            forall|i: int|
                data@.len() <= i < old(self).capacity() ==> #[trigger] final(self).section(
                    section as int,
                )[i] == old(self).section(section as int)[i],
            forall|s: int|
                0 <= s < 3 && s != section ==> #[trigger] final(self).section(s) == old(
                    self,
                ).section(s),
    {
        proof {
            assert(self.section(section as int).len() == self.capacity());
        }
        let len = if self.capacity <= data.len() {
            self.capacity
        } else {
            data.len()
        };
        clone_into(&mut self.sections[section], data, len);
        proof {
            assert forall|s: int| 0 <= s < 3 implies (#[trigger] self.section(s)).len()
                == self.capacity() by {
                if s != section {
                    assert(self.section(s) == old(self).section(s));
                    assert(old(self).section(s).len() == old(self).capacity());
                }
            }
        }
    }
}

/// Copy the first `count` elements of `data` over the first `count`
/// elements of `target`.
fn clone_into<T: Clone>(target: &mut Vec<T>, data: &[T], count: usize)
    requires
        count <= old(target)@.len(),
        count <= data@.len(),
    ensures
        final(target)@.len() == old(target)@.len(),
        forall|i: int| 0 <= i < count ==> cloned(data@[i], #[trigger] final(target)@[i]),
        forall|i: int|
            count <= i < old(target)@.len() ==> #[trigger] final(target)@[i] == old(target)@[i],
{
    let mut i: usize = 0;
    while i < count
        invariant
            0 <= i <= count,
            count <= data@.len(),
            count <= target@.len(),
            target@.len() == old(target)@.len(),
            forall|k: int| 0 <= k < i ==> cloned(data@[k], #[trigger] target@[k]),
            forall|k: int| i <= k < target@.len() ==> #[trigger] target@[k] == old(target)@[k],
        decreases count - i,
    {
        let element = data[i].clone();
        target[i] = element;
        i += 1;
    }
}

} // verus!
