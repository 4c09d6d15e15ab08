//! Windows over the data of a buffer.

use vstd::prelude::*;
use vstd::view::View as _;

verus! {

/// A read-only window over data of a buffer, together with where that data
/// lies in the buffer it belongs to.
#[derive(Debug)]
pub struct View<'buf, T: Sized> {
    slice: &'buf [T],
    offset: u32,
    length: u32,
    source: u32,
}

impl<'buf, T: Sized> View<'buf, T> {
    /// The data in the window.
    pub closed spec fn items(&self) -> Seq<T> {
        self.slice@
    }

    /// Where the window starts in the buffer it belongs to.
    pub closed spec fn offset_spec(&self) -> u32 {
        self.offset
    }

    /// The length recorded for the window.
    pub closed spec fn length_spec(&self) -> u32 {
        self.length
    }

    /// The device object of the buffer the window belongs to.
    pub closed spec fn source_spec(&self) -> u32 {
        self.source
    }

    /// A window over `slice`, which lies at `offset` in the buffer of the
    /// device object `source`.
    pub fn new(slice: &'buf [T], offset: u32, length: u32, source: u32) -> (view: Self)
        ensures
            view.items() == slice@,
            view.offset_spec() == offset,
            view.length_spec() == length,
            view.source_spec() == source,
    {
        View { slice, offset, length, source }
    }

    /// The data in the window.
    pub fn as_slice(&self) -> (slice: &'buf [T])
        ensures
            slice@ == self.items(),
    {
        self.slice
    }

    /// The offset of the data in the buffer it belongs to.
    pub fn offset(&self) -> (offset: u32)
        ensures
            offset == self.offset_spec(),
    {
        self.offset
    }

    /// The length recorded for the window.
    pub fn length(&self) -> (length: u32)
        ensures
            length == self.length_spec(),
    {
        self.length
    }

    /// The device object of the buffer this view belongs to.
    pub fn source(&self) -> (source: u32)
        ensures
            source == self.source_spec(),
    {
        self.source
    }
}

/// A copy of `slice`, element by element.
fn clone_elements<T: Clone>(slice: &[T]) -> (copy: Vec<T>)
    ensures
        copy@.len() == slice@.len(),
        forall|i: int| 0 <= i < slice@.len() ==> cloned(slice@[i], #[trigger] copy@[i]),
{
    let mut copy: Vec<T> = Vec::with_capacity(slice.len());
    let mut i: usize = 0;
    while i < slice.len()
        invariant
            0 <= i <= slice@.len(),
            copy@.len() == i,
            forall|k: int| 0 <= k < i ==> cloned(slice@[k], #[trigger] copy@[k]),
        decreases slice@.len() - i,
    {
        copy.push(slice[i].clone());
        i += 1;
    }
    copy
}

impl<T> View<'_, T> where T: Sized + Clone {
    /// A copy of the data in the window.
    pub fn to_vec(&self) -> (copy: Vec<T>)
        ensures
            copy@.len() == self.items().len(),
            forall|i: int| 0 <= i < copy@.len() ==> cloned(self.items()[i], #[trigger] copy@[i]),
    {
        clone_elements(self.slice)
    }
}

impl<T: Sized> std::ops::Deref for View<'_, T> {
    type Target = [T];

    fn deref(&self) -> (slice: &Self::Target)
        ensures
            slice@ == self.items(),
    {
        self.slice
    }
}

/// A window for writing over data of a buffer, together with where that data
/// lies in the buffer it belongs to.
#[derive(Debug)]
pub struct ViewMut<'buf, T: Sized> {
    slice: &'buf mut [T],
    offset: u32,
    length: u32,
    source: u32,
}

impl<'buf, T: Sized> ViewMut<'buf, T> {
    /// The data in the window.
    pub closed spec fn items(&self) -> Seq<T> {
        (*self.slice)@
    }

    /// The borrow of the data that the window holds.
    pub closed spec fn borrow(&self) -> &'buf mut [T] {
        self.slice
    }

    /// Where the window starts in the buffer it belongs to.
    pub closed spec fn offset_spec(&self) -> u32 {
        self.offset
    }

    /// The length recorded for the window.
    pub closed spec fn length_spec(&self) -> u32 {
        self.length
    }

    /// The device object of the buffer the window belongs to.
    pub closed spec fn source_spec(&self) -> u32 {
        self.source
    }

    /// A window over `slice`, which lies at `offset` in the buffer of the
    /// device object `source`.
    pub fn new(slice: &'buf mut [T], offset: u32, length: u32, source: u32) -> (view: Self)
        ensures
            view.items() == old(slice)@,
            final(view.borrow())@ == final(slice)@,
            view.offset_spec() == offset,
            view.length_spec() == length,
            view.source_spec() == source,
    {
        ViewMut { slice, offset, length, source }
    }

    /// The data in the window, for writing. The window keeps its length.
    pub fn as_mut_slice(&'buf mut self) -> (slice: &'buf mut [T])
        ensures
            slice@ == old(self).items(),
            final(self).items() == final(slice)@,
            final(self).offset_spec() == old(self).offset_spec(),
            final(self).length_spec() == old(self).length_spec(),
            final(self).source_spec() == old(self).source_spec(),
    {
        self.slice
    }

    /// The data in the window.
    pub fn as_slice(&'buf self) -> (slice: &'buf [T])
        ensures
            slice@ == self.items(),
    {
        self.slice
    }

    /// The offset of the data in the buffer it belongs to.
    pub fn offset(&self) -> (offset: u32)
        ensures
            offset == self.offset_spec(),
    {
        self.offset
    }

    /// The length recorded for the window.
    pub fn length(&self) -> (length: u32)
        ensures
            length == self.length_spec(),
    {
        self.length
    }

    /// The device object of the buffer this view belongs to.
    pub fn source(&self) -> (source: u32)
        ensures
            source == self.source_spec(),
    {
        self.source
    }
}

impl<T> ViewMut<'_, T> where T: Sized + Clone {
    /// A copy of the data in the window.
    pub fn to_vec(&self) -> (copy: Vec<T>)
        ensures
            copy@.len() == self.items().len(),
            forall|i: int| 0 <= i < copy@.len() ==> cloned(self.items()[i], #[trigger] copy@[i]),
    {
        clone_elements(self.slice)
    }
}

impl<T: Sized> std::ops::Deref for ViewMut<'_, T> {
    type Target = [T];

    fn deref(&self) -> (slice: &Self::Target)
        ensures
            slice@ == self.items(),
    {
        self.slice
    }
}

} // verus!
