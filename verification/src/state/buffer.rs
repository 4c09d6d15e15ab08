//! Double and triple buffering of values on the logic side.

use vstd::prelude::*;

verus! {

/// Buffers of which one is presented while another is worked on.
pub trait SwapBuffers<T> {
    /// The invariant of the buffers.
    spec fn inv(&self) -> bool;

    /// The buffer that is presented.
    spec fn front_spec(&self) -> T;

    /// The buffer that is worked on.
    spec fn back_spec(&self) -> T;

    /// Present the buffer that was worked on.
    fn swap_buffers(&mut self)
        requires
            old(self).inv(),
        ensures
            final(self).inv(),
            final(self).front_spec() == old(self).back_spec(),
    ;

    /// The front buffer: the finished version, which is what should be
    /// presented.
    fn front(&self) -> (buffer: &T)
        requires
            self.inv(),
        ensures
            *buffer == self.front_spec(),
    ;

    /// The front buffer, for writing.
    fn front_mut(&mut self) -> (buffer: &mut T)
        requires
            old(self).inv(),
        ensures
            *buffer == old(self).front_spec(),
            final(self).inv(),
            final(self).front_spec() == *final(buffer),
            final(self).back_spec() == old(self).back_spec(),
    ;

    /// The back buffer: the version in progress, which is where changes are
    /// made until the buffers are swapped.
    fn back(&self) -> (buffer: &T)
        requires
            self.inv(),
        ensures
            *buffer == self.back_spec(),
    ;

    /// The back buffer, for writing.
    fn back_mut(&mut self) -> (buffer: &mut T)
        requires
            old(self).inv(),
        ensures
            *buffer == old(self).back_spec(),
            final(self).inv(),
            final(self).back_spec() == *final(buffer),
            final(self).front_spec() == old(self).front_spec(),
    ;
}

/// Two buffers that change places.
#[derive(Debug)]
pub struct DoubleBuffer<T: Default> {
    current: T,
    next: T,
}

impl<T: Default> Default for DoubleBuffer<T> {
    fn default() -> (buffer: Self)
        ensures
            call_ensures(T::default, (), buffer.current_spec()),
            call_ensures(T::default, (), buffer.next_spec()),
    {
        DoubleBuffer { current: T::default(), next: T::default() }
    }
}

impl<T: Default> DoubleBuffer<Vec<T>> {
    /// Allocates both vectors to the same given `capacity`. Both are empty.
    pub fn with_capacity(capacity: usize) -> (buffer: Self)
        ensures
            buffer.current_spec()@ == Seq::<T>::empty(),
            buffer.next_spec()@ == Seq::<T>::empty(),
    {
        Self { current: Vec::with_capacity(capacity), next: Vec::with_capacity(capacity) }
    }
}

impl<T: Default> DoubleBuffer<T> {
    /// The current buffer.
    pub closed spec fn current_spec(&self) -> T {
        self.current
    }

    /// The next buffer.
    pub closed spec fn next_spec(&self) -> T {
        self.next
    }

    /// Two buffers with default values.
    pub fn new() -> (buffer: Self)
        ensures
            call_ensures(T::default, (), buffer.current_spec()),
            call_ensures(T::default, (), buffer.next_spec()),
    {
        DoubleBuffer { current: T::default(), next: T::default() }
    }

    /// The current buffer.
    pub fn current(&self) -> (buffer: &T)
        ensures
            *buffer == self.current_spec(),
    {
        &self.current
    }

    /// The next buffer.
    pub fn next(&self) -> (buffer: &T)
        ensures
            *buffer == self.next_spec(),
    {
        &self.next
    }

    /// The current buffer, for writing.
    pub fn current_mut(&mut self) -> (buffer: &mut T)
        ensures
            *buffer == old(self).current_spec(),
            final(self).current_spec() == *final(buffer),
            final(self).next_spec() == old(self).next_spec(),
    {
        &mut self.current
    }

    /// The next buffer, for writing.
    pub fn next_mut(&mut self) -> (buffer: &mut T)
        ensures
            *buffer == old(self).next_spec(),
            final(self).next_spec() == *final(buffer),
            final(self).current_spec() == old(self).current_spec(),
    {
        &mut self.next
    }
}

impl<T: Default> SwapBuffers<T> for DoubleBuffer<T> {
    open spec fn inv(&self) -> bool {
        true
    }

    open spec fn front_spec(&self) -> T {
        self.current_spec()
    }

    open spec fn back_spec(&self) -> T {
        self.next_spec()
    }

    /// The two buffers change places.
    fn swap_buffers(&mut self)
        ensures
            final(self).back_spec() == old(self).front_spec(),
    {
        std::mem::swap(&mut self.current, &mut self.next);
    }

    fn front(&self) -> (buffer: &T) {
        &self.current
    }

    fn front_mut(&mut self) -> (buffer: &mut T) {
        &mut self.current
    }

    fn back(&self) -> (buffer: &T) {
        &self.next
    }

    fn back_mut(&mut self) -> (buffer: &mut T) {
        &mut self.next
    }
}

/// Three buffers, of which the presented one is chosen by rotation.
///
/// The buffers stay where they are; rotation moves the head, the position of
/// the buffer that is presented.
#[derive(Debug)]
pub struct TripleBuffer<T: Default> {
    buffers: [T; 3],
    head: usize,
}

impl<T: Default> Default for TripleBuffer<T> {
    fn default() -> (buffer: Self)
        ensures
            buffer.head_spec() == 0,
            buffer.slots().len() == 3,
            forall|i: int| 0 <= i < 3 ==> call_ensures(T::default, (), #[trigger] buffer.slots()[i]),
    {
        TripleBuffer { buffers: [T::default(), T::default(), T::default()], head: 0 }
    }
}

impl<T: Default> TripleBuffer<Vec<T>> {
    /// Allocates all 3 vectors to the same given `capacity`. All are empty.
    pub fn with_capacity(capacity: usize) -> (buffer: Self)
        ensures
            buffer.head_spec() == 0,
            buffer.slots().len() == 3,
            forall|i: int| 0 <= i < 3 ==> (#[trigger] buffer.slots()[i])@ == Seq::<T>::empty(),
    {
        Self {
            buffers: [
                Vec::with_capacity(capacity),
                Vec::with_capacity(capacity),
                Vec::with_capacity(capacity),
            ],
            head: 0,
        }
    }
}

/// The position after `head` in the rotation `0 -> 1 -> 2 -> 0`.
pub open spec fn rotated(head: int) -> int {
    (head + 1) % 3
}

impl<T: Default> TripleBuffer<T> {
    /// The three buffers, by position.
    pub closed spec fn slots(&self) -> Seq<T> {
        self.buffers@
    }

    /// The position of the buffer that is presented.
    pub closed spec fn head_spec(&self) -> nat {
        self.head as nat
    }

    /// Three buffers with default values; the first is presented.
    pub fn new() -> (buffer: Self)
        ensures
            buffer.head_spec() == 0,
            buffer.slots().len() == 3,
            forall|i: int| 0 <= i < 3 ==> call_ensures(T::default, (), #[trigger] buffer.slots()[i]),
    {
        TripleBuffer { buffers: [T::default(), T::default(), T::default()], head: 0 }
    }

    /// The buffer at the first position, wherever the head is.
    pub fn front(&self) -> (buffer: &T)
        ensures
            *buffer == self.slots()[0],
    {
        &self.buffers[0]
    }

    /// The buffer at the second position, wherever the head is.
    pub fn back(&self) -> (buffer: &T)
        ensures
            *buffer == self.slots()[1],
    {
        &self.buffers[1]
    }

    /// The buffer at the third position, wherever the head is.
    pub fn third(&self) -> (buffer: &T)
        ensures
            *buffer == self.slots()[2],
    {
        &self.buffers[2]
    }

    /// The buffer at the first position, for writing.
    pub fn front_mut(&mut self) -> (buffer: &mut T)
        ensures
            *buffer == old(self).slots()[0],
            final(self).slots() == old(self).slots().update(0, *final(buffer)),
            final(self).head_spec() == old(self).head_spec(),
    {
        &mut self.buffers[0]
    }

    /// The buffer at the second position, for writing.
    pub fn back_mut(&mut self) -> (buffer: &mut T)
        ensures
            *buffer == old(self).slots()[1],
            final(self).slots() == old(self).slots().update(1, *final(buffer)),
            final(self).head_spec() == old(self).head_spec(),
    {
        &mut self.buffers[1]
    }

    /// The buffer at the third position, for writing.
    pub fn third_mut(&mut self) -> (buffer: &mut T)
        ensures
            *buffer == old(self).slots()[2],
            final(self).slots() == old(self).slots().update(2, *final(buffer)),
            final(self).head_spec() == old(self).head_spec(),
    {
        &mut self.buffers[2]
    }

    /// The position that the head moves to with the next rotation.
    pub fn next_buffer(&self) -> (next: usize)
        requires
            self.head_spec() < 3,
        ensures
            next == rotated(self.head_spec() as int),
            next < 3,
    {
        (self.head + 1) % 3
    }

    /// Move the head to the next position. The buffers stay as they are.
    pub fn rotate_buffers(&mut self)
        requires
            old(self).head_spec() < 3,
        ensures
            final(self).head_spec() == rotated(old(self).head_spec() as int),
            final(self).head_spec() < 3,
            final(self).slots() == old(self).slots(),
    {
        self.head = self.next_buffer()
    }
}

impl<T: Default> SwapBuffers<T> for TripleBuffer<T> {
    open spec fn inv(&self) -> bool {
        self.head_spec() < 3 && self.slots().len() == 3
    }

    open spec fn front_spec(&self) -> T {
        self.slots()[self.head_spec() as int]
    }

    open spec fn back_spec(&self) -> T {
        self.slots()[rotated(self.head_spec() as int)]
    }

    /// The head moves to the next position.
    fn swap_buffers(&mut self)
        ensures
            final(self).head_spec() == rotated(old(self).head_spec() as int),
            final(self).slots() == old(self).slots(),
    {
        self.rotate_buffers();
    }

    fn front(&self) -> (buffer: &T) {
        &self.buffers[self.head]
    }

    fn front_mut(&mut self) -> (buffer: &mut T)
        ensures
            final(self).slots() == old(self).slots().update(
                old(self).head_spec() as int,
                *final(buffer),
            ),
            final(self).head_spec() == old(self).head_spec(),
    {
        &mut self.buffers[self.head]
    }

    fn back(&self) -> (buffer: &T) {
        &self.buffers[self.next_buffer()]
    }

    fn back_mut(&mut self) -> (buffer: &mut T)
        ensures
            final(self).slots() == old(self).slots().update(
                rotated(old(self).head_spec() as int),
                *final(buffer),
            ),
            final(self).head_spec() == old(self).head_spec(),
    {
        let next = self.next_buffer();
        &mut self.buffers[next]
    }
}

} // verus!
