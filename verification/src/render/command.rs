//! Indirect draw commands, the queue that collects them, and their upload
//! into the command buffer.

use vstd::prelude::*;

use crate::render::buffer::view;

verus! {

/// One command of an indirect draw of arrays. On the device it takes 16
/// bytes: the four fields in this order.
#[derive(Clone, Copy, Debug, PartialEq, Eq, Structural)]
pub struct DrawArraysIndirectCommand {
    pub count: u32,
    pub instance_count: u32,
    pub first_vertex: u32,
    pub base_instance: u32,
}

/// One command of an indirect draw of indexed elements. On the device it
/// takes 20 bytes: the five fields in this order.
#[derive(Clone, Copy, Debug, PartialEq, Eq, Structural)]
pub struct DrawElementsIndirectCommand {
    pub count: u32,
    pub instance_count: u32,
    pub first_vertex: u32,
    pub base_vertex: i32,
    pub base_instance: u32,
}

impl Default for DrawArraysIndirectCommand {
    fn default() -> (command: Self)
        ensures
            command == (DrawArraysIndirectCommand {
                count: 0,
                instance_count: 0,
                first_vertex: 0,
                base_instance: 0,
            }),
    {
        DrawArraysIndirectCommand { count: 0, instance_count: 0, first_vertex: 0, base_instance: 0 }
    }
}

impl Default for DrawElementsIndirectCommand {
    fn default() -> (command: Self)
        ensures
            command == (DrawElementsIndirectCommand {
                count: 0,
                instance_count: 0,
                first_vertex: 0,
                base_vertex: 0,
                base_instance: 0,
            }),
    {
        DrawElementsIndirectCommand {
            count: 0,
            instance_count: 0,
            first_vertex: 0,
            base_vertex: 0,
            base_instance: 0,
        }
    }
}

/// The draw call that runs the commands of a command buffer.
#[derive(Clone, Copy, Debug, PartialEq, Eq, Structural)]
pub enum DrawCall {
    /// Draw triangles from arrays, `draw_count` commands.
    Arrays { draw_count: i32 },
    /// Draw triangles from elements with 32 bit indices, `draw_count`
    /// commands.
    Elements { draw_count: i32 },
}

impl DrawCall {
    /// The number of commands that the call runs.
    pub open spec fn draws(self) -> i32 {
        match self {
            DrawCall::Arrays { draw_count } => draw_count,
            DrawCall::Elements { draw_count } => draw_count,
        }
    }
}

/// A kind of draw command: it knows the draw call that runs commands of
/// its kind.
pub trait DrawCmd {
    /// The draw call that runs `draw_count` commands of this kind, from the
    /// start of the bound command buffer on.
    fn call(draw_count: i32) -> (call: DrawCall)
        ensures
            call.draws() == draw_count,
    ;
}

impl DrawCmd for DrawArraysIndirectCommand {
    fn call(draw_count: i32) -> (call: DrawCall)
        ensures
            call == (DrawCall::Arrays { draw_count }),
    {
        DrawCall::Arrays { draw_count }
    }
}

impl DrawCmd for DrawElementsIndirectCommand {
    fn call(draw_count: i32) -> (call: DrawCall)
        ensures
            call == (DrawCall::Elements { draw_count }),
    {
        DrawCall::Elements { draw_count }
    }
}

/// The commands of one frame, in the order in which they were pushed, and
/// how many of them have been uploaded.
#[derive(Debug)]
pub struct GpuCommandQueue<C: DrawCmd + Clone + Copy> {
    queue: Vec<C>,
    upload_head: usize,
    fixed_buffer_len: usize,
}

/// How many commands one upload copies, for a queue of `count` commands of
/// which the first `head` were uploaded, into a command buffer of
/// `capacity` commands.
///
/// An upload takes what is left in the queue, or what fits the command
/// buffer if that is less, and copies the commands from `head` up to that
/// number.
pub open spec fn upload_count(count: int, head: int, capacity: int) -> int {
    let upload_size = if count - head <= capacity {
        count - head
    } else {
        capacity
    };
    if head < upload_size {
        upload_size - head
    } else {
        0
    }
}

impl<C: DrawCmd + Clone + Copy> GpuCommandQueue<C> {
    /// The commands in the queue.
    pub closed spec fn commands(&self) -> Seq<C> {
        self.queue@
    }

    /// How many commands have been uploaded.
    pub closed spec fn head(&self) -> nat {
        self.upload_head as nat
    }

    /// The length of the command buffer on the device.
    pub closed spec fn capacity(&self) -> nat {
        self.fixed_buffer_len as nat
    }

    /// How many commands the next upload copies.
    pub open spec fn pending(&self) -> int {
        upload_count(self.commands().len() as int, self.head() as int, self.capacity() as int)
    }

    /// An empty queue for a command buffer of `buffer_len` commands.
    pub fn new(buffer_len: usize) -> (queue: Self)
        ensures
            queue.commands() == Seq::<C>::empty(),
            queue.head() == 0,
            queue.capacity() == buffer_len,
    {
        Self { queue: Vec::with_capacity(buffer_len), upload_head: 0, fixed_buffer_len: buffer_len }
    }

    /// The number of commands in the queue.
    pub fn len(&self) -> (len: usize)
        ensures
            len == self.commands().len(),
    {
        self.queue.len()
    }

    /// How many commands have been uploaded since the queue was cleared.
    pub fn uploaded(&self) -> (head: usize)
        ensures
            head == self.head(),
    {
        self.upload_head
    }

    /// The length of the command buffer on the device, in commands.
    pub fn buffer_len(&self) -> (capacity: usize)
        ensures
            capacity == self.capacity(),
    {
        self.fixed_buffer_len
    }

    /// Drop all commands, uploaded or not.
    pub fn clear(&mut self)
        ensures
            final(self).commands() == Seq::<C>::empty(),
            final(self).head() == 0,
            final(self).capacity() == old(self).capacity(),
    {
        self.upload_head = 0;
        self.queue.clear();
    }

    /// Take the last command out of the queue.
    pub fn pop(&mut self) -> (command: Option<C>)
        ensures
            final(self).head() == old(self).head(),
            final(self).capacity() == old(self).capacity(),
            old(self).commands().len() == 0 ==> command is None && final(self).commands() == old(
                self,
            ).commands(),
            old(self).commands().len() > 0 ==> command == Some(old(self).commands().last())
                && final(self).commands() == old(self).commands().drop_last(),
    {
        self.queue.pop()
    }

    /// Add `command` at the end of the queue.
    pub fn push(&mut self, command: C)
        ensures
            final(self).commands() == old(self).commands().push(command),
            final(self).head() == old(self).head(),
            final(self).capacity() == old(self).capacity(),
    {
        self.queue.push(command);
    }

    /// Upload commands into the command `buffer`.
    ///
    /// One upload copies no more commands than the command buffer on the
    /// device holds, the length that the queue was made with. The commands
    /// are written from the start of `buffer` on, and the queue keeps track
    /// of how many it has uploaded.
    ///
    /// # Returns
    /// * `Ok` if all commands of the queue were uploaded.
    /// * `Err` with the number of commands that are left over, if not. They
    ///   stay in the queue until it is cleared.
    pub fn upload(&mut self, buffer: &mut [C]) -> (result: Result<(), usize>)
        requires
            old(self).head() <= old(self).commands().len(),
            old(self).pending() <= old(buffer)@.len(),
        ensures
            final(self).commands() == old(self).commands(),
            final(self).capacity() == old(self).capacity(),
            final(self).head() == old(self).head() + old(self).pending(),
            final(buffer)@.len() == old(buffer)@.len(),
            forall|i: int|
                0 <= i < old(self).pending() ==> #[trigger] final(buffer)@[i] == old(
                    self,
                ).commands()[old(self).head() + i],
            forall|i: int|
                old(self).pending() <= i < old(buffer)@.len() ==> #[trigger] final(buffer)@[i]
                    == old(buffer)@[i],
            result is Ok <==> final(self).head() == old(self).commands().len(),
            result matches Err(exceed) ==> exceed == old(self).commands().len() - old(self).head()
                - old(self).pending(),
    {
        let count = self.queue.len();

        let head = self.upload_head;
        let remaining = count - head;
        let upload_size = if remaining <= self.fixed_buffer_len {
            remaining
        } else {
            self.fixed_buffer_len
        };

        let mut i: usize = 0;
        let mut j: usize = head;
        while j < upload_size
            invariant
                head <= j,
                head < upload_size ==> j <= upload_size,
                head >= upload_size ==> j == head,
                i == j - head,
                upload_size <= count - head,
                count == self.queue@.len(),
                self.queue@ == old(self).queue@,
                old(self).pending() == (if head < upload_size {
                    upload_size - head
                } else {
                    0
                }),
                old(self).pending() <= buffer@.len(),
                buffer@.len() == old(buffer)@.len(),
                forall|k: int| 0 <= k < i ==> #[trigger] buffer@[k] == self.queue@[head + k],
                forall|k: int| i <= k < buffer@.len() ==> #[trigger] buffer@[k] == old(buffer)@[k],
            decreases upload_size - j,
        {
            buffer[i] = self.queue[j];
            i += 1;
            j += 1;
        }
        let new_head = head + i;
        self.upload_head = new_head;

        let exceed = count - new_head;
        if exceed != 0 {
            return Err(exceed);
        }
        Ok(())
    }
}

/// What dispatching a command buffer asks of the device.
#[derive(Clone, Copy, Debug, PartialEq, Eq, Structural)]
pub struct Dispatch {
    /// The device object to bind as the buffer of indirect commands.
    pub buffer: u32,
    /// The draw call to make then.
    pub call: DrawCall,
}

/// The dispatch of the commands in one section of a command buffer.
#[derive(Debug)]
pub struct GpuCommandDispatch<'buf, C: DrawCmd + Clone + Copy> {
    command_buffer: view::View<'buf, C>,
}

impl<'buf, C: DrawCmd + Clone + Copy> GpuCommandDispatch<'buf, C> {
    /// The view of the command buffer.
    pub closed spec fn window(&self) -> view::View<'buf, C> {
        self.command_buffer
    }

    /// The dispatch of the commands in `view`.
    pub fn from_view(view: view::View<'buf, C>) -> (dispatch: Self)
        ensures
            dispatch.window() == view,
    {
        Self { command_buffer: view }
    }

    /// The device object to bind and the draw call to make, to run all
    /// commands in the view.
    pub fn dispatch(&self) -> (dispatch: Dispatch)
        requires
            self.window().items().len() <= i32::MAX,
        ensures
            dispatch.buffer == self.window().source_spec(),
            dispatch.call.draws() == self.window().items().len(),
            call_ensures(C::call, (self.window().items().len() as i32,), dispatch.call),
    {
        let length = self.command_buffer.as_slice().len();
        let gl_obj = self.command_buffer.source();
        Dispatch { buffer: gl_obj, call: C::call(length as i32) }
    }
}

} // verus!
