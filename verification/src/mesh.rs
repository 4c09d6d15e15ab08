//! Meshes as the device holds them: runs of vertices in one vertex buffer.

use vstd::prelude::*;

verus! {

/// The ID that represents a mesh present in device memory.
///
/// It links what is drawn to the mesh that it is drawn with, through the
/// mesh's [`Metadata`].
#[derive(Clone, Copy, PartialEq, Eq, PartialOrd, Ord, Hash, Debug, Structural)]
pub struct Id(pub u32);

impl Default for Id {
    fn default() -> (id: Self)
        ensures
            id == Id(0),
    {
        Id(0)
    }
}

/// The position and length of a mesh in the vertex buffer.
///
/// It is all that the device is told of a mesh: where its vertices start,
/// and how many there are to draw.
#[derive(Clone, Copy, PartialEq, Eq, PartialOrd, Ord, Hash, Debug, Structural)]
pub struct Metadata {
    pub offset: u32,
    pub length: u32,
}

impl Default for Metadata {
    fn default() -> (metadata: Self)
        ensures
            metadata == (Metadata { offset: 0, length: 0 }),
    {
        Metadata { offset: 0, length: 0 }
    }
}

/// The number of meshes that the metadata has room for at the start.
pub const INITIAL_MESH_ALLOC: usize = 16;

/// The number of vertices that a staging area has room for at the start.
pub const INITIAL_VERTEX_ALLOC: usize = 128;

/// The part of a section that holds the vertices.
pub const BUFFER_VERTEX_STORAGE_INDEX: usize = 0;

/// The part of a section that holds the metadata of the meshes.
pub const BUFFER_MESH_META_INDEX: usize = 1;

/// The total length of the first `upto` meshes.
pub open spec fn total_length(metadata: Seq<Metadata>, upto: int) -> int
    decreases upto,
{
    if upto <= 0 {
        0
    } else {
        total_length(metadata, upto - 1) + metadata[upto - 1].length
    }
}

/// The total length does not depend on what follows the meshes that it
/// counts.
pub proof fn lemma_total_length_prefix(metadata: Seq<Metadata>, longer: Seq<Metadata>, upto: int)
    requires
        0 <= upto <= metadata.len() <= longer.len(),
        forall|i: int| 0 <= i < metadata.len() ==> metadata[i] == longer[i],
    ensures
        total_length(metadata, upto) == total_length(longer, upto),
    decreases upto,
{
    if upto > 0 {
        lemma_total_length_prefix(metadata, longer, upto - 1);
    }
}

/// The metadata of all meshes, in the order in which the meshes lie in the
/// vertex buffer, back to back.
#[derive(Debug)]
pub struct Meshadata {
    metadata: Vec<Metadata>,
    head: u32,
}

impl Default for Meshadata {
    fn default() -> (meshes: Self)
        ensures
            meshes.wf(),
            meshes.entries() == Seq::<Metadata>::empty(),
    {
        Meshadata { metadata: Vec::new(), head: 0 }
    }
}

impl Meshadata {
    /// The metadata, by mesh ID.
    pub closed spec fn entries(&self) -> Seq<Metadata> {
        self.metadata@
    }

    /// The end of the last mesh: where the next mesh starts.
    pub closed spec fn end(&self) -> int {
        self.head as int
    }

    /// The invariant of the metadata: each mesh starts where the one before
    /// it ends, the first at `0`.
    pub open spec fn wf(&self) -> bool {
        &&& self.entries().len() <= u32::MAX
        &&& self.end() == total_length(self.entries(), self.entries().len() as int)
        &&& forall|i: int|
            0 <= i < self.entries().len() ==> (#[trigger] self.entries()[i]).offset
                == total_length(self.entries(), i)
    }

    /// No meshes yet, with room for a few.
    pub fn new() -> (meshes: Self)
        ensures
            meshes.wf(),
            meshes.entries() == Seq::<Metadata>::empty(),
            meshes.end() == 0,
    {
        Self { metadata: Vec::with_capacity(INITIAL_MESH_ALLOC), head: 0 }
    }

    /// Forget all meshes.
    pub fn clear(&mut self)
        ensures
            final(self).wf(),
            final(self).entries() == Seq::<Metadata>::empty(),
            final(self).end() == 0,
    {
        self.metadata.clear();
        self.head = 0;
    }

    /// Add a mesh of `length` vertices behind the last mesh.
    ///
    /// # Returns
    /// The ID of the mesh: its position among the meshes.
    pub fn add(&mut self, length: u32) -> (id: Id)
        requires
            old(self).wf(),
            old(self).entries().len() < u32::MAX,
            old(self).end() + length <= u32::MAX,
        ensures
            final(self).wf(),
            id == Id(old(self).entries().len() as u32),
            final(self).entries() == old(self).entries().push(
                Metadata { offset: old(self).end() as u32, length },
            ),
            final(self).end() == old(self).end() + length,
    {
        let id = self.metadata.len() as u32;
        self.metadata.push(Metadata { offset: self.head, length });
        self.head += length;
        proof {
            let before = old(self).entries();
            let after = self.entries();
            assert forall|i: int| 0 <= i <= before.len() implies total_length(after, i)
                == total_length(before, i) by {
                lemma_total_length_prefix(before, after, i);
            }
            assert(total_length(after, after.len() as int) == total_length(
                after,
                before.len() as int,
            ) + length);
        }
        Id(id)
    }

    /// The metadata of the mesh `id`.
    pub fn get(&self, id: Id) -> (metadata: &Metadata)
        requires
            id.0 < self.entries().len(),
        ensures
            *metadata == self.entries()[id.0 as int],
    {
        &self.metadata[id.0 as usize]
    }

    /// The end of the last mesh: where the next mesh starts.
    pub fn head(&self) -> (head: u32)
        ensures
            head == self.end(),
    {
        self.head
    }

    /// The metadata of all meshes, by mesh ID.
    pub fn inner_metadata(&self) -> (metadata: &[Metadata])
        ensures
            metadata@ == self.entries(),
    {
        self.metadata.as_slice()
    }
}

impl std::ops::Deref for Meshadata {
    type Target = [Metadata];

    fn deref(&self) -> (metadata: &Self::Target)
        ensures
            metadata@ == self.entries(),
    {
        self.metadata.as_slice()
    }
}

} // verus!
