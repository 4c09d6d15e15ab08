//! Data owned by the logic side, and the step that publishes it.

use vstd::prelude::*;

use crate::mesh;
use crate::render::buffer::layout::plan_end;
use crate::render::buffer::layout::plan_fits;
use crate::render::buffer::layout::PartSpec;
use crate::render::buffer::layout::NO_BINDING;
use crate::render::buffer::partitioned::element_at;
use crate::render::buffer::partitioned::fitting;
use crate::render::buffer::partitioned::made_by;
use crate::render::buffer::partitioned::written;
use crate::render::buffer::InitStrategy;
use crate::render::buffer::Layout;
use crate::render::buffer::PartitionedTriBuffer;
use crate::render::buffer::TriBuffer;
use crate::render::command::upload_count;
use crate::render::command::DrawArraysIndirectCommand;
use crate::render::command::GpuCommandQueue;
use crate::state::cross::Boundary;
use crate::state::data::column::IterColumn;
use crate::state::data::column::ParallelIndexArrayColumn;
use crate::state::data::Column;
use crate::state::data::SparseSlot;
use crate::state::record::encode_entities;
use crate::state::record::encode_ids;
use crate::state::record::encode_pod;
use crate::state::record::encode_pods;
use crate::state::record::encode_words;
use crate::state::record::entity_words;
use crate::state::record::id_words;
use crate::state::record::pod_bytes;
use crate::state::record::pod_words;
use crate::state::record::words_bytes;
use crate::state::record::Entity;
use crate::state::record::Pod4;

pub mod buffer;
pub mod column;
pub mod cross;
pub mod data;
pub mod record;
pub mod table;
pub mod triple_buffer;

verus! {

/// The number of parts in a section of the scene buffer.
pub const ENTITY_PARTS: usize = 6;

/// The parts of a section of the scene buffer.
#[derive(Clone, Copy, Debug, PartialEq, Eq, Structural)]
pub enum LayoutEntityData {
    /// The entities: for each, its handles.
    EntityIndexMap,
    /// The mesh IDs.
    MeshData,
    /// The handle that owns each position.
    ImapPositions,
    /// The handle that owns each rotation.
    ImapRotations,
    /// The positions, in dense order.
    PodPositions,
    /// The rotations, in dense order.
    PodRotations,
}

impl LayoutEntityData {
    /// The position of the part in a section.
    pub open spec fn index(self) -> int {
        match self {
            LayoutEntityData::EntityIndexMap => 0,
            LayoutEntityData::MeshData => 1,
            LayoutEntityData::ImapPositions => 2,
            LayoutEntityData::ImapRotations => 3,
            LayoutEntityData::PodPositions => 4,
            LayoutEntityData::PodRotations => 5,
        }
    }

    /// The position of the part in a section.
    pub fn as_index(self) -> (index: usize)
        ensures
            index == self.index(),
            index < ENTITY_PARTS,
    {
        match self {
            LayoutEntityData::EntityIndexMap => 0,
            LayoutEntityData::MeshData => 1,
            LayoutEntityData::ImapPositions => 2,
            LayoutEntityData::ImapRotations => 3,
            LayoutEntityData::PodPositions => 4,
            LayoutEntityData::PodRotations => 5,
        }
    }
}

/// What is asked of the parts of a section of the scene that has room for
/// `entities` entities, in the order of the parts. The handles and the
/// values of positions and rotations are bound to shader storage blocks.
pub open spec fn scene_parts(entities: usize) -> Seq<PartSpec> {
    seq![
        PartSpec { size: 16, count: entities, binding: NO_BINDING },
        PartSpec { size: 4, count: entities, binding: NO_BINDING },
        PartSpec { size: 4, count: entities, binding: 2 },
        PartSpec { size: 4, count: entities, binding: 3 },
        PartSpec { size: 16, count: entities, binding: 4 },
        PartSpec { size: 16, count: entities, binding: 5 },
    ]
}

/// Byte `i` of the memory of `scene` lies within one of the parts that are
/// cleared to zero before their first use: every part but the rotations.
pub open spec fn in_cleared_parts(scene: PartitionedTriBuffer<ENTITY_PARTS>, i: int) -> bool {
    ||| scene.in_part(0, i)
    ||| scene.in_part(1, i)
    ||| scene.in_part(2, i)
    ||| scene.in_part(3, i)
    ||| scene.in_part(4, i)
}

/// Byte `i` of the memory of `scene` lies within one of the rotations.
pub open spec fn in_rotations(scene: PartitionedTriBuffer<ENTITY_PARTS>, i: int) -> bool {
    scene.in_elements(5, 16, i)
}

/// The rotations lie apart from the parts that are cleared to zero.
pub proof fn lemma_rotations_apart(scene: PartitionedTriBuffer<ENTITY_PARTS>, i: int)
    requires
        scene.wf(),
    ensures
        !(in_cleared_parts(scene, i) && in_rotations(scene, i)),
{
    let plan = scene.plan();
    plan.lemma_section_length();
    if plan.parts() == 6 {
        plan.lemma_part_in_section(5);
        plan.lemma_offset_aligned(0);
        plan.lemma_offset_aligned(1);
        plan.lemma_offset_aligned(2);
        plan.lemma_offset_aligned(3);
        plan.lemma_offset_aligned(4);
        plan.lemma_parts_ordered(0, 5);
        plan.lemma_parts_ordered(1, 5);
        plan.lemma_parts_ordered(2, 5);
        plan.lemma_parts_ordered(3, 5);
        plan.lemma_parts_ordered(4, 5);
        assert(0 <= plan.length(5));
        assert(0 <= plan.length(0) && 0 <= plan.length(1) && 0 <= plan.length(2) && 0
            <= plan.length(3) && 0 <= plan.length(4));
    } else {
        assert(plan.offset(5) == 0 && plan.length(5) == 0);
    }
}

impl LayoutEntityData {
    /// The layout of a section of the scene that has room for `entities`
    /// entities, for a device whose offset alignment for shader storage is
    /// `alignment` bytes.
    ///
    /// # Returns
    /// The layout, or `None` where the parts cannot be laid out: the
    /// alignment is zero, or an offset does not fit the machine word.
    pub fn create(alignment: usize, entities: usize) -> (planned: Option<Layout<ENTITY_PARTS>>)
        ensures
            planned is Some <==> plan_fits(
                ENTITY_PARTS as int,
                alignment as int,
                scene_parts(entities),
            ),
            planned matches Some(layout) ==> {
                &&& layout.wf()
                &&& layout.alignment() == alignment
                &&& layout.parts() == ENTITY_PARTS
                &&& layout.cursor() == plan_end(alignment as int, scene_parts(entities), 6)
                &&& forall|i: int|
                    0 <= i < 6 ==> #[trigger] layout.length(i) == scene_parts(entities)[i].size
                        * entities
                &&& forall|i: int|
                    0 <= i < 6 ==> #[trigger] layout.binding(i) == scene_parts(entities)[i].binding
            },
    {
        let parts = [
            PartSpec { size: 16, count: entities, binding: NO_BINDING },
            PartSpec { size: 4, count: entities, binding: NO_BINDING },
            PartSpec { size: 4, count: entities, binding: 2 },
            PartSpec { size: 4, count: entities, binding: 3 },
            PartSpec { size: 16, count: entities, binding: 4 },
            PartSpec { size: 16, count: entities, binding: 5 },
        ];
        proof {
            assert(parts@ =~= scene_parts(entities));
        }
        Layout::plan(alignment, parts.as_slice())
    }

    /// Set every part of the scene before its first use, in each of the
    /// three sections: every rotation to `identity`, and every byte of the
    /// other parts to zero. What lies outside the parts stays as it is.
    pub fn initialise_partitions(scene: &mut PartitionedTriBuffer<ENTITY_PARTS>, identity: Pod4)
        requires
            old(scene).wf(),
        ensures
            final(scene).wf(),
            final(scene).object() == old(scene).object(),
            final(scene).plan() == old(scene).plan(),
            forall|i: int|
                0 <= i < old(scene).bytes().len() && in_cleared_parts(*old(scene), i)
                    ==> #[trigger] final(scene).bytes()[i] == 0,
            forall|section: int, k: int|
                0 <= section < 3 && 0 <= k < old(scene).plan().length(5) / 16 ==> #[trigger] element_at(
                    final(scene).bytes(),
                    old(scene).part_start(section, 5),
                    16,
                    k,
                ) == pod_bytes(identity),
            forall|i: int|
                0 <= i < old(scene).bytes().len() && !in_cleared_parts(*old(scene), i)
                    && !in_rotations(*old(scene), i) ==> #[trigger] final(scene).bytes()[i] == old(
                    scene,
                ).bytes()[i],
    {
        let fill = || -> (element: Vec<u8>)
            ensures
                element@ == pod_bytes(identity),
                element@.len() == 16,
            { encode_pod(identity) };
        Self::initialise_with(scene, fill);
    }

    /// Set every part of the scene before its first use: the rotations to
    /// what `fill` makes, the other parts to zero.
    fn initialise_with<F: Fn() -> Vec<u8>>(scene: &mut PartitionedTriBuffer<ENTITY_PARTS>, fill: F)
        requires
            old(scene).wf(),
            call_requires(fill, ()),
            forall|element: Vec<u8>| #[trigger] call_ensures(fill, (), element) ==> element@.len() == 16,
        ensures
            final(scene).wf(),
            final(scene).object() == old(scene).object(),
            final(scene).plan() == old(scene).plan(),
            forall|i: int|
                0 <= i < old(scene).bytes().len() && in_cleared_parts(*old(scene), i)
                    ==> #[trigger] final(scene).bytes()[i] == 0,
            forall|section: int, k: int|
                0 <= section < 3 && 0 <= k < old(scene).plan().length(5) / 16 ==> made_by(
                    fill,
                    #[trigger] element_at(
                        final(scene).bytes(),
                        old(scene).part_start(section, 5),
                        16,
                        k,
                    ),
                ),
            forall|i: int|
                0 <= i < old(scene).bytes().len() && !in_cleared_parts(*old(scene), i)
                    && !in_rotations(*old(scene), i) ==> #[trigger] final(scene).bytes()[i] == old(
                    scene,
                ).bytes()[i],
    {
        scene.initialise_part(
            LayoutEntityData::EntityIndexMap.as_index(),
            16,
            InitStrategy::<Vec<u8>, F>::Zero,
        );
        scene.initialise_part(
            LayoutEntityData::MeshData.as_index(),
            4,
            InitStrategy::<Vec<u8>, F>::Zero,
        );
        scene.initialise_part(
            LayoutEntityData::ImapPositions.as_index(),
            4,
            InitStrategy::<Vec<u8>, F>::Zero,
        );
        scene.initialise_part(
            LayoutEntityData::ImapRotations.as_index(),
            4,
            InitStrategy::<Vec<u8>, F>::Zero,
        );
        scene.initialise_part(
            LayoutEntityData::PodPositions.as_index(),
            16,
            InitStrategy::<Vec<u8>, F>::Zero,
        );
        let ghost cleared = *scene;
        proof {
            assert forall|i: int| 0 <= i < old(scene).bytes().len() implies #[trigger] cleared.bytes()[i]
                == (if in_cleared_parts(*old(scene), i) {
                0u8
            } else {
                old(scene).bytes()[i]
            }) by {}
        }
        scene.initialise_part(
            LayoutEntityData::PodRotations.as_index(),
            16,
            InitStrategy::FillWith(fill),
        );
        proof {
            assert forall|i: int| 0 <= i < old(scene).bytes().len() implies !(in_cleared_parts(
                *old(scene),
                i,
            ) && in_rotations(*old(scene), i)) by {
                lemma_rotations_apart(*old(scene), i);
            }
        }
    }
}

/// The storage that the logic side and the render side share: the scene,
/// and the draw commands that draw it.
#[derive(Debug)]
pub struct FrameStorageBuffers {
    pub command: TriBuffer<DrawArraysIndirectCommand>,
    pub scene: PartitionedTriBuffer<ENTITY_PARTS>,
}

/// The draw command that is queued for each entity: one instance of the
/// three vertices of a triangle.
pub open spec fn entity_command() -> DrawArraysIndirectCommand {
    DrawArraysIndirectCommand { count: 3, instance_count: 1, first_vertex: 0, base_instance: 0 }
}

/// `commands` with `count` entity commands behind them.
pub open spec fn staged(commands: Seq<DrawArraysIndirectCommand>, count: nat) -> Seq<
    DrawArraysIndirectCommand,
>
    decreases count,
{
    if count == 0 {
        commands
    } else {
        staged(commands, (count - 1) as nat).push(entity_command())
    }
}

/// Staging adds the entity commands behind the commands that are there.
pub proof fn lemma_staged(commands: Seq<DrawArraysIndirectCommand>, count: nat)
    ensures
        staged(commands, count).len() == commands.len() + count,
        forall|i: int| 0 <= i < commands.len() ==> #[trigger] staged(commands, count)[i] == commands[i],
        forall|i: int|
            commands.len() <= i < commands.len() + count ==> #[trigger] staged(commands, count)[i]
                == entity_command(),
    decreases count,
{
    if count > 0 {
        lemma_staged(commands, (count - 1) as nat);
    }
}

/// The bytes of each part of a section of the scene, in the order of the
/// parts.
pub struct SceneImage {
    pub entity_map: Seq<u8>,
    pub mesh_map: Seq<u8>,
    pub position_handles: Seq<u8>,
    pub rotation_handles: Seq<u8>,
    pub positions: Seq<u8>,
    pub rotations: Seq<u8>,
}

/// The bytes of `scene` after `data` was copied into `part` of `section`,
/// as far as it fits the part.
pub open spec fn blitted(
    scene: PartitionedTriBuffer<ENTITY_PARTS>,
    bytes: Seq<u8>,
    section: int,
    part: int,
    data: Seq<u8>,
) -> Seq<u8> {
    written(
        bytes,
        scene.part_start(section, part),
        data,
        fitting(scene.plan().length(part), data.len() as int),
    )
}

/// The bytes of `scene` after `image` was copied into `section`, part by
/// part.
pub open spec fn published(
    scene: PartitionedTriBuffer<ENTITY_PARTS>,
    section: int,
    image: SceneImage,
) -> Seq<u8> {
    blitted(
        scene,
        blitted(
            scene,
            blitted(
                scene,
                blitted(
                    scene,
                    blitted(
                        scene,
                        blitted(scene, scene.bytes(), section, 0, image.entity_map),
                        section,
                        1,
                        image.mesh_map,
                    ),
                    section,
                    2,
                    image.position_handles,
                ),
                section,
                3,
                image.rotation_handles,
            ),
            section,
            4,
            image.positions,
        ),
        section,
        5,
        image.rotations,
    )
}

/// The state of the logic side: the entities and what they are made of.
#[derive(Debug)]
pub struct State {
    /// The IDs of the meshes on the device. They are set once, at the
    /// start.
    mesh_ids: Vec<mesh::Id>,
    positions: ParallelIndexArrayColumn<Pod4>,
    rotations: ParallelIndexArrayColumn<Pod4>,
    entities: Vec<Entity>,
    command_queue: GpuCommandQueue<DrawArraysIndirectCommand>,
}

impl State {
    /// The mesh IDs.
    pub closed spec fn mesh_ids(&self) -> Seq<mesh::Id> {
        self.mesh_ids@
    }

    /// The positions.
    pub closed spec fn positions(&self) -> ParallelIndexArrayColumn<Pod4> {
        self.positions
    }

    /// The rotations.
    pub closed spec fn rotations(&self) -> ParallelIndexArrayColumn<Pod4> {
        self.rotations
    }

    /// The entities.
    pub closed spec fn entities(&self) -> Seq<Entity> {
        self.entities@
    }

    /// The queue of draw commands.
    pub closed spec fn queue(&self) -> GpuCommandQueue<DrawArraysIndirectCommand> {
        self.command_queue
    }

    /// The invariant of the state: that of its two columns.
    pub open spec fn wf(&self) -> bool {
        self.positions().wf() && self.rotations().wf()
    }

    /// What a section of the scene holds once the state was uploaded into
    /// it.
    pub open spec fn image(&self) -> SceneImage {
        SceneImage {
            entity_map: words_bytes(entity_words(self.entities())),
            mesh_map: words_bytes(id_words(self.mesh_ids())),
            position_handles: words_bytes(self.positions().owner_view()),
            rotation_handles: words_bytes(self.rotations().owner_view()),
            positions: words_bytes(pod_words(self.positions().dense_view())),
            rotations: words_bytes(pod_words(self.rotations().dense_view())),
        }
    }

    /// A state without entities, whose command queue is as long as the
    /// command buffer on the device: `command_capacity` commands.
    pub fn new(command_capacity: usize) -> (state: Self)
        ensures
            state.wf(),
            state.entities() == Seq::<Entity>::empty(),
            state.mesh_ids() == Seq::<mesh::Id>::empty(),
            state.positions().model() == crate::state::data::SlotModel::empty(
                state.positions().dense_view()[0],
            ),
            state.rotations().model() == crate::state::data::SlotModel::empty(
                state.rotations().dense_view()[0],
            ),
            state.queue().commands() == Seq::<DrawArraysIndirectCommand>::empty(),
            state.queue().head() == 0,
            state.queue().capacity() == command_capacity,
    {
        let positions = ParallelIndexArrayColumn::new();
        let rotations = ParallelIndexArrayColumn::new();
        State {
            mesh_ids: Vec::new(),
            positions,
            rotations,
            entities: Vec::new(),
            command_queue: GpuCommandQueue::new(command_capacity),
        }
    }

    /// Create an entity of the mesh `mesh_handle`, at `position` and with
    /// `rotation`.
    ///
    /// # Returns
    /// The position of the entity among the entities.
    pub fn create_entity(&mut self, mesh_handle: usize, position: Pod4, rotation: Pod4) -> (entity_id:
        usize)
        requires
            old(self).wf(),
            old(self).positions().has_room(),
            old(self).rotations().has_room(),
            mesh_handle <= u32::MAX,
        ensures
            final(self).wf(),
            entity_id == old(self).entities().len(),
            final(self).positions().model() == old(self).positions().model().put(position),
            final(self).rotations().model() == old(self).rotations().model().put(rotation),
            final(self).entities() == old(self).entities().push(
                Entity {
                    mesh: mesh_handle as u32,
                    position: old(self).positions().model().next_handle() as u32,
                    rotation: old(self).rotations().model().next_handle() as u32,
                    pad: 0,
                },
            ),
            final(self).mesh_ids() == old(self).mesh_ids(),
            final(self).queue() == old(self).queue(),
    {
        let position_id = self.positions.put(position);
        let rotation_id = self.rotations.put(rotation);
        let entity_id = self.entities.len();

        self.entities.push(
            Entity { mesh: mesh_handle as u32, position: position_id, rotation: rotation_id, pad: 0 },
        );

        entity_id
    }

    /// The queue of draw commands.
    pub fn command_queue(&self) -> (queue: &GpuCommandQueue<DrawArraysIndirectCommand>)
        ensures
            *queue == self.queue(),
    {
        &self.command_queue
    }

    /// The queue of draw commands, for writing. Nothing else changes.
    pub fn command_queue_mut(&mut self) -> (queue: &mut GpuCommandQueue<DrawArraysIndirectCommand>)
        ensures
            *queue == old(self).queue(),
            final(self).queue() == *final(queue),
            final(self).entities() == old(self).entities(),
            final(self).mesh_ids() == old(self).mesh_ids(),
            final(self).positions() == old(self).positions(),
            final(self).rotations() == old(self).rotations(),
    {
        &mut self.command_queue
    }

    /// The IDs of the meshes on the device.
    pub fn global_mesh_storage(&self) -> (mesh_ids: &[mesh::Id])
        ensures
            mesh_ids@ == self.mesh_ids(),
    {
        self.mesh_ids.as_slice()
    }

    /// The IDs of the meshes on the device, for writing. Nothing else
    /// changes.
    pub fn global_mesh_storage_mut(&mut self) -> (mesh_ids: &mut Vec<mesh::Id>)
        ensures
            mesh_ids@ == old(self).mesh_ids(),
            final(self).mesh_ids() == final(mesh_ids)@,
            final(self).entities() == old(self).entities(),
            final(self).queue() == old(self).queue(),
            final(self).positions() == old(self).positions(),
            final(self).rotations() == old(self).rotations(),
    {
        &mut self.mesh_ids
    }

    /// The entities, in the order in which they were created.
    pub fn entity_map(&self) -> (entities: &[Entity])
        ensures
            entities@ == self.entities(),
    {
        self.entities.as_slice()
    }

    /// The positions of the entities.
    pub fn position_column(&self) -> (positions: &ParallelIndexArrayColumn<Pod4>)
        ensures
            *positions == self.positions(),
    {
        &self.positions
    }

    /// The rotations of the entities.
    pub fn rotation_column(&self) -> (rotations: &ParallelIndexArrayColumn<Pod4>)
        ensures
            *rotations == self.rotations(),
    {
        &self.rotations
    }

    /// The rotations of the entities, for writing. The values may change;
    /// handles and owners stay as they are.
    pub fn rotations_mut(&mut self) -> (rotations: &mut [Pod4])
        ensures
            rotations@ == old(self).rotations().dense_view(),
            final(self).rotations().dense_view() == final(rotations)@,
            final(self).rotations().map_view() == old(self).rotations().map_view(),
            final(self).rotations().owner_view() == old(self).rotations().owner_view(),
            final(self).rotations().free_view() == old(self).rotations().free_view(),
            final(self).positions() == old(self).positions(),
            final(self).entities() == old(self).entities(),
            final(self).mesh_ids() == old(self).mesh_ids(),
            final(self).queue() == old(self).queue(),
    {
        self.rotations.contiguous_mut()
    }

    /// Queue one draw command for each entity.
    fn stage_commands(&mut self)
        ensures
            final(self).queue().commands() == staged(
                old(self).queue().commands(),
                old(self).entities().len(),
            ),
            final(self).queue().head() == old(self).queue().head(),
            final(self).queue().capacity() == old(self).queue().capacity(),
            final(self).entities() == old(self).entities(),
            final(self).mesh_ids() == old(self).mesh_ids(),
            final(self).positions() == old(self).positions(),
            final(self).rotations() == old(self).rotations(),
    {
        let count = self.entities.len();
        let mut i: usize = 0;
        while i < count
            invariant
                0 <= i <= count,
                count == self.entities@.len(),
                self.command_queue.commands() == staged(old(self).queue().commands(), i as nat),
                self.command_queue.head() == old(self).queue().head(),
                self.command_queue.capacity() == old(self).queue().capacity(),
                self.entities == old(self).entities,
                self.mesh_ids == old(self).mesh_ids,
                self.positions == old(self).positions,
                self.rotations == old(self).rotations,
            decreases count - i,
        {
            self.command_queue.push(
                DrawArraysIndirectCommand {
                    count: 3,
                    instance_count: 1,
                    first_vertex: 0,
                    base_instance: 0,
                },
            );
            i += 1;
        }
    }

    /// Publish the state: write the next section of the shared storage and
    /// make it the current one.
    ///
    /// One draw command is queued for each entity. If the section after the
    /// current one is not locked, the entities, the mesh IDs, and the
    /// handles and values of positions and rotations are copied into their
    /// parts of that section of the scene, the queued commands are uploaded
    /// into that section of the command buffer, and the section becomes the
    /// current one. If the section is locked, the frame is dropped: the
    /// storage and the current section stay as they are.
    ///
    /// Either way the command queue is empty afterwards: nothing is carried
    /// over to the next frame.
    ///
    /// # Returns
    /// The number of commands that did not fit the command buffer and were
    /// dropped, if there are any.
    pub fn upload(&mut self, boundary: &mut Boundary<FrameStorageBuffers>) -> (overflow: Option<usize>)
        requires
            old(boundary).held().scene.wf(),
            old(boundary).held().command.wf(),
            old(self).queue().head() <= old(self).queue().commands().len(),
            old(self).queue().capacity() <= old(boundary).held().command.capacity(),
        ensures
            final(self).entities() == old(self).entities(),
            final(self).mesh_ids() == old(self).mesh_ids(),
            final(self).positions() == old(self).positions(),
            final(self).rotations() == old(self).rotations(),
            final(self).queue().commands() == Seq::<DrawArraysIndirectCommand>::empty(),
            final(self).queue().head() == 0,
            final(self).queue().capacity() == old(self).queue().capacity(),
            final(boundary).cache() == old(boundary).cache(),
            final(boundary).current() == crate::state::cross::crossed(
                old(boundary).current(),
                old(boundary).cache().bits(),
            ),
            !old(boundary).admits() ==> *final(boundary) == *old(boundary) && overflow is None,
            old(boundary).admits() ==> {
                let section = old(boundary).target().index();
                let commands = staged(old(self).queue().commands(), old(self).entities().len());
                let head = old(self).queue().head() as int;
                let uploaded = upload_count(
                    commands.len() as int,
                    head,
                    old(self).queue().capacity() as int,
                );
                let scene = final(boundary).held().scene;
                let command = final(boundary).held().command;
                let command_before = old(boundary).held().command;
                &&& final(boundary).current() == old(boundary).target()
                &&& scene.wf()
                &&& scene.plan() == old(boundary).held().scene.plan()
                &&& scene.object() == old(boundary).held().scene.object()
                &&& scene.bytes() == published(old(boundary).held().scene, section, old(self).image())
                &&& command.wf()
                &&& command.objects() == command_before.objects()
                &&& command.capacity() == command_before.capacity()
                &&& forall|s: int|
                    0 <= s < 3 && s != section ==> #[trigger] command.section(s)
                        == command_before.section(s)
                &&& forall|i: int|
                    0 <= i < uploaded ==> #[trigger] command.section(section)[i] == commands[head
                        + i]
                &&& forall|i: int|
                    uploaded <= i < command_before.capacity() ==> #[trigger] command.section(
                        section,
                    )[i] == command_before.section(section)[i]
                &&& overflow == (if commands.len() - head - uploaded > 0 {
                    Some((commands.len() - head - uploaded) as usize)
                } else {
                    None
                })
            },
    {
        self.stage_commands();
        proof {
            lemma_staged(old(self).queue().commands(), old(self).entities().len());
        }

        let mut overflow: Option<usize> = None;
        let section = boundary.current_section().next();
        if !boundary.sync_cache().has_lock(section) {
            let index = section.as_index();

            let entity_map = encode_entities(self.entities.as_slice());
            let mesh_map = encode_ids(self.mesh_ids.as_slice());
            let i_positions = encode_words(self.positions.handles());
            let i_rotations = encode_words(self.rotations.handles());
            let positions = encode_pods(self.positions.contiguous());
            let rotations = encode_pods(self.rotations.contiguous());

            let storage = boundary.storage_mut();
            {
                let scene = &mut storage.scene;
                scene.blit_part(index, 0, entity_map.as_slice());
                scene.blit_part(index, 1, mesh_map.as_slice());
                scene.blit_part(index, 2, i_positions.as_slice());
                scene.blit_part(index, 3, i_rotations.as_slice());
                scene.blit_part(index, 4, positions.as_slice());
                scene.blit_part(index, 5, rotations.as_slice());
            }
            {
                let command = &mut storage.command;
                proof {
                    assert(*command == old(boundary).held().command);
                    assert(command.section(index as int).len() == command.capacity());
                }
                let data = command.section_mut(index);
                proof {
                    assert(data@.len() == old(boundary).held().command.capacity());
                    assert(self.command_queue.capacity() == old(self).queue().capacity());
                }
                if let Err(exceed) = self.command_queue.upload(data) {
                    overflow = Some(exceed);
                }
            }
            boundary.advance_section();
        }
        self.command_queue.clear();
        overflow
    }
}

} // verus!
