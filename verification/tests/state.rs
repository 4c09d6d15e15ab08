use ethel::mesh::Id;
use ethel::mesh::Metadata;
use ethel::render::buffer::layout::Layout;
use ethel::render::buffer::InitStrategy;
use ethel::render::buffer::PartitionedTriBuffer;
use ethel::render::buffer::StorageSection;
use ethel::render::buffer::TriBuffer;
use ethel::render::command::DrawArraysIndirectCommand;
use ethel::render::sync::SyncBarrier;
use ethel::state::cross::Boundary;
use ethel::state::data::column::IterColumn;
use ethel::state::record::encode_commands;
use ethel::state::record::encode_entities;
use ethel::state::record::encode_ids;
use ethel::state::record::encode_metadata;
use ethel::state::record::encode_pod;
use ethel::state::record::encode_pods;
use ethel::state::record::encode_words;
use ethel::state::record::Entity;
use ethel::state::record::Pod4;
use ethel::state::FrameStorageBuffers;
use ethel::state::LayoutEntityData;
use ethel::state::State;

fn pod(x: f32, y: f32, z: f32, w: f32) -> Pod4 {
    Pod4 { x: x.to_bits(), y: y.to_bits(), z: z.to_bits(), w: w.to_bits() }
}

fn storage(command_capacity: usize) -> FrameStorageBuffers {
    let layout = Layout::<6>::new(16)
        .partition::<Entity>(4)
        .partition::<Id>(4)
        .partition::<u32>(5)
        .partition::<u32>(5)
        .partition::<Pod4>(5)
        .partition::<Pod4>(5);
    FrameStorageBuffers {
        command: TriBuffer::new(
            [1, 2, 3],
            command_capacity,
            InitStrategy::<DrawArraysIndirectCommand, fn() -> DrawArraysIndirectCommand>::Zero,
        ),
        scene: PartitionedTriBuffer::new(9, layout),
    }
}

#[test]
fn words_are_encoded_lowest_byte_first() {
    assert_eq!(encode_words(&[0x0403_0201, 0xffff_fffe]), vec![1, 2, 3, 4, 0xfe, 0xff, 0xff, 0xff]);
    assert_eq!(encode_words(&[]), Vec::<u8>::new());
    assert_eq!(encode_ids(&[Id(7), Id(256)]), vec![7, 0, 0, 0, 0, 1, 0, 0]);
    assert_eq!(
        encode_metadata(&[Metadata { offset: 3, length: 36 }]),
        vec![3, 0, 0, 0, 36, 0, 0, 0]
    );
}

#[test]
fn records_take_sixteen_bytes_each() {
    let entity = Entity { mesh: 1, position: 2, rotation: 3, pad: 0 };
    assert_eq!(encode_entities(&[entity]), vec![1, 0, 0, 0, 2, 0, 0, 0, 3, 0, 0, 0, 0, 0, 0, 0]);
    assert_eq!(encode_entities(&[entity, entity]).len(), 32);
    let one = pod(1.0, 1.0, 1.0, 1.0);
    let bytes = encode_pods(&[one]);
    assert_eq!(bytes, [1.0f32.to_le_bytes(); 4].concat());
    let command =
        DrawArraysIndirectCommand { count: 3, instance_count: 1, first_vertex: 0, base_instance: 0 };
    assert_eq!(
        encode_commands(&[command]),
        vec![3, 0, 0, 0, 1, 0, 0, 0, 0, 0, 0, 0, 0, 0, 0, 0]
    );
    assert_eq!(Pod4::default(), Pod4 { x: 0, y: 0, z: 0, w: 0 });
    assert_eq!(Entity::default().pad, 0);
}

#[test]
fn entities_refer_to_their_parts_by_handle() {
    let mut state = State::new(8);
    state.global_mesh_storage_mut().push(Id(0));
    let first = state.create_entity(0, pod(0.0, 0.0, -5.0, 1.0), pod(0.0, 0.0, 0.0, 1.0));
    let second = state.create_entity(0, pod(0.0, 3.0, -5.0, 1.0), pod(0.0, 0.0, 0.0, 1.0));
    assert_eq!((first, second), (0, 1));
    assert_eq!(
        state.entity_map(),
        &[
            Entity { mesh: 0, position: 1, rotation: 1, pad: 0 },
            Entity { mesh: 0, position: 2, rotation: 2, pad: 0 },
        ]
    );
    assert_eq!(state.position_column().contiguous()[2], pod(0.0, 3.0, -5.0, 1.0));
    assert_eq!(state.rotation_column().handles(), &[0, 1, 2]);
    assert_eq!(state.global_mesh_storage(), &[Id(0)]);
    state.rotations_mut()[1] = pod(1.0, 0.0, 0.0, 0.0);
    assert_eq!(state.rotation_column().contiguous()[1], pod(1.0, 0.0, 0.0, 0.0));
}

#[test]
fn an_upload_writes_the_next_section_and_publishes_it() {
    let mut state = State::new(4);
    state.global_mesh_storage_mut().push(Id(5));
    state.create_entity(0, pod(1.0, 2.0, 3.0, 1.0), pod(0.0, 0.0, 0.0, 1.0));
    state.create_entity(0, pod(4.0, 5.0, 6.0, 1.0), pod(0.0, 1.0, 0.0, 0.0));
    let mut boundary = Boundary::new(storage(4));

    assert_eq!(state.upload(&mut boundary), None);
    assert_eq!(boundary.current_section(), StorageSection::Front);
    assert!(state.command_queue_mut().pop().is_none());

    let scene = &boundary.storage().scene;
    let section = StorageSection::Front.as_index();
    let entities = scene.view_part(section, LayoutEntityData::EntityIndexMap.as_index());
    assert_eq!(&entities.as_slice()[..32], encode_entities(state.entity_map()).as_slice());
    assert!(entities.as_slice()[32..].iter().all(|&byte| byte == 0));
    let meshes = scene.view_part(section, LayoutEntityData::MeshData.as_index());
    assert_eq!(&meshes.as_slice()[..4], &[5, 0, 0, 0]);
    let handles = scene.view_part(section, LayoutEntityData::ImapPositions.as_index());
    assert_eq!(&handles.as_slice()[..12], encode_words(&[0, 1, 2]).as_slice());
    let handles = scene.view_part(section, LayoutEntityData::ImapRotations.as_index());
    assert_eq!(&handles.as_slice()[..12], encode_words(&[0, 1, 2]).as_slice());
    let positions = scene.view_part(section, LayoutEntityData::PodPositions.as_index());
    assert_eq!(
        &positions.as_slice()[..48],
        encode_pods(state.position_column().contiguous()).as_slice()
    );
    let rotations = scene.view_part(section, LayoutEntityData::PodRotations.as_index());
    assert_eq!(
        &rotations.as_slice()[32..48],
        encode_pods(&[pod(0.0, 1.0, 0.0, 0.0)]).as_slice()
    );
    assert!(scene.view_section(1).as_slice().iter().all(|&byte| byte == 0));

    let command =
        DrawArraysIndirectCommand { count: 3, instance_count: 1, first_vertex: 0, base_instance: 0 };
    let blank = DrawArraysIndirectCommand::default();
    assert_eq!(
        boundary.storage().command.view_section(section).as_slice(),
        &[command, command, blank, blank]
    );
    assert_eq!(boundary.storage().command.view_section(1).as_slice(), &[blank; 4]);
}

#[test]
fn surplus_commands_are_counted_and_dropped() {
    let mut state = State::new(2);
    for _ in 0..5 {
        state.create_entity(0, Pod4::default(), Pod4::default());
    }
    let mut boundary = Boundary::new(storage(2));
    assert_eq!(state.upload(&mut boundary), Some(3));
    assert_eq!(boundary.current_section(), StorageSection::Front);
    assert_eq!(state.upload(&mut boundary), Some(3));
    assert_eq!(boundary.current_section(), StorageSection::Back);
}

#[test]
fn a_locked_section_drops_the_upload() {
    let mut state = State::new(4);
    state.create_entity(0, Pod4::default(), Pod4::default());
    let mut boundary = Boundary::new(storage(4));
    let mut barrier = SyncBarrier::new();
    barrier.set(StorageSection::Front.as_index(), 1);
    boundary.sync(&mut barrier, [false; 3]);

    state.command_queue_mut().push(DrawArraysIndirectCommand::default());
    assert_eq!(state.upload(&mut boundary), None);
    assert_eq!(boundary.current_section(), StorageSection::Spare);
    assert!(boundary.storage().scene.view_section(0).as_slice().iter().all(|&byte| byte == 0));
    assert!(state.command_queue_mut().pop().is_none());

    boundary.sync(&mut barrier, [true; 3]);
    assert_eq!(state.upload(&mut boundary), None);
    assert_eq!(boundary.current_section(), StorageSection::Front);
}

#[test]
fn the_parts_of_a_scene_section_come_in_a_fixed_order() {
    assert_eq!(LayoutEntityData::EntityIndexMap.as_index(), 0);
    assert_eq!(LayoutEntityData::MeshData.as_index(), 1);
    assert_eq!(LayoutEntityData::ImapPositions.as_index(), 2);
    assert_eq!(LayoutEntityData::ImapRotations.as_index(), 3);
    assert_eq!(LayoutEntityData::PodPositions.as_index(), 4);
    assert_eq!(LayoutEntityData::PodRotations.as_index(), 5);
}

#[test]
fn the_scene_is_laid_out_part_after_part() {
    let layout = LayoutEntityData::create(16, 3).unwrap();
    let offsets: Vec<usize> = (0..6).map(|part| layout.offset_at(part)).collect();
    let lengths: Vec<usize> = (0..6).map(|part| layout.length_at(part)).collect();
    let bindings: Vec<Option<u32>> = (0..6).map(|part| layout.ssbo_of(part)).collect();
    assert_eq!(offsets, vec![0, 48, 64, 80, 96, 144]);
    assert_eq!(lengths, vec![48, 12, 12, 12, 48, 48]);
    assert_eq!(bindings, vec![None, None, Some(2), Some(3), Some(4), Some(5)]);
    assert_eq!(layout.len(), 208);

    let wide = LayoutEntityData::create(256, 512).unwrap();
    assert_eq!(wide.offset_at(LayoutEntityData::PodRotations.as_index()), 8192 + 3 * 2048 + 8192);
    assert_eq!(wide.length_at(LayoutEntityData::EntityIndexMap.as_index()), 8192);
}

#[test]
fn a_scene_that_cannot_be_laid_out_is_refused() {
    assert!(LayoutEntityData::create(0, 4).is_none());
    assert!(LayoutEntityData::create(16, usize::MAX / 8).is_none());
    assert!(LayoutEntityData::create(16, 0).is_some());
}

#[test]
fn a_new_scene_holds_zeroes_and_identity_rotations() {
    let layout = LayoutEntityData::create(16, 3).unwrap();
    let mut scene = PartitionedTriBuffer::new(4, layout);
    for section in 0..3 {
        let junk = vec![0xabu8; 208];
        scene.blit_section(section, &junk);
    }
    let identity = pod(0.0, 0.0, 0.0, 1.0);
    LayoutEntityData::initialise_partitions(&mut scene, identity);

    let one = encode_pods(&[identity]);
    assert_eq!(one, vec![0, 0, 0, 0, 0, 0, 0, 0, 0, 0, 0, 0, 0, 0, 0x80, 0x3f]);
    assert_eq!(encode_pod(identity), one);
    assert_eq!(encode_pod(Pod4 { x: 1, y: 2, z: 3, w: 0x0403_0201 })[12..], [1, 2, 3, 4]);
    for section in 0..3 {
        for part in 0..5 {
            assert!(scene.view_part(section, part).as_slice().iter().all(|&byte| byte == 0));
        }
        let rotations = scene.view_part(section, 5);
        assert_eq!(rotations.as_slice(), [one.clone(), one.clone(), one.clone()].concat());

        // the padding between the parts and behind them is left alone
        let bytes = scene.view_section(section);
        let bytes = bytes.as_slice();
        assert!(bytes[60..64].iter().all(|&byte| byte == 0xab));
        assert!(bytes[76..80].iter().all(|&byte| byte == 0xab));
        assert!(bytes[92..96].iter().all(|&byte| byte == 0xab));
        assert!(bytes[192..208].iter().all(|&byte| byte == 0xab));
    }
}
