use ethel::render::buffer::immutable::uninit;
use ethel::render::buffer::immutable::UninitImmutableBuffer;
use ethel::render::buffer::layout::Layout;
use ethel::render::buffer::partitioned::collect_bind_ranges;
use ethel::render::buffer::partitioned::BindRange;
use ethel::render::buffer::tri::BindBase;
use ethel::render::buffer::InitStrategy;
use ethel::render::buffer::PartitionedTriBuffer;
use ethel::render::buffer::StorageSection;
use ethel::render::buffer::TriBuffer;
use ethel::render::buffer::View;
use ethel::render::buffer::ViewMut;
use ethel::render::buffer::BACK_BYTE;
use ethel::render::buffer::FRONT_BYTE;
use ethel::render::buffer::SPARE_BYTE;

fn four_part_layout() -> Layout<4> {
    Layout::<4>::new(16)
        .partition::<u32>(4)
        .partition::<f32>(8)
        .with_shader_storage(4)
        .partition::<[f32; 4]>(2)
        .partition::<[f32; 4]>(2)
        .with_shader_storage(5)
}

fn bytes_of(values: &[[f32; 4]]) -> Vec<u8> {
    let mut bytes = Vec::new();
    for value in values {
        for component in value {
            bytes.extend_from_slice(&component.to_le_bytes());
        }
    }
    bytes
}

#[test]
fn a_part_that_was_blitted_is_viewed_again() {
    let mut buffer = PartitionedTriBuffer::new(7, four_part_layout());
    let ones = bytes_of(&[[1.0; 4]; 2]);
    buffer.blit_part(1, 2, &ones);
    let view = buffer.view_part(1, 2);
    assert_eq!(view.as_slice(), ones.as_slice());
    assert_eq!(view.offset(), 48);
    assert_eq!(view.length(), 32);
    assert_eq!(view.source(), 7);
    assert!(buffer.view_part(0, 2).as_slice().iter().all(|&byte| byte == 0));
    assert!(buffer.view_part(2, 2).as_slice().iter().all(|&byte| byte == 0));
    assert!(buffer.view_part(1, 1).as_slice().iter().all(|&byte| byte == 0));
    assert!(buffer.view_part(1, 3).as_slice().iter().all(|&byte| byte == 0));
    let section = buffer.view_section(1);
    assert_eq!(section.as_slice().len(), 128);
    assert_eq!(&section.as_slice()[48..80], ones.as_slice());
    assert_eq!(section.offset(), 128);
    assert_eq!(section.length(), 128);
}

#[test]
fn a_blit_is_cut_to_the_part() {
    let mut buffer = PartitionedTriBuffer::new(1, four_part_layout());
    let long = vec![9u8; 40];
    buffer.blit_part(0, 0, &long);
    let section = buffer.view_section(0);
    assert!(section.as_slice()[..16].iter().all(|&byte| byte == 9));
    assert!(section.as_slice()[16..].iter().all(|&byte| byte == 0));
    let short = vec![3u8; 5];
    buffer.blit_part(0, 0, &short);
    assert_eq!(&buffer.view_part(0, 0).as_slice()[..8], &[3, 3, 3, 3, 3, 9, 9, 9]);
}

#[test]
fn a_section_blit_is_cut_to_the_section() {
    let mut buffer = PartitionedTriBuffer::new(1, four_part_layout());
    let long = vec![5u8; 200];
    buffer.blit_section(1, &long);
    assert!(buffer.view_section(0).as_slice().iter().all(|&byte| byte == 0));
    assert!(buffer.view_section(1).as_slice().iter().all(|&byte| byte == 5));
    assert!(buffer.view_section(2).as_slice().iter().all(|&byte| byte == 0));
    buffer.blit_section(2, &[1, 2, 3]);
    assert_eq!(&buffer.view_section(2).as_slice()[..4], &[1, 2, 3, 0]);
}

#[test]
fn writing_through_a_view_reaches_the_buffer() {
    let mut buffer = PartitionedTriBuffer::new(1, four_part_layout());
    {
        let mut view = buffer.view_part_mut(2, 1);
        assert_eq!(view.offset(), 16);
        assert_eq!(view.length(), 32);
        let slice = view.as_mut_slice();
        slice[0] = 0xaa;
        slice[31] = 0xbb;
    }
    let section = buffer.view_section(2);
    assert_eq!(section.as_slice()[16], 0xaa);
    assert_eq!(section.as_slice()[47], 0xbb);
    assert_eq!(section.as_slice()[15], 0);
    assert_eq!(section.as_slice()[48], 0);
    {
        let mut view = buffer.view_section_mut(0);
        assert_eq!(view.offset(), 0);
        assert_eq!(view.length(), 128);
        view.as_mut_slice()[127] = 1;
    }
    assert_eq!(buffer.view_section(0).as_slice()[127], 1);
    assert_eq!(buffer.view_section(1).as_slice()[0], 0);
}

#[test]
fn parts_with_a_binding_are_bound_by_range() {
    let buffer = PartitionedTriBuffer::new(3, four_part_layout());
    assert_eq!(buffer.gl_object(), 3);
    assert_eq!(buffer.layout().len(), 128);
    let ranges = buffer.bind_shader_storage(2);
    assert_eq!(
        ranges,
        vec![
            BindRange { binding: 4, offset: 256 + 16, length: 32 },
            BindRange { binding: 5, offset: 256 + 80, length: 32 },
        ]
    );
    let first = buffer.bind_shader_storage(0);
    assert_eq!(first[0], BindRange { binding: 4, offset: 16, length: 32 });
    assert_eq!(collect_bind_ranges(&four_part_layout(), 1024).len(), 2);
}

#[test]
fn zero_initialisation_clears_the_part_in_every_section() {
    let mut buffer = PartitionedTriBuffer::new(1, four_part_layout());
    for section in 0..3 {
        buffer.blit_section(section, &[7u8; 128]);
    }
    let zero: InitStrategy<Vec<u8>, fn() -> Vec<u8>> = InitStrategy::Zero;
    buffer.initialise_part(1, 4, zero);
    for section in 0..3 {
        let bytes = buffer.view_section(section).to_vec();
        assert!(bytes[..16].iter().all(|&byte| byte == 7));
        assert!(bytes[16..48].iter().all(|&byte| byte == 0));
        assert!(bytes[48..].iter().all(|&byte| byte == 7));
    }
}

#[test]
fn fill_initialisation_writes_whole_elements() {
    let mut buffer = PartitionedTriBuffer::new(1, four_part_layout());
    let identity = bytes_of(&[[0.0, 0.0, 0.0, 1.0]]);
    let pattern = identity.clone();
    buffer.initialise_part(3, 16, InitStrategy::FillWith(move || pattern.clone()));
    for section in 0..3 {
        let part = buffer.view_part(section, 3).to_vec();
        assert_eq!(&part[..16], identity.as_slice());
        assert_eq!(&part[16..], identity.as_slice());
        assert!(buffer.view_part(section, 2).as_slice().iter().all(|&byte| byte == 0));
    }
    buffer.initialise_part(1, 12, InitStrategy::FillWith(|| vec![1u8; 12]));
    let part = buffer.view_part(0, 1).to_vec();
    assert!(part[..24].iter().all(|&byte| byte == 1));
    assert!(part[24..].iter().all(|&byte| byte == 0));
}

#[test]
fn a_tri_buffer_has_three_sections_of_its_own() {
    let mut buffer: TriBuffer<u32> = TriBuffer::new([11, 12, 13], 4, InitStrategy::FillWith(|| 9));
    assert_eq!(buffer.view_section(0).as_slice(), &[9, 9, 9, 9]);
    assert_eq!(buffer.view_section(2).source(), 13);
    assert_eq!(buffer.view_section(1).length(), 4);
    assert_eq!(buffer.view_section(1).offset(), 0);
    buffer.blit_section(1, &[1, 2, 3, 4, 5, 6]);
    assert_eq!(buffer.view_section(1).as_slice(), &[1, 2, 3, 4]);
    buffer.blit_section(2, &[8]);
    assert_eq!(buffer.view_section(2).as_slice(), &[8, 9, 9, 9]);
    assert_eq!(buffer.view_section(0).as_slice(), &[9, 9, 9, 9]);
    {
        let mut view = buffer.view_section_mut(0);
        view.as_mut_slice()[3] = 0;
    }
    buffer.section_mut(0)[0] = 5;
    assert_eq!(buffer.view_section(0).to_vec(), vec![5, 9, 9, 0]);
    assert_eq!(buffer.bind_shader_storage(1, 6), BindBase { binding: 6, object: 12 });
    let zeroed: TriBuffer<u32> =
        TriBuffer::new([1, 2, 3], 2, InitStrategy::<u32, fn() -> u32>::Zero);
    assert_eq!(zeroed.view_section(1).as_slice(), &[0, 0]);
}

#[test]
fn an_immutable_buffer_is_filled_part_by_part() {
    let layout = Layout::<2>::new(16)
        .partition::<u8>(20)
        .with_shader_storage(10)
        .partition::<u32>(2)
        .with_shader_storage(11);
    let mut buffer = uninit(21, layout);
    assert_eq!(buffer.as_bytes().len(), 48);
    buffer.fill_partition(0, &[1, 2, 3]);
    buffer.fill_partition(1, &[4, 5, 6, 7, 8, 9, 10, 11]);
    assert_eq!(&buffer.as_bytes()[..4], &[1, 2, 3, 0]);
    assert_eq!(&buffer.as_bytes()[32..40], &[4, 5, 6, 7, 8, 9, 10, 11]);
    assert_eq!(buffer.as_bytes()[40], 0);
    let finished = buffer.finish();
    assert_eq!(finished.gl_object(), 21);
    assert_eq!(
        finished.bind_shader_storage(),
        vec![
            BindRange { binding: 10, offset: 0, length: 20 },
            BindRange { binding: 11, offset: 32, length: 8 },
        ]
    );
    let other = UninitImmutableBuffer::new(1, Layout::<1>::new(4));
    assert_eq!(other.as_bytes(), &[0, 0, 0, 0]);
}

#[test]
fn sections_rotate_front_back_spare() {
    assert_eq!(StorageSection::Front.next(), StorageSection::Back);
    assert_eq!(StorageSection::Back.next(), StorageSection::Spare);
    assert_eq!(StorageSection::Spare.next(), StorageSection::Front);
    let mut section = StorageSection::Spare;
    section.advance();
    assert_eq!(section, StorageSection::Front);
    assert_eq!(StorageSection::Front.as_index(), 0);
    assert_eq!(StorageSection::Back.as_index(), 1);
    assert_eq!(StorageSection::Spare.as_index(), 2);
}

#[test]
fn section_tags_are_single_bits() {
    assert_eq!(FRONT_BYTE, 0b0000_0001);
    assert_eq!(BACK_BYTE, 0b0000_1000);
    assert_eq!(SPARE_BYTE, 0b0100_0000);
    assert_eq!(StorageSection::Front.as_byte(), 0b0000_0001);
    assert_eq!(StorageSection::Back.as_byte(), 0b0000_1000);
    assert_eq!(StorageSection::Spare.as_byte(), 0b0100_0000);
    for section in [StorageSection::Front, StorageSection::Back, StorageSection::Spare] {
        assert_eq!(StorageSection::from_byte(section.as_byte()), section);
    }
}

#[test]
fn views_report_where_their_data_lies() {
    let data = [1u16, 2, 3];
    let view = View::new(&data, 6, 3, 42);
    assert_eq!(view.as_slice(), &[1, 2, 3]);
    assert_eq!((view.offset(), view.length(), view.source()), (6, 3, 42));
    assert_eq!(view.to_vec(), vec![1, 2, 3]);
    assert_eq!(view.len(), 3);
    let mut more = [4u16, 5];
    let mut view = ViewMut::new(&mut more, 0, 2, 43);
    assert_eq!((view.offset(), view.length(), view.source()), (0, 2, 43));
    assert_eq!(view.to_vec(), vec![4, 5]);
    assert_eq!(view[1], 5);
    view.as_mut_slice()[0] = 9;
    assert_eq!(more, [9, 5]);
}

#[test]
fn a_mutable_view_reads_what_it_holds() {
    let mut data = [7u8, 8];
    let view = ViewMut::new(&mut data, 1, 2, 3);
    assert_eq!(view.as_slice(), &[7, 8]);
}
