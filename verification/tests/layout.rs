use ethel::render::buffer::layout::align_to;
use ethel::render::buffer::layout::Layout;
use ethel::render::buffer::layout::PartSpec;
use ethel::render::buffer::layout::NO_BINDING;

#[test]
fn four_parts_on_sixteen_byte_alignment() {
    let layout = Layout::<4>::new(16)
        .partition::<u32>(4)
        .partition::<f32>(8)
        .partition::<[f32; 4]>(2)
        .partition::<[f32; 4]>(2);

    assert_eq!(layout.offset_at(0), 0);
    assert_eq!(layout.offset_at(1), 16);
    assert_eq!(layout.offset_at(2), 48);
    assert_eq!(layout.offset_at(3), 80);

    assert_eq!(layout.length_at(0), 16);
    assert_eq!(layout.length_at(1), 32);
    assert_eq!(layout.length_at(2), 32);
    assert_eq!(layout.length_at(3), 32);

    assert_eq!(layout.len(), 128);
}

#[test]
fn align_to_rounds_up_to_the_next_multiple() {
    assert_eq!(align_to(0, 16), 0);
    assert_eq!(align_to(1, 16), 16);
    assert_eq!(align_to(16, 16), 16);
    assert_eq!(align_to(17, 16), 32);
    assert_eq!(align_to(112, 16), 112);
    assert_eq!(align_to(113, 16), 128);
    assert_eq!(align_to(5, 256), 256);
    assert_eq!(align_to(7, 1), 7);
    assert_eq!(align_to(7, 3), 9);
}

#[test]
fn parts_are_padded_to_the_alignment() {
    let layout = Layout::<3>::new(256)
        .partition::<u8>(3)
        .partition::<u16>(200)
        .partition::<u64>(1);
    assert_eq!(layout.offset_at(0), 0);
    assert_eq!(layout.length_at(0), 3);
    assert_eq!(layout.offset_at(1), 256);
    assert_eq!(layout.length_at(1), 400);
    assert_eq!(layout.offset_at(2), 768);
    assert_eq!(layout.length_at(2), 8);
    assert_eq!(layout.len(), 1024);
}

#[test]
fn bindings_are_recorded_for_the_last_part() {
    let layout = Layout::<3>::new(16)
        .partition::<u32>(1)
        .with_shader_storage(4)
        .partition::<u32>(1)
        .partition::<u32>(1)
        .with_shader_storage(9);
    assert_eq!(layout.ssbo_of(0), Some(4));
    assert_eq!(layout.ssbo_of(1), None);
    assert_eq!(layout.ssbo_of(2), Some(9));
}

#[test]
fn unplanned_parts_are_empty() {
    let layout = Layout::<2>::new(16).partition::<u32>(3);
    assert_eq!(layout.offset_at(1), 0);
    assert_eq!(layout.length_at(1), 0);
    assert_eq!(layout.ssbo_of(1), None);
    assert_eq!(layout.len(), 16);
}

#[test]
fn a_section_ends_with_padding() {
    let empty = Layout::<1>::new(16);
    assert_eq!(empty.len(), 16);
    let exact = Layout::<1>::new(16).partition::<u8>(16);
    assert_eq!(exact.len(), 32);
    let short = Layout::<1>::new(16).partition::<u8>(15);
    assert_eq!(short.len(), 16);
}

#[test]
fn a_plan_lays_out_what_partitions_lay_out() {
    let parts = [
        PartSpec { size: 4, count: 4, binding: NO_BINDING },
        PartSpec { size: 4, count: 8, binding: 4 },
        PartSpec { size: 16, count: 2, binding: NO_BINDING },
        PartSpec { size: 16, count: 2, binding: 5 },
    ];
    let layout = Layout::<4>::plan(16, &parts).unwrap();
    for (index, offset) in [0, 16, 48, 80].into_iter().enumerate() {
        assert_eq!(layout.offset_at(index), offset);
    }
    assert_eq!(layout.length_at(3), 32);
    assert_eq!(layout.ssbo_of(0), None);
    assert_eq!(layout.ssbo_of(1), Some(4));
    assert_eq!(layout.ssbo_of(3), Some(5));
    assert_eq!(layout.len(), 128);
    let fewer = Layout::<4>::plan(16, &parts[..1]).unwrap();
    assert_eq!(fewer.len(), 32);
    assert_eq!(fewer.length_at(1), 0);
}

#[test]
fn a_plan_that_cannot_be_laid_out_is_refused() {
    let part = PartSpec { size: 4, count: 4, binding: NO_BINDING };
    assert!(Layout::<1>::plan(16, &[part, part]).is_none());
    assert!(Layout::<2>::plan(0, &[part]).is_none());
    assert!(Layout::<0>::plan(16, &[]).is_none());
    let huge = PartSpec { size: usize::MAX, count: 2, binding: NO_BINDING };
    assert!(Layout::<2>::plan(16, &[huge]).is_none());
    let nearly = PartSpec { size: usize::MAX - 8, count: 1, binding: NO_BINDING };
    assert!(Layout::<2>::plan(16, &[nearly]).is_none());
    assert!(Layout::<2>::plan(16, &[part, nearly]).is_none());
    assert!(Layout::<2>::plan(1, &[]).is_some());
}

#[test]
fn planned_parts_do_not_overlap_and_are_aligned() {
    for alignment in [1usize, 4, 16, 64, 256] {
        let layout = Layout::<4>::new(alignment)
            .partition::<u8>(5)
            .partition::<u16>(33)
            .partition::<u64>(0)
            .partition::<[u8; 3]>(7);
        let mut end = 0;
        for part in 0..4 {
            let offset = layout.offset_at(part);
            assert_eq!(offset % alignment, 0);
            assert!(offset >= end);
            assert!(offset < end + alignment);
            end = offset + layout.length_at(part);
        }
        assert!(layout.len() > end);
        assert!(layout.len() <= end + alignment);
        assert_eq!(layout.len() % alignment, 0);
    }
}
