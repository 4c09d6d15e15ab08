use ethel::state::triple_buffer::create_contiguous;
use ethel::state::triple_buffer::from_slice_contiguous;
use ethel::state::triple_buffer::BufferStorage;
use ethel::state::triple_buffer::Consumer;
use ethel::state::triple_buffer::Contiguous;
use ethel::state::triple_buffer::HasBufferExactSize;
use ethel::state::triple_buffer::MappedStorage;
use ethel::state::triple_buffer::MappingRange;
use ethel::state::triple_buffer::Producer;
use ethel::state::triple_buffer::Separate;

#[test]
fn the_consumer_reads_what_the_producer_wrote_last() {
    let (mut storage, mut producer, mut consumer) = create_contiguous::<u32>(4);
    assert_eq!(storage.capacity(), 4);
    assert_eq!(storage.length(), 0);
    assert_eq!(consumer.read(&mut storage), &[] as &[u32]);

    producer.write(&mut storage, &[1, 2, 3]);
    assert_eq!(storage.length(), 3);
    producer.write(&mut storage, &[4, 5]);
    assert_eq!(consumer.read(&mut storage), &[4, 5]);

    producer.write_at(&mut storage, &[9], 1);
    assert_eq!(consumer.read_for(&mut storage, 4).len(), 1);
    producer.write_at(&mut storage, &[8, 9], 2);
    assert_eq!(consumer.read_at(&mut storage, 2), &[8, 9]);
    producer.write(&mut storage, &[10, 11, 12]);
    assert_eq!(consumer.read_at_for(&mut storage, 1, 1), &[11]);
}

#[test]
fn buffers_change_hands_on_write_and_read() {
    let mut storage = Contiguous::with_capacity(2, 0u8);
    assert_eq!(storage.write_at(0, &[1, 1], 0), 1);
    assert_eq!(storage.write_at(1, &[2, 2], 0), 0);
    let (index, data) = storage.read_at_for(2, 0, 2);
    assert_eq!((index, data), (1, &[2u8, 2][..]));
    let (index, data) = storage.read_at_for(1, 0, 2);
    assert_eq!((index, data), (2, &[0u8, 0][..]));
}

#[test]
fn a_slice_becomes_the_waiting_buffer() {
    let (mut storage, _producer, mut consumer) = from_slice_contiguous(&[7u16, 8, 9]);
    assert_eq!(storage.capacity(), 3);
    assert_eq!(storage.length(), 3);
    assert_eq!(consumer.read(&mut storage), &[7, 8, 9]);
    let _: Producer<u16, Contiguous<u16>> = Producer::new();
    let _: Consumer<u16, Contiguous<u16>> = Consumer::new();
}

#[test]
fn sections_of_one_block_are_written_in_turn() {
    let mut storage = Separate::with_capacity(3, 0u8);
    assert_eq!(storage.capacity(), 3);
    assert_eq!(storage.next_section(), 2);
    assert_eq!(storage.last_section(), 0);
    assert_eq!(storage.section_base(2), 6);
    assert_eq!(storage.write(&[1, 2, 3, 4], 0), 2);
    assert_eq!(storage.read(0, 3), (1, &[1u8, 2, 3][..]));
    assert_eq!(storage.write_at(0, &[5], 2), 0);
    assert_eq!(storage.read_at_for(0, 0, 3), (2, &[0u8, 0, 5][..]));
    assert_eq!(storage.write(&[6, 7], 1), 1);
    assert_eq!(storage.read(0, 9), (0, &[0u8, 6, 7, 1, 2, 3, 0, 0, 5][..]));
    assert_eq!(storage.length(), 0);
}

#[test]
fn ranges_are_reserved_back_to_back() {
    let plan = MappingRange::new().with_range(4).reserve::<u32>().reserve::<u8>().with_range(2).reserve::<u64>();
    assert_eq!(plan.total_length(), 16 + 4 + 16);
    let (offsets, ranges) = plan.to_arrays::<4>();
    assert_eq!(offsets, [0, 16, 20, 0]);
    assert_eq!(ranges, [16, 4, 16, 0]);

    let mut mapped: MappedStorage<2, Contiguous<u8>> =
        MappedStorage::new(Contiguous::with_capacity(36, 0), &plan);
    assert_eq!(mapped.alignment(1), (4, 16));
    assert_eq!(mapped.capacity(), 36);
    mapped.write_section(0, &[1, 2, 3]);
    assert_eq!(mapped.write_at(0, &[1, 2], 16), 1);
    assert_eq!(mapped.length(), 2);
    let (index, data) = mapped.read_at_for(2, 16, 8);
    assert_eq!((index, data), (0, &[1u8, 2][..]));
}
