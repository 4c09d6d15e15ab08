use std::cell::Cell;
use std::cell::RefCell;

use ethel::render::buffer::StorageSection;
use ethel::render::sync::SyncBarrier;
use ethel::render::sync::SyncState;
use ethel::state::cross::create;
use ethel::state::cross::Boundary;
use ethel::state::cross::Consumer;
use ethel::state::cross::Cross;
use ethel::state::cross::Producer;

const SECTIONS: [StorageSection; 3] =
    [StorageSection::Front, StorageSection::Back, StorageSection::Spare];

#[test]
fn a_new_lock_word_holds_no_lock() {
    let state = SyncState::new();
    assert_eq!(state.as_bits(), 0);
    for section in SECTIONS {
        assert!(!state.has_lock(section));
    }
    assert_eq!(SyncState::default().as_bits(), 0);
}

#[test]
fn locks_are_taken_and_released_one_by_one() {
    let mut state = SyncState::new();
    state.lock(StorageSection::Back);
    assert_eq!(state.as_bits(), 0b0000_1000);
    assert!(state.has_lock(StorageSection::Back));
    assert!(!state.has_lock(StorageSection::Front));
    state.lock(StorageSection::Spare);
    assert_eq!(state.as_bits(), 0b0100_1000);
    state.unlock(StorageSection::Back);
    assert_eq!(state.as_bits(), 0b0100_0000);
    assert!(!state.has_lock(StorageSection::Back));
    assert!(state.has_lock(StorageSection::Spare));
    state.unlock(StorageSection::Back);
    assert_eq!(state.as_bits(), 0b0100_0000);
}

#[test]
fn lock_bits_are_combined_with_or_and_cleared_with_and_not() {
    let mut state = SyncState::from_bits(0b0000_0001);
    state.lock_bits(0b0100_1000);
    assert_eq!(state.as_bits(), 0b0100_1001);
    for section in SECTIONS {
        assert!(state.has_lock(section));
    }
    state.unlock_bits(0b0000_1001);
    assert_eq!(state.as_bits(), 0b0100_0000);
    state.set(0b0000_1000);
    assert!(state.has_lock(StorageSection::Back));
    assert!(!state.has_lock(StorageSection::Spare));
}

#[test]
fn a_passed_fence_leaves_and_a_pending_one_locks() {
    let mut barrier = SyncBarrier::new();
    let mut state = SyncState::new();
    barrier.set(0, 100);
    barrier.set(2, 300);
    assert_eq!(barrier.fence(0), Some(100));
    assert_eq!(barrier.fence(1), None);
    let released = barrier.fetch(&mut state, [true, true, false]);
    assert_eq!(released, [Some(100), None, None]);
    assert_eq!(barrier.fence(0), None);
    assert_eq!(barrier.fence(2), Some(300));
    assert_eq!(state.as_bits(), 0b0100_0000);
    assert!(state.has_lock(StorageSection::Spare));
    assert!(!state.has_lock(StorageSection::Front));
    let released = barrier.fetch(&mut state, [false, false, true]);
    assert_eq!(released, [None, None, Some(300)]);
    assert_eq!(state.as_bits(), 0);
}

#[test]
fn every_fence_is_released_exactly_once() {
    let mut barrier = SyncBarrier::default();
    let mut state = SyncState::new();
    let mut released: Vec<usize> = Vec::new();
    barrier.set(0, 1);
    barrier.set(1, 2);
    barrier.set(2, 3);
    for poll in [[false, false, false], [false, true, false], [true, true, true]] {
        released.extend(barrier.fetch(&mut state, poll).into_iter().flatten());
    }
    released.extend(barrier.set(1, 4));
    released.extend(barrier.set(1, 5));
    released.extend(barrier.set(2, 6));
    released.extend(barrier.fetch(&mut state, [true, false, true]).into_iter().flatten());
    assert_eq!(state.as_bits(), 0b0000_1000);
    released.extend(barrier.set(1, 7));
    released.extend(barrier.drain().into_iter().flatten());
    released.sort();
    assert_eq!(released, vec![1, 2, 3, 4, 5, 6, 7]);
    assert_eq!(barrier.drain(), [None, None, None]);
}

#[test]
fn all_fences_pending_lock_all_sections() {
    let mut barrier = SyncBarrier::new();
    let mut state = SyncState::new();
    for index in 0..3 {
        barrier.set(index, index + 10);
    }
    let released = barrier.fetch(&mut state, [false, false, false]);
    assert_eq!(released, [None, None, None]);
    assert_eq!(state.as_bits(), 0b0100_1001);
}

#[test]
fn the_producer_advances_spare_front_back_spare() {
    let (mut boundary, producer, _consumer) = create(0u32);
    assert_eq!(boundary.current_section(), StorageSection::Spare);
    let mut seen = Vec::new();
    for _ in 0..7 {
        producer.cross(&mut boundary, |_, storage: &mut u32| *storage += 1);
        seen.push(boundary.current_section());
    }
    assert_eq!(
        seen,
        vec![
            StorageSection::Front,
            StorageSection::Back,
            StorageSection::Spare,
            StorageSection::Front,
            StorageSection::Back,
            StorageSection::Spare,
            StorageSection::Front,
        ]
    );
    assert_eq!(*boundary.storage(), 7);
}

#[test]
fn the_producer_writes_the_section_after_the_current_one() {
    let (mut boundary, producer, consumer) = create(Vec::<(StorageSection, char)>::new());
    let mut barrier = SyncBarrier::new();
    for _ in 0..4 {
        let current = boundary.current_section();
        producer.cross(&mut boundary, |section, log: &mut Vec<(StorageSection, char)>| {
            log.push((section, 'w'))
        });
        let written = boundary.storage().last().unwrap().0;
        assert_ne!(written, current);
        assert_eq!(written, current.next());
        assert_eq!(boundary.current_section(), written);
        consumer.cross(
            &mut boundary,
            &mut barrier,
            |_| true,
            |section, _| {
                assert_eq!(section, written);
                None
            },
        );
    }
}

#[test]
fn a_locked_section_drops_the_frame() {
    let (mut boundary, producer, consumer): (
        Boundary<Vec<StorageSection>>,
        Cross<Producer, Vec<StorageSection>>,
        Cross<Consumer, Vec<StorageSection>>,
    ) = create(Vec::new());
    let mut barrier = SyncBarrier::new();

    // producer A
    producer.cross(&mut boundary, |section, log: &mut Vec<StorageSection>| log.push(section));
    assert_eq!(boundary.current_section(), StorageSection::Front);

    // the consumer reads Front and puts a fence behind its draw
    let crossing = consumer.cross(
        &mut boundary,
        &mut barrier,
        |_| false,
        |section, log| {
            assert_eq!(section, StorageSection::Front);
            assert_eq!(log.as_slice(), &[StorageSection::Front]);
            Some(1)
        },
    );
    assert_eq!(crossing.fence, Some(1));
    assert_eq!(crossing.displaced, None);
    assert_eq!(barrier.fence(StorageSection::Front.as_index()), Some(1));
    assert!(boundary.sync_cache().has_lock(StorageSection::Front));
    assert_eq!(boundary.current_section(), StorageSection::Front);

    assert_eq!(barrier.set(StorageSection::Spare.as_index(), 2), None);
    boundary.sync(&mut barrier, [false; 3]);
    assert!(boundary.sync_cache().has_lock(StorageSection::Front));
    assert!(boundary.sync_cache().has_lock(StorageSection::Spare));

    // producer B: Back is free
    producer.cross(&mut boundary, |section, log: &mut Vec<StorageSection>| log.push(section));
    assert_eq!(boundary.current_section(), StorageSection::Back);

    // producer C: Spare is still read
    producer.cross(&mut boundary, |section, log: &mut Vec<StorageSection>| log.push(section));
    assert_eq!(boundary.current_section(), StorageSection::Back);
    assert_eq!(boundary.storage().as_slice(), &[StorageSection::Front, StorageSection::Back]);

    // the fence on Spare is passed: the next frame goes through
    let crossing = consumer.cross(&mut boundary, &mut barrier, |fence| fence == 2, |_, _| Some(3));
    assert_eq!(crossing.first, [false, false, true]);
    assert_eq!(crossing.released, [None, None, Some(2)]);
    assert_eq!(crossing.released_after, [None, None, None]);
    assert!(!boundary.sync_cache().has_lock(StorageSection::Spare));
    assert!(boundary.sync_cache().has_lock(StorageSection::Back));
    producer.cross(&mut boundary, |section, log: &mut Vec<StorageSection>| log.push(section));
    assert_eq!(boundary.current_section(), StorageSection::Spare);
    assert_eq!(boundary.storage().len(), 3);
}

#[test]
fn the_consumer_polls_runs_the_operation_once_and_polls_again() {
    let (mut boundary, _producer, consumer) = create(7u8);
    let mut barrier = SyncBarrier::new();
    barrier.set(StorageSection::Front.as_index(), 4);
    let log = RefCell::new(Vec::<String>::new());

    let crossing = consumer.cross(
        &mut boundary,
        &mut barrier,
        |fence| {
            log.borrow_mut().push(format!("poll {fence}"));
            false
        },
        |section, storage| {
            log.borrow_mut().push(format!("op {section:?} {storage}"));
            Some(5)
        },
    );

    assert_eq!(log.into_inner(), vec!["poll 4", "op Spare 7", "poll 4", "poll 5"]);
    assert_eq!(crossing.first, [false; 3]);
    assert_eq!(crossing.second, [false; 3]);
    assert_eq!(boundary.current_section(), StorageSection::Spare);
    assert_eq!(*boundary.storage(), 7);
    assert_eq!(barrier.fence(0), Some(4));
    assert_eq!(barrier.fence(2), Some(5));
    assert_eq!(boundary.sync_cache().as_bits(), 0b0100_0001);
}

#[test]
fn the_consumer_runs_the_operation_on_a_locked_section() {
    let (mut boundary, _producer, consumer) = create(0u8);
    let mut barrier = SyncBarrier::new();
    barrier.set(StorageSection::Spare.as_index(), 1);
    boundary.sync(&mut barrier, [false; 3]);
    assert!(boundary.sync_cache().has_lock(StorageSection::Spare));

    let runs = Cell::new(0);
    let crossing = consumer.cross(
        &mut boundary,
        &mut barrier,
        |_| false,
        |section, _| {
            assert_eq!(section, StorageSection::Spare);
            runs.set(runs.get() + 1);
            Some(2)
        },
    );
    assert_eq!(runs.get(), 1);
    // the fence of the earlier draw makes room for that of the later one
    assert_eq!(crossing.displaced, Some(1));
    assert_eq!(crossing.released, [None, None, None]);
    assert_eq!(barrier.fence(2), Some(2));
    assert_eq!(boundary.current_section(), StorageSection::Spare);
}

#[test]
fn a_fence_passed_during_the_draw_is_released_by_the_second_poll() {
    let (mut boundary, _producer, consumer) = create(0u8);
    let mut barrier = SyncBarrier::new();
    barrier.set(StorageSection::Back.as_index(), 8);
    let drawn = Cell::new(false);
    let crossing = consumer.cross(
        &mut boundary,
        &mut barrier,
        |fence| drawn.get() && fence == 8,
        |_, _| {
            drawn.set(true);
            Some(9)
        },
    );
    assert_eq!(crossing.first, [false, false, false]);
    assert_eq!(crossing.second, [false, true, false]);
    assert_eq!(crossing.released, [None, None, None]);
    assert_eq!(crossing.released_after, [None, Some(8), None]);
    assert_eq!(barrier.fence(1), None);
    assert_eq!(barrier.fence(2), Some(9));
    assert_eq!(boundary.sync_cache().as_bits(), 0b0100_0000);
}

#[test]
fn a_draw_without_a_fence_locks_its_section_for_one_poll() {
    let (mut boundary, producer, consumer) = create(0u8);
    let mut barrier = SyncBarrier::new();
    let crossing = consumer.cross(&mut boundary, &mut barrier, |_| true, |_, _| None);
    assert_eq!(crossing.fence, None);
    assert_eq!(crossing.displaced, None);
    assert_eq!(barrier.drain(), [None, None, None]);
    assert!(boundary.sync_cache().has_lock(StorageSection::Spare));
    assert_eq!(boundary.sync_cache().as_bits(), 0b0100_0000);

    // two frames go through, the third would write the section of the draw
    producer.cross(&mut boundary, |_, storage: &mut u8| *storage += 1);
    producer.cross(&mut boundary, |_, storage: &mut u8| *storage += 1);
    producer.cross(&mut boundary, |_, storage: &mut u8| *storage += 1);
    assert_eq!(*boundary.storage(), 2);
    assert_eq!(boundary.current_section(), StorageSection::Back);

    // the next poll lets go of the section
    boundary.sync(&mut barrier, [false; 3]);
    assert_eq!(boundary.sync_cache().as_bits(), 0);
    producer.cross(&mut boundary, |_, storage: &mut u8| *storage += 1);
    assert_eq!(boundary.current_section(), StorageSection::Spare);
}

#[test]
fn a_fence_put_over_another_displaces_it() {
    let mut barrier = SyncBarrier::new();
    assert_eq!(barrier.set(1, 10), None);
    assert_eq!(barrier.set(1, 11), Some(10));
    assert_eq!(barrier.set(0, 12), None);
    assert_eq!(barrier.fence(0), Some(12));
    assert_eq!(barrier.fence(1), Some(11));
    assert_eq!(barrier.fence(2), None);
}

#[test]
fn a_held_slot_locks_until_the_next_poll_but_one() {
    let mut barrier = SyncBarrier::new();
    let mut state = SyncState::new();
    barrier.set(1, 3);
    barrier.hold(0);
    barrier.hold(1);
    assert_eq!(barrier.fence(0), None);
    assert_eq!(barrier.fence(1), Some(3));

    assert_eq!(barrier.fetch(&mut state, [true, true, true]), [None, Some(3), None]);
    assert_eq!(state.as_bits(), 0b0000_1001);
    assert_eq!(barrier.fetch(&mut state, [false; 3]), [None; 3]);
    assert_eq!(state.as_bits(), 0);
}

#[test]
fn polling_asks_of_each_fence_in_a_slot() {
    let mut barrier = SyncBarrier::new();
    barrier.set(0, 20);
    barrier.set(2, 21);
    let asked = RefCell::new(Vec::new());
    let signalled = barrier.poll(&|fence| {
        asked.borrow_mut().push(fence);
        fence == 21
    });
    assert_eq!(signalled, [false, false, true]);
    assert_eq!(asked.into_inner(), vec![20, 21]);
    assert_eq!(SyncBarrier::new().poll(&|_| true), [false; 3]);
}

#[test]
fn a_boundary_starts_on_the_spare_section() {
    let mut boundary = Boundary::new(5u8);
    assert_eq!(boundary.current_section(), StorageSection::Spare);
    assert_eq!(boundary.sync_cache().as_bits(), 0);
    assert_eq!(*boundary.storage(), 5);
    *boundary.storage_mut() = 6;
    boundary.advance_section();
    assert_eq!(boundary.current_section(), StorageSection::Front);
    assert_eq!(*boundary.storage(), 6);
    let _producer: Cross<Producer, u8> = Cross::new();
}

#[test]
fn a_shared_lock_word_is_copied_into_the_boundary() {
    let (mut boundary, producer, _consumer) = create(0u8);
    *boundary.sync_cache_mut() = SyncState::from_bits(StorageSection::Front.as_byte());
    producer.cross(&mut boundary, |_, storage: &mut u8| *storage += 1);
    assert_eq!(boundary.current_section(), StorageSection::Spare);
    assert_eq!(*boundary.storage(), 0);
    *boundary.sync_cache_mut() = SyncState::from_bits(StorageSection::Back.as_byte());
    producer.cross(&mut boundary, |_, storage: &mut u8| *storage += 1);
    assert_eq!(boundary.current_section(), StorageSection::Front);
    producer.cross(&mut boundary, |_, storage: &mut u8| *storage += 1);
    assert_eq!(boundary.current_section(), StorageSection::Front);
    assert_eq!(*boundary.storage(), 1);
}
