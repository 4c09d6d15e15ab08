use ethel::state::column::Column as WordColumn;
use ethel::state::column::StagingColumn;
use ethel::state::data::column::ArrayColumn;
use ethel::state::data::column::Entry;
use ethel::state::data::column::IndexArrayColumn;
use ethel::state::data::column::IterColumn;
use ethel::state::data::column::ParallelIndexArrayColumn;
use ethel::state::data::Column;
use ethel::state::data::SparseSlot;

#[test]
fn free_last_after_random_free() {
    let mut column = ParallelIndexArrayColumn::<u32>::new();

    for i in 0..50 {
        column.put(i as u32);
    }
    let last = column.put(100);

    // free random
    {
        column.free(37);
        column.free(14);
        column.free(32);
        column.free(45);
        column.free(24);
        column.free(3);
        column.free(7);
        column.free(35);
    }

    // free last
    column.free(last);
}

fn assert_round_trip(column: &ParallelIndexArrayColumn<u32>) {
    let map = column.slots_map();
    let owners = column.handles();
    let dense = column.contiguous();
    assert_eq!(owners.len(), dense.len());
    assert!(dense.len() >= 1);
    assert_eq!(map[0], 0);
    assert_eq!(owners[0], 0);
    for (handle, &slot) in map.iter().enumerate() {
        assert!((slot as usize) < dense.len());
        if slot != 0 {
            assert_eq!(owners[slot as usize] as usize, handle);
        }
    }
    for slot in 1..dense.len() {
        assert_eq!(map[owners[slot] as usize] as usize, slot);
    }
    let mut free: Vec<u32> = column.free_list().clone();
    free.sort();
    let mut unused: Vec<u32> = Vec::new();
    for (handle, &slot) in map.iter().enumerate() {
        if handle != 0 && slot == 0 {
            unused.push(handle as u32);
        }
    }
    assert_eq!(free, unused);
    assert_eq!(map.len(), dense.len() + free.len());
}

#[test]
fn handles_are_handed_out_in_order_and_recycled() {
    let mut column = ParallelIndexArrayColumn::<u32>::new();
    let h1 = column.put(10);
    let h2 = column.put(20);
    let h3 = column.put(30);
    assert_eq!((h1, h2, h3), (1, 2, 3));
    assert_eq!(column.contiguous()[column.get_indirect_unchecked(h2) as usize], 20);

    column.free(h2);
    assert_eq!(column.get_indirect(h2), Some(0));
    assert_eq!(column.contiguous(), &[0, 10, 30]);
    assert_eq!(column.handles(), &[0, 1, 3]);
    assert_eq!(column.get_indirect(h3), Some(2));

    let again = column.put(40);
    assert_eq!(again, h2);
    assert_eq!(column.contiguous(), &[0, 10, 30, 40]);
    assert_eq!(column.contiguous()[column.get_indirect_unchecked(h2) as usize], 40);
    assert_round_trip(&column);
}

#[test]
fn round_trip_holds_after_many_frees() {
    let mut column = ParallelIndexArrayColumn::<u32>::new();
    for i in 0..50 {
        column.put(i as u32);
    }
    let last = column.put(100);
    for handle in [37, 14, 32, 45, 24, 3, 7, 35] {
        column.free(handle);
        assert_round_trip(&column);
    }
    column.free(last);
    assert_round_trip(&column);
    assert_eq!(column.get_indirect(last), Some(0));
    assert_eq!(column.len(), 1 + 51 - 9);
    assert_eq!(column.size(), 52);
}

#[test]
fn freeing_the_last_dense_slot_moves_nothing() {
    let mut column = ParallelIndexArrayColumn::<u32>::new();
    let a = column.put(1);
    let b = column.put(2);
    let c = column.put(3);
    column.free(c);
    assert_eq!(column.get_indirect(c), Some(0));
    assert_eq!(column.get_indirect(a), Some(1));
    assert_eq!(column.get_indirect(b), Some(2));
    assert_eq!(column.contiguous(), &[0, 1, 2]);
    assert_eq!(column.handles(), &[0, a, b]);
    assert_round_trip(&column);
}

#[test]
fn freeing_twice_changes_nothing() {
    let mut column = ParallelIndexArrayColumn::<u32>::new();
    let a = column.put(1);
    let b = column.put(2);
    column.free(a);
    let dense: Vec<u32> = column.contiguous().to_vec();
    let free: Vec<u32> = column.free_list().clone();
    column.free(a);
    assert_eq!(column.contiguous(), dense.as_slice());
    assert_eq!(column.free_list(), &free);
    assert_eq!(column.get_indirect(b), Some(1));
    assert_round_trip(&column);
}

#[test]
fn live_handles_keep_their_values() {
    let mut column = ParallelIndexArrayColumn::<u32>::new();
    let mut live: Vec<(u32, u32)> = Vec::new();
    for round in 0..40u32 {
        let handle = column.put(round * 7);
        live.push((handle, round * 7));
        if round % 3 == 2 {
            let (gone, _) = live.remove((round as usize * 5) % live.len());
            column.free(gone);
        }
        for &(handle, value) in &live {
            let slot = column.get_indirect_unchecked(handle);
            assert_ne!(slot, 0);
            assert_eq!(column.contiguous()[slot as usize], value);
        }
        assert_round_trip(&column);
    }
}

#[test]
fn a_handle_beyond_the_slot_map_points_nowhere() {
    let mut column = ParallelIndexArrayColumn::<u32>::new();
    column.put(5);
    assert_eq!(column.get_indirect(1), Some(1));
    assert_eq!(column.get_indirect(2), None);
    assert_eq!(column.get_indirect(0), Some(0));
}

#[test]
fn a_new_column_holds_the_degenerate_element_only() {
    let column = ParallelIndexArrayColumn::<u32>::with_capacity(8);
    assert_eq!(column.len(), 1);
    assert_eq!(column.size(), 1);
    assert_eq!(column.contiguous(), &[0]);
    assert_eq!(column.handles(), &[0]);
    assert!(column.free_list().is_empty());
    let other = ParallelIndexArrayColumn::<u32>::default();
    assert_eq!(other.len(), 1);
    assert_eq!(other.slots_map(), &vec![0]);
}

#[test]
fn iteration_skips_the_degenerate_element() {
    let mut column = ParallelIndexArrayColumn::<u32>::new();
    column.put(10);
    column.put(20);
    assert_eq!(column.iter(), &[10, 20]);
    for value in column.iter_mut() {
        *value += 1;
    }
    assert_eq!(column.contiguous(), &[0, 11, 21]);
    let all: Vec<u32> = column.into_iter().collect();
    assert_eq!(all, vec![0, 11, 21]);
}

#[test]
fn next_slot_index_takes_the_handle_freed_last() {
    let mut column = ParallelIndexArrayColumn::<u32>::new();
    let a = column.put(1);
    let b = column.put(2);
    let c = column.put(3);
    column.free(a);
    column.free(c);
    assert_eq!(column.free_list(), &vec![a, c]);
    assert_eq!(column.put(9), c);
    assert_eq!(column.put(8), a);
    assert_eq!(column.put(7), 4);
    assert_eq!(column.get_indirect(b), Some(1));
}

#[test]
fn entry_column_keeps_owner_and_value_together() {
    let mut column = IndexArrayColumn::<u32>::new();
    let h1 = column.put(10);
    let h2 = column.put(20);
    let h3 = column.put(30);
    assert_eq!((h1, h2, h3), (1, 2, 3));
    column.free(h2);
    assert_eq!(column.get_indirect(h2), Some(0));
    assert_eq!(column.get_indirect(h3), Some(2));
    let entries = column.contiguous();
    assert_eq!(entries.len(), 3);
    assert_eq!((entries[1].owner(), *entries[1].inner_value()), (1, 10));
    assert_eq!((entries[2].owner(), *entries[2].inner_value()), (3, 30));
    assert_eq!(column.put(40), h2);
    let entries = column.contiguous();
    assert_eq!((entries[3].owner(), *entries[3].inner_value()), (2, 40));
    column.free(h2);
    assert_eq!(column.get_indirect(h2), Some(0));
    assert_eq!(column.len(), 3);
    assert_eq!(column.iter().len(), 2);
}

#[test]
fn bare_column_finds_the_owner_of_the_moved_value() {
    let mut column = ArrayColumn::<u32>::new();
    let h1 = column.put(10);
    let h2 = column.put(20);
    let h3 = column.put(30);
    let h4 = column.put(40);
    column.free(h2);
    assert_eq!(column.contiguous(), &[0, 10, 40, 30]);
    assert_eq!(column.get_indirect(h4), Some(2));
    assert_eq!(column.get_indirect(h3), Some(3));
    assert_eq!(column.get_indirect(h1), Some(1));
    assert_eq!(column.get_indirect(h2), Some(0));
    column.free(h3);
    assert_eq!(column.contiguous(), &[0, 10, 40]);
    assert_eq!(column.get_indirect(h4), Some(2));
    assert_eq!(column.put(50), h3);
    assert_eq!(column.contiguous()[column.get_indirect_unchecked(h3) as usize], 50);
}

#[test]
fn word_column_reads_and_writes_through_handles() {
    let mut column = WordColumn::<u32>::new();
    let h1 = column.put(10);
    let h2 = column.put(20);
    let h3 = column.put(30);
    assert_eq!((h1, h2, h3), (1, 2, 3));
    assert_eq!(*column.get_indirect(h2), 20);
    assert_eq!(*column.get_direct(3), 30);
    column.free(h2);
    assert_eq!(column.indirect(), &[0, 1, 0, 2]);
    assert_eq!(*column.get_indirect(h3), 30);
    assert_eq!(*column.get_indirect(h2), 0);
    *column.get_indirect_mut(h3) = 33;
    *column.get_direct_mut(1) = 11;
    let values: Vec<u32> = column.iter().into_iter().copied().collect();
    assert_eq!(values, vec![11, 33]);
    assert_eq!(column.put(40), h2);
    assert_eq!(*column.get_indirect(h2), 40);
    let owners: Vec<u32> = column.contiguous().iter().map(Entry::owner).collect();
    assert_eq!(owners, vec![0, 1, 3, 2]);
    for entry in column.iter_mut() {
        *entry.inner_value_mut() += 1;
    }
    assert_eq!(*column.get_direct(0), 0);
    assert_eq!(*column.get_indirect(h1), 12);
    column.free(h2);
    assert_eq!(column.contiguous().len(), 3);
}

#[test]
fn staging_converts_the_values_behind_the_degenerate_element() {
    let mut staging = StagingColumn::<u32, u64>::new();
    assert_eq!(staging.pod(), &[0u64]);
    staging.column_mut().put(5);
    staging.column_mut().put(6);
    staging.sync_stage();
    assert_eq!(staging.pod(), &[5u64]);
    assert_eq!(*staging.get_direct(2), 6);
    let wide = StagingColumn::<u32, u64>::with_capacity(4);
    assert_eq!(wide.pod().len(), 1);
}

#[test]
fn entries_hold_what_they_were_made_with() {
    let mut entry = Entry::new(7, 'a');
    assert_eq!(entry.owner(), 7);
    assert_eq!(*entry.inner_value(), 'a');
    *entry.inner_value_mut() = 'b';
    assert_eq!(*entry.inner_value(), 'b');
    assert_eq!(entry.owner(), 7);
    let blank = Entry::<u8>::default();
    assert_eq!((blank.owner(), *blank.inner_value()), (0, 0));
}

#[test]
fn staging_converts_with_a_function_of_the_caller() {
    let mut staging = StagingColumn::<u32, String>::default();
    staging.column_mut().put(5);
    staging.sync_stage_with(|value| value.to_string());
    assert!(staging.pod().is_empty());

    let mut staging = StagingColumn::<u32, u64>::new();
    staging.column_mut().put(5);
    staging.sync_stage_with(|value| value as u64 * 2);
    assert_eq!(staging.pod(), &[10]);
}
