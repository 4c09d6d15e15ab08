use ethel::state::data::hash::Cell;
use ethel::state::data::hash::FxSpatialHash;
use ethel::state::data::hash::SpatialResolution;

fn cell(x: i32, y: i32, z: i32) -> Cell {
    Cell { x, y, z }
}

#[test]
fn a_cell_holds_the_element_put_last() {
    let mut hash = FxSpatialHash::<u32>::new(SpatialResolution::new(4));
    assert!(hash.is_empty());
    assert_eq!(hash.put(cell(1, 2, 3), 10), None);
    assert_eq!(hash.put(cell(1, 2, 3), 11), Some(10));
    assert_eq!(hash.put(cell(-1, -2, -3), 12), None);
    assert_eq!(hash.put(cell(3, 2, 1), 13), None);
    assert_eq!(hash.len(), 3);
    assert_eq!(hash.get(&cell(1, 2, 3)), Some(&11));
    assert_eq!(hash.get(&cell(-1, -2, -3)), Some(&12));
    assert_eq!(hash.get(&cell(3, 2, 1)), Some(&13));
    assert_eq!(hash.get(&cell(2, 2, 3)), None);
    assert_eq!(hash.get(&cell(1, 2, -3)), None);
    *hash.get_mut(&cell(3, 2, 1)).unwrap() = 14;
    assert_eq!(hash.get(&cell(3, 2, 1)), Some(&14));
    assert!(hash.get_mut(&cell(0, 0, 0)).is_none());
    assert_eq!(hash.remove(&cell(1, 2, 3)), Some(11));
    assert_eq!(hash.remove(&cell(1, 2, 3)), None);
    assert_eq!(hash.len(), 2);
    assert_eq!(hash.resolution().get(), 4);
    hash.clear();
    assert!(hash.is_empty());
    assert_eq!(hash.get(&cell(3, 2, 1)), None);
}

#[test]
fn cells_at_the_ends_of_the_range_are_told_apart() {
    let mut hash = FxSpatialHash::<u8>::with_capacity(SpatialResolution::default(), 16);
    let corners = [
        cell(i32::MIN, i32::MIN, i32::MIN),
        cell(i32::MAX, i32::MAX, i32::MAX),
        cell(i32::MIN, 0, i32::MAX),
        cell(0, i32::MAX, i32::MIN),
        cell(0, 0, 0),
        cell(0, 0, 1),
        cell(0, 1, 0),
        cell(1, 0, 0),
        cell(0, 0, -1),
        cell(-1, 0, 0),
    ];
    for (i, corner) in corners.iter().enumerate() {
        assert_eq!(hash.put(*corner, i as u8), None);
    }
    assert_eq!(hash.len(), corners.len());
    for (i, corner) in corners.iter().enumerate() {
        assert_eq!(hash.get(corner), Some(&(i as u8)));
    }
    assert_eq!(SpatialResolution::default().get(), 1);
}

#[test]
fn the_nearest_cell_is_the_first_in_search_order() {
    let mut hash = FxSpatialHash::<char>::new(SpatialResolution::new(1));
    hash.put(cell(0, 0, 0), 'o');
    assert_eq!(hash.nearest_cell(cell(0, 0, 0), 2, 2, 2), Err(()));
    hash.put(cell(1, -1, 0), 'a');
    hash.put(cell(0, 1, -1), 'b');
    hash.put(cell(0, 1, 1), 'c');
    hash.put(cell(5, 0, 0), 'd');
    assert_eq!(hash.nearest_cell(cell(0, 0, 0), 2, 2, 2), Ok((cell(0, 1, -1), &'b')));
    hash.put(cell(-2, 2, 2), 'e');
    assert_eq!(hash.nearest_cell(cell(0, 0, 0), 2, 2, 2), Ok((cell(-2, 2, 2), &'e')));
    assert_eq!(hash.nearest_cell(cell(0, 0, 0), 1, 1, 1), Ok((cell(0, 1, -1), &'b')));
    assert_eq!(hash.nearest_cell(cell(0, 0, 0), 0, 0, 0), Err(()));
    assert_eq!(hash.nearest_cell(cell(0, 0, 0), 1, 0, 1), Err(()));
    assert_eq!(hash.nearest_cell(cell(4, 0, 0), 1, 0, 0), Ok((cell(5, 0, 0), &'d')));
    let (found, element) = hash.nearest_cell_mut(cell(0, 0, 0), 1, 1, 1).unwrap();
    assert_eq!(found, cell(0, 1, -1));
    *element = 'B';
    assert_eq!(hash.get(&cell(0, 1, -1)), Some(&'B'));
    assert!(hash.nearest_cell_mut(cell(100, 100, 100), 3, 3, 3).is_err());
}

#[test]
fn the_nearest_cells_come_in_search_order() {
    let mut hash = FxSpatialHash::<u8>::new(SpatialResolution::new(1));
    hash.put(cell(0, 0, 0), 0);
    hash.put(cell(1, 1, 1), 1);
    hash.put(cell(-1, 0, 0), 2);
    hash.put(cell(0, 0, 1), 3);
    hash.put(cell(0, -1, 1), 4);
    hash.put(cell(3, 0, 0), 5);

    let mut out = vec![cell(9, 9, 9)];
    assert_eq!(hash.nearest_cells(cell(0, 0, 0), 2, 1, 1, 1, &mut out), Ok(()));
    assert_eq!(out, vec![cell(9, 9, 9), cell(-1, 0, 0), cell(0, -1, 1)]);

    let mut out = Vec::new();
    assert_eq!(hash.nearest_cells(cell(0, 0, 0), 4, 1, 1, 1, &mut out), Ok(()));
    assert_eq!(out, vec![cell(-1, 0, 0), cell(0, -1, 1), cell(0, 0, 1), cell(1, 1, 1)]);

    let mut out = Vec::new();
    assert_eq!(hash.nearest_cells(cell(0, 0, 0), 6, 1, 1, 1, &mut out), Err(2));
    assert_eq!(out.len(), 4);

    let mut out = Vec::new();
    assert_eq!(hash.nearest_cells(cell(0, 0, 0), 6, 3, 1, 1, &mut out), Err(1));
    assert_eq!(out.last(), Some(&cell(3, 0, 0)));

    let mut out = Vec::new();
    assert_eq!(hash.nearest_cells(cell(50, 0, 0), 1, 2, 2, 2, &mut out), Err(1));
    assert!(out.is_empty());
}

#[test]
fn elements_are_dumped_into_their_cells() {
    let mut hash = FxSpatialHash::<u8>::new(SpatialResolution::new(1));
    let cells = [cell(0, 0, 0), cell(1, 0, 0), cell(0, 0, 0), cell(2, 0, 0)];
    hash.dump_soa(&cells, &[1, 2, 3]);
    assert_eq!(hash.len(), 2);
    assert_eq!(hash.get(&cell(0, 0, 0)), Some(&3));
    assert_eq!(hash.get(&cell(1, 0, 0)), Some(&2));
    assert_eq!(hash.get(&cell(2, 0, 0)), None);
}

#[test]
fn pairs_are_dumped_into_their_cells() {
    let mut hash = FxSpatialHash::<u8>::default();
    assert_eq!(hash.resolution().get(), 1);
    hash.dump_aos(&[(cell(0, 0, 0), 1), (cell(0, 1, 0), 2), (cell(0, 0, 0), 3)]);
    assert_eq!(hash.len(), 2);
    assert_eq!(hash.get(&cell(0, 0, 0)), Some(&3));
    assert_eq!(hash.get(&cell(0, 1, 0)), Some(&2));
}
