//! A spatial hash: what lies in which cell of a grid over space.

use std::collections::HashMap;

use rustc_hash::FxBuildHasher;
use vstd::arithmetic::div_mod::lemma_fundamental_div_mod_converse;
use vstd::prelude::*;

verus! {

/// A cell of the grid.
#[derive(Clone, Copy, Debug, PartialEq, Eq, PartialOrd, Ord, Hash, Structural)]
pub struct Cell {
    pub x: i32,
    pub y: i32,
    pub z: i32,
}

impl Default for Cell {
    fn default() -> (cell: Self)
        ensures
            cell == (Cell { x: 0, y: 0, z: 0 }),
    {
        Cell { x: 0, y: 0, z: 0 }
    }
}

/// The number of cells in a unit of space, along each axis.
#[derive(Clone, Copy, Debug, PartialEq, Eq, PartialOrd, Ord, Hash, Structural)]
pub struct SpatialResolution(u32);

impl Default for SpatialResolution {
    fn default() -> (resolution: Self)
        ensures
            resolution.cells_per_unit() == DEFAULT_RESOLUTION,
    {
        Self(DEFAULT_RESOLUTION)
    }
}

/// The resolution of a grid that says nothing else: one cell for each unit
/// of space.
pub const DEFAULT_RESOLUTION: u32 = 1;

impl SpatialResolution {
    /// The number of cells in a unit of space.
    pub closed spec fn cells_per_unit(&self) -> u32 {
        self.0
    }

    /// A resolution of `resolution` cells in a unit of space, one at
    /// least.
    pub fn new(resolution: u32) -> (made: Self)
        requires
            resolution > 0,
        ensures
            made.cells_per_unit() == resolution,
    {
        Self(resolution)
    }

    /// The number of cells in a unit of space.
    pub fn get(&self) -> (resolution: u32)
        ensures
            resolution == self.cells_per_unit(),
    {
        self.0
    }
}

/// `rustc_hash::FxBuildHasher`, the hash builder of the map. Every hasher
/// that it builds starts from the same fixed state.
#[verifier::external_type_specification]
#[verifier::external_body]
pub struct ExFxBuildHasher(FxBuildHasher);

/// The key of a cell in the map: its three coordinates, each moved into
/// the range of 32 bits without sign, as the digits of one number.
pub open spec fn key_of(cell: Cell) -> u128 {
    ((cell.x + 0x8000_0000) * 0x1_0000_0000_0000_0000 + (cell.y + 0x8000_0000) * 0x1_0000_0000 + (
    cell.z + 0x8000_0000)) as u128
}

/// The cell of a key.
pub open spec fn cell_of(key: u128) -> Cell {
    Cell {
        x: (key / 0x1_0000_0000_0000_0000 - 0x8000_0000) as i32,
        y: ((key % 0x1_0000_0000_0000_0000) / 0x1_0000_0000 - 0x8000_0000) as i32,
        z: (key % 0x1_0000_0000 - 0x8000_0000) as i32,
    }
}

/// Every cell is found again from its key: no two cells share a key.
pub proof fn lemma_key_of(cell: Cell)
    ensures
        cell_of(key_of(cell)) == cell,
        key_of(cell) < 0x1_0000_0000_0000_0000_0000_0000,
{
    let ux = cell.x + 0x8000_0000;
    let uy = cell.y + 0x8000_0000;
    let uz = cell.z + 0x8000_0000;
    let key = key_of(cell) as int;
    let low = uy * 0x1_0000_0000 + uz;
    assert(key == ux * 0x1_0000_0000_0000_0000 + low);
    lemma_fundamental_div_mod_converse(key, 0x1_0000_0000_0000_0000, ux, low);
    lemma_fundamental_div_mod_converse(low, 0x1_0000_0000, uy, uz);
    assert(key == (ux * 0x1_0000_0000 + uy) * 0x1_0000_0000 + uz);
    lemma_fundamental_div_mod_converse(key, 0x1_0000_0000, ux * 0x1_0000_0000 + uy, uz);
}

/// The key of `cell`.
fn pack(cell: Cell) -> (key: u128)
    ensures
        key == key_of(cell),
{
    let ux = (cell.x as i64 + 0x8000_0000) as u128;
    let uy = (cell.y as i64 + 0x8000_0000) as u128;
    let uz = (cell.z as i64 + 0x8000_0000) as u128;
    ux * 0x1_0000_0000_0000_0000 + uy * 0x1_0000_0000 + uz
}

/// `std::collections::HashMap::with_capacity_and_hasher`, called with
/// `rustc_hash::FxBuildHasher::default()`: the map that is made holds no
/// key, whatever the capacity.
#[verifier::external_body]
fn fx_with_capacity<T>(capacity: usize) -> (made: HashMap<u128, T, FxBuildHasher>)
    ensures
        made@.dom() == Set::<u128>::empty(),
{
    HashMap::with_capacity_and_hasher(capacity, FxBuildHasher::default())
}

/// `std::collections::HashMap::insert`, on a map whose hash builder is
/// `rustc_hash::FxBuildHasher`: the key holds the value afterwards, every
/// other key holds what it held, and the value that the key held before, if
/// any, is returned.
#[verifier::external_body]
fn fx_insert<T>(map: &mut HashMap<u128, T, FxBuildHasher>, key: u128, value: T) -> (previous: Option<
    T,
>)
    ensures
        final(map)@ == old(map)@.insert(key, value),
        previous == (if old(map)@.contains_key(key) {
            Some(old(map)@[key])
        } else {
            None
        }),
{
    map.insert(key, value)
}

/// `std::collections::HashMap::remove`, on a map whose hash builder is
/// `rustc_hash::FxBuildHasher`: the key holds nothing afterwards, every
/// other key holds what it held, and the value that the key held before, if
/// any, is returned.
#[verifier::external_body]
fn fx_remove<T>(map: &mut HashMap<u128, T, FxBuildHasher>, key: u128) -> (previous: Option<T>)
    ensures
        final(map)@ == old(map)@.remove(key),
        previous == (if old(map)@.contains_key(key) {
            Some(old(map)@[key])
        } else {
            None
        }),
{
    map.remove(&key)
}

/// `std::collections::HashMap::get`, on a map whose hash builder is
/// `rustc_hash::FxBuildHasher`: the value that the key holds, if any.
#[verifier::external_body]
fn fx_get<T>(map: &HashMap<u128, T, FxBuildHasher>, key: u128) -> (value: Option<&T>)
    ensures
        value == (if map@.contains_key(key) {
            Some(&map@[key])
        } else {
            None
        }),
{
    map.get(&key)
}

/// `std::collections::HashMap::get_mut`, on a map whose hash builder is
/// `rustc_hash::FxBuildHasher`: the value that the key holds, if any, for
/// writing. Nothing else in the map changes.
#[verifier::external_body]
fn fx_get_mut<T>(map: &mut HashMap<u128, T, FxBuildHasher>, key: u128) -> (value: Option<&mut T>)
    ensures
        value is Some <==> old(map)@.contains_key(key),
        value matches Some(held) ==> *held == old(map)@[key] && final(map)@ == old(map)@.insert(
            key,
            *final(held),
        ),
        value is None ==> final(map)@ == old(map)@,
{
    map.get_mut(&key)
}

/// `std::collections::HashMap::len`, on a map whose hash builder is
/// `rustc_hash::FxBuildHasher`: the number of keys that hold a value.
#[verifier::external_body]
fn fx_len<T>(map: &HashMap<u128, T, FxBuildHasher>) -> (count: usize)
    ensures
        count == map@.dom().len(),
{
    map.len()
}

/// `other` lies within the given ranges around `cell`, along each axis.
pub open spec fn in_range(cell: Cell, other: Cell, range_x: int, range_y: int, range_z: int) -> bool {
    &&& cell.x - range_x <= other.x <= cell.x + range_x
    &&& cell.y - range_y <= other.y <= cell.y + range_y
    &&& cell.z - range_z <= other.z <= cell.z + range_z
}

/// The point `(ax, ay, az)` comes before the point `(bx, by, bz)` in the
/// order in which a search walks the cells: by `x` first, then by `y`, then
/// by `z`, each from the low end to the high end.
pub open spec fn precedes(ax: int, ay: int, az: int, bx: int, by: int, bz: int) -> bool {
    ax < bx || (ax == bx && (ay < by || (ay == by && az < bz)))
}

/// The cell `a` is searched before the cell `b`.
pub open spec fn searched_before(a: Cell, b: Cell) -> bool {
    precedes(a.x as int, a.y as int, a.z as int, b.x as int, b.y as int, b.z as int)
}

/// A spatial hash: at most one element in each cell of a grid.
pub struct FxSpatialHash<T: Clone + Copy> {
    map: HashMap<u128, T, FxBuildHasher>,
    /// The number of cells in a unit of space, along each axis.
    pub resolution: SpatialResolution,
}

impl<T: Default + Clone + Copy> Default for FxSpatialHash<T> {
    /// An empty hash of the default resolution.
    fn default() -> (hash: Self)
        ensures
            hash.wf(),
            hash.cells() == Map::<Cell, T>::empty(),
            hash.grid().cells_per_unit() == DEFAULT_RESOLUTION,
    {
        Self::new(SpatialResolution::default())
    }
}

impl<T: Clone + Copy> FxSpatialHash<T> {
    /// The resolution of the grid.
    pub closed spec fn grid(&self) -> SpatialResolution {
        self.resolution
    }

    /// The elements by the key of their cell.
    pub closed spec fn keyed(&self) -> Map<u128, T> {
        self.map@
    }

    /// The elements by their cell.
    pub open spec fn cells(&self) -> Map<Cell, T> {
        Map::new(
            |cell: Cell| self.keyed().contains_key(key_of(cell)),
            |cell: Cell| self.keyed()[key_of(cell)],
        )
    }

    /// The invariant of the hash: every key is the key of a cell, and there
    /// are finitely many.
    pub open spec fn wf(&self) -> bool {
        &&& self.keyed().dom().finite()
        &&& forall|key: u128| #[trigger]
            self.keyed().contains_key(key) ==> key_of(cell_of(key)) == key
    }

    /// `other` is what a search around `cell` looks for: a populated cell
    /// within the ranges, other than `cell` itself.
    pub open spec fn candidate(
        &self,
        cell: Cell,
        other: Cell,
        range_x: int,
        range_y: int,
        range_z: int,
    ) -> bool {
        &&& in_range(cell, other, range_x, range_y, range_z)
        &&& other != cell
        &&& self.cells().contains_key(other)
    }

    /// There are as many populated cells as keys.
    pub proof fn lemma_population(&self)
        requires
            self.wf(),
        ensures
            self.cells().dom().finite(),
            self.cells().dom().len() == self.keyed().dom().len(),
    {
        let keys = self.keyed().dom();
        let cells = self.cells().dom();
        let back = |key: u128| cell_of(key);
        assert(keys.map(back) =~= cells) by {
            assert forall|cell: Cell| cells.contains(cell) implies keys.map(back).contains(
                cell,
            ) by {
                lemma_key_of(cell);
                assert(keys.contains(key_of(cell)));
                assert(back(key_of(cell)) == cell);
            }
            assert forall|cell: Cell| keys.map(back).contains(cell) implies cells.contains(
                cell,
            ) by {
                let key = choose|key: u128| keys.contains(key) && back(key) == cell;
                assert(self.keyed().contains_key(key));
                assert(key_of(cell_of(key)) == key);
            }
        }
        assert(vstd::relations::injective_on(back, keys)) by {
            assert forall|a: u128, b: u128|
                keys.contains(a) && keys.contains(b) && #[trigger] back(a) == #[trigger] back(
                    b,
                ) implies a == b by {
                assert(self.keyed().contains_key(a));
                assert(self.keyed().contains_key(b));
            }
        }
        vstd::set_lib::lemma_map_size(keys, cells, back);
    }

    /// An empty hash of the given resolution.
    pub fn new(resolution: SpatialResolution) -> (hash: Self)
        ensures
            hash.wf(),
            hash.cells() == Map::<Cell, T>::empty(),
            hash.grid() == resolution,
    {
        let hash = Self { resolution, map: fx_with_capacity(0) };
        proof {
            assert(hash.keyed() =~= Map::<u128, T>::empty());
            assert(hash.cells() =~= Map::<Cell, T>::empty());
        }
        hash
    }

    /// An empty hash of the given resolution, with room for `capacity`
    /// elements before it has to grow.
    pub fn with_capacity(resolution: SpatialResolution, capacity: usize) -> (hash: Self)
        ensures
            hash.wf(),
            hash.cells() == Map::<Cell, T>::empty(),
            hash.grid() == resolution,
    {
        let hash = Self { resolution, map: fx_with_capacity(capacity) };
        proof {
            assert(hash.keyed() =~= Map::<u128, T>::empty());
            assert(hash.cells() =~= Map::<Cell, T>::empty());
        }
        hash
    }

    /// Add an `element` to the spatial hash to a specific `cell`.
    ///
    /// # Returns
    /// The previous element present in `cell`, if any.
    pub fn put(&mut self, cell: Cell, element: T) -> (previous: Option<T>)
        requires
            old(self).wf(),
        ensures
            final(self).wf(),
            final(self).grid() == old(self).grid(),
            final(self).cells() == old(self).cells().insert(cell, element),
            previous == (if old(self).cells().contains_key(cell) {
                Some(old(self).cells()[cell])
            } else {
                None
            }),
    {
        let key = pack(cell);
        let previous = fx_insert(&mut self.map, key, element);
        proof {
            lemma_key_of(cell);
            assert(self.cells() =~= old(self).cells().insert(cell, element)) by {
                assert forall|other: Cell| other != cell implies key_of(other) != key by {
                    lemma_key_of(other);
                }
            }
        }
        previous
    }

    /// Removes the element placed in `cell`.
    ///
    /// # Returns
    /// The removed element in `cell`, if any.
    pub fn remove(&mut self, cell: &Cell) -> (previous: Option<T>)
        requires
            old(self).wf(),
        ensures
            final(self).wf(),
            final(self).grid() == old(self).grid(),
            final(self).cells() == old(self).cells().remove(*cell),
            previous == (if old(self).cells().contains_key(*cell) {
                Some(old(self).cells()[*cell])
            } else {
                None
            }),
    {
        let key = pack(*cell);
        let previous = fx_remove(&mut self.map, key);
        proof {
            lemma_key_of(*cell);
            assert(self.cells() =~= old(self).cells().remove(*cell)) by {
                assert forall|other: Cell| other != *cell implies key_of(other) != key by {
                    lemma_key_of(other);
                }
            }
        }
        previous
    }

    /// Get a reference to the element placed in `cell` if existing.
    pub fn get(&self, cell: &Cell) -> (element: Option<&T>)
        ensures
            element == (if self.cells().contains_key(*cell) {
                Some(&self.cells()[*cell])
            } else {
                None
            }),
    {
        fx_get(&self.map, pack(*cell))
    }

    /// Get an exclusive reference to the element placed in `cell` if
    /// existing. Nothing but that element changes.
    pub fn get_mut(&mut self, cell: &Cell) -> (element: Option<&mut T>)
        requires
            old(self).wf(),
        ensures
            element is Some <==> old(self).cells().contains_key(*cell),
            element matches Some(held) ==> *held == old(self).cells()[*cell]
                && final(self).cells() == old(self).cells().insert(*cell, *final(held)),
            element is None ==> final(self).cells() == old(self).cells(),
            final(self).grid() == old(self).grid(),
    {
        proof {
            assert forall|other: Cell| other != *cell implies key_of(other) != key_of(*cell) by {
                lemma_key_of(other);
                lemma_key_of(*cell);
            }
        }
        fx_get_mut(&mut self.map, pack(*cell))
    }

    /// Remove all elements.
    pub fn clear(&mut self)
        ensures
            final(self).wf(),
            final(self).grid() == old(self).grid(),
            final(self).cells() == Map::<Cell, T>::empty(),
    {
        self.map.clear();
        proof {
            assert(self.cells() =~= Map::<Cell, T>::empty());
        }
    }

    /// The resolution of the grid.
    pub fn resolution(&self) -> (resolution: SpatialResolution)
        ensures
            resolution == self.grid(),
    {
        self.resolution
    }

    /// Whether no cell is populated.
    pub fn is_empty(&self) -> (empty: bool)
        requires
            self.wf(),
        ensures
            empty == (self.cells().dom().len() == 0),
    {
        self.len() == 0
    }

    /// The number of populated cells.
    pub fn len(&self) -> (len: usize)
        requires
            self.wf(),
        ensures
            len == self.cells().dom().len(),
    {
        proof {
            self.lemma_population();
        }
        fx_len(&self.map)
    }

    /// A search around `cell` with the given ranges stays within the cells
    /// that there are: no coordinate leaves the 32 bits with sign.
    pub open spec fn searchable(cell: Cell, range_x: u32, range_y: u32, range_z: u32) -> bool {
        &&& i32::MIN <= cell.x - range_x && cell.x + range_x <= i32::MAX
        &&& i32::MIN <= cell.y - range_y && cell.y + range_y <= i32::MAX
        &&& i32::MIN <= cell.z - range_z && cell.z + range_z <= i32::MAX
    }

    /// Get the nearest populated cell from a `cell` and its contents within
    /// `max_range_*`.
    ///
    /// The cells are searched by `x` first, then by `y`, then by `z`, each
    /// from the low end of its range to the high end; `cell` itself is left
    /// out. The first populated cell that is met is the one returned.
    ///
    /// # Returns
    /// * [`Ok`] containing that cell and a reference to its contents.
    /// * [`Err`] if no cell in the ranges is populated, `cell` aside.
    pub fn nearest_cell(
        &self,
        cell: Cell,
        max_range_x: u32,
        max_range_y: u32,
        max_range_z: u32,
    ) -> (found: Result<(Cell, &T), ()>)
        requires
            Self::searchable(cell, max_range_x, max_range_y, max_range_z),
        ensures
            found matches Ok((other, element)) ==> {
                &&& self.candidate(
                    cell,
                    other,
                    max_range_x as int,
                    max_range_y as int,
                    max_range_z as int,
                )
                &&& *element == self.cells()[other]
                &&& forall|earlier: Cell|
                    self.candidate(
                        cell,
                        earlier,
                        max_range_x as int,
                        max_range_y as int,
                        max_range_z as int,
                    ) ==> !#[trigger] searched_before(earlier, other)
            },
            found is Err ==> forall|other: Cell|
                !#[trigger] self.candidate(
                    cell,
                    other,
                    max_range_x as int,
                    max_range_y as int,
                    max_range_z as int,
                ),
    {
        let ix = max_range_x as i64;
        let iy = max_range_y as i64;
        let iz = max_range_z as i64;
        let ghost rx = max_range_x as int;
        let ghost ry = max_range_y as int;
        let ghost rz = max_range_z as int;

        let mut x: i64 = -ix;
        while x <= ix
            invariant
                Self::searchable(cell, max_range_x, max_range_y, max_range_z),
                ix == max_range_x && iy == max_range_y && iz == max_range_z,
                rx == max_range_x && ry == max_range_y && rz == max_range_z,
                -ix <= x <= ix + 1,
                forall|other: Cell| #[trigger]
                    self.candidate(cell, other, rx, ry, rz) ==> other.x >= cell.x + x,
            decreases ix + 1 - x,
        {
            let mut y: i64 = -iy;
            while y <= iy
                invariant
                    Self::searchable(cell, max_range_x, max_range_y, max_range_z),
                    ix == max_range_x && iy == max_range_y && iz == max_range_z,
                rx == max_range_x && ry == max_range_y && rz == max_range_z,
                    -ix <= x <= ix,
                    -iy <= y <= iy + 1,
                    forall|other: Cell| #[trigger]
                        self.candidate(cell, other, rx, ry, rz) ==> !precedes(
                            other.x as int,
                            other.y as int,
                            0,
                            cell.x + x,
                            cell.y + y,
                            0,
                        ),
                decreases iy + 1 - y,
            {
                let mut z: i64 = -iz;
                while z <= iz
                    invariant
                        Self::searchable(cell, max_range_x, max_range_y, max_range_z),
                        ix == max_range_x && iy == max_range_y && iz == max_range_z,
                rx == max_range_x && ry == max_range_y && rz == max_range_z,
                        -ix <= x <= ix,
                        -iy <= y <= iy,
                        -iz <= z <= iz + 1,
                        forall|other: Cell| #[trigger]
                            self.candidate(cell, other, rx, ry, rz) ==> !precedes(
                                other.x as int,
                                other.y as int,
                                other.z as int,
                                cell.x + x,
                                cell.y + y,
                                cell.z + z,
                            ),
                    decreases iz + 1 - z,
                {
                    let other = Cell {
                        x: (cell.x as i64 + x) as i32,
                        y: (cell.y as i64 + y) as i32,
                        z: (cell.z as i64 + z) as i32,
                    };
                    if !(other.x == cell.x && other.y == cell.y && other.z == cell.z) {
                        if let Some(element) = fx_get(&self.map, pack(other)) {
                            return Ok((other, element));
                        }
                    }
                    z += 1;
                }
                y += 1;
            }
            x += 1;
        }

        Err(())
    }

    /// Get a specific amount `count` of populated cells nearest to `cell`
    /// within `max_range_*`.
    ///
    /// The cells are searched in the order of [`FxSpatialHash::nearest_cell`].
    /// The populated cells that are met are appended to `out` in that
    /// order, until there are `count` of them.
    ///
    /// # Returns
    /// * [`Ok`] if all `count` cells were found and written to `out`.
    /// * Otherwise, [`Err`] containing the remaining amount of cells that
    ///   could not be found.
    pub fn nearest_cells(
        &self,
        cell: Cell,
        count: u32,
        max_range_x: u32,
        max_range_y: u32,
        max_range_z: u32,
        out: &mut Vec<Cell>,
    ) -> (found: Result<(), u32>)
        requires
            count >= 1,
            Self::searchable(cell, max_range_x, max_range_y, max_range_z),
        ensures
            old(out)@.len() <= final(out)@.len() <= old(out)@.len() + count,
            final(out)@.subrange(0, old(out)@.len() as int) == old(out)@,
            forall|i: int|
                old(out)@.len() <= i < final(out)@.len() ==> self.candidate(
                    cell,
                    #[trigger] final(out)@[i],
                    max_range_x as int,
                    max_range_y as int,
                    max_range_z as int,
                ),
            forall|i: int, j: int|
                old(out)@.len() <= i < j < final(out)@.len() ==> searched_before(
                    #[trigger] final(out)@[i],
                    #[trigger] final(out)@[j],
                ),
            found is Ok ==> final(out)@.len() == old(out)@.len() + count,
            found matches Err(rem) ==> rem >= 1 && final(out)@.len() + rem == old(out)@.len()
                + count,
            forall|other: Cell| #[trigger]
                self.candidate(
                    cell,
                    other,
                    max_range_x as int,
                    max_range_y as int,
                    max_range_z as int,
                ) && (found is Err || searched_before(other, final(out)@.last())) ==> exists|
                i: int,
            |
                old(out)@.len() <= i < final(out)@.len() && final(out)@[i] == other,
    {
        let mut rem = count;

        let ix = max_range_x as i64;
        let iy = max_range_y as i64;
        let iz = max_range_z as i64;
        let ghost rx = max_range_x as int;
        let ghost ry = max_range_y as int;
        let ghost rz = max_range_z as int;
        let ghost start = out@.len() as int;

        let mut x: i64 = -ix;
        while x <= ix
            invariant
                Self::searchable(cell, max_range_x, max_range_y, max_range_z),
                ix == max_range_x && iy == max_range_y && iz == max_range_z,
                rx == max_range_x && ry == max_range_y && rz == max_range_z,
                -ix <= x <= ix + 1,
                start == old(out)@.len(),
                1 <= rem <= count,
                out@.len() + rem == start + count,
                out@.subrange(0, start) == old(out)@,
                forall|i: int|
                    start <= i < out@.len() ==> self.candidate(cell, #[trigger] out@[i], rx, ry, rz),
                forall|i: int, j: int|
                    start <= i < j < out@.len() ==> searched_before(
                        #[trigger] out@[i],
                        #[trigger] out@[j],
                    ),
                forall|i: int| start <= i < out@.len() ==> (#[trigger] out@[i]).x < cell.x + x,
                forall|other: Cell| #[trigger]
                    self.candidate(cell, other, rx, ry, rz) && other.x < cell.x + x ==> exists|
                        i: int,
                    |
                        start <= i < out@.len() && out@[i] == other,
            decreases ix + 1 - x,
        {
            let mut y: i64 = -iy;
            while y <= iy
                invariant
                    Self::searchable(cell, max_range_x, max_range_y, max_range_z),
                    ix == max_range_x && iy == max_range_y && iz == max_range_z,
                    rx == max_range_x && ry == max_range_y && rz == max_range_z,
                    -ix <= x <= ix,
                    -iy <= y <= iy + 1,
                    start == old(out)@.len(),
                    1 <= rem <= count,
                    out@.len() + rem == start + count,
                    out@.subrange(0, start) == old(out)@,
                    forall|i: int|
                        start <= i < out@.len() ==> self.candidate(
                            cell,
                            #[trigger] out@[i],
                            rx,
                            ry,
                            rz,
                        ),
                    forall|i: int, j: int|
                        start <= i < j < out@.len() ==> searched_before(
                            #[trigger] out@[i],
                            #[trigger] out@[j],
                        ),
                    forall|i: int|
                        start <= i < out@.len() ==> precedes(
                            (#[trigger] out@[i]).x as int,
                            out@[i].y as int,
                            0,
                            cell.x + x,
                            cell.y + y,
                            0,
                        ),
                    forall|other: Cell| #[trigger]
                        self.candidate(cell, other, rx, ry, rz) && precedes(
                            other.x as int,
                            other.y as int,
                            0,
                            cell.x + x,
                            cell.y + y,
                            0,
                        ) ==> exists|i: int| start <= i < out@.len() && out@[i] == other,
                decreases iy + 1 - y,
            {
                let mut z: i64 = -iz;
                while z <= iz
                    invariant
                        Self::searchable(cell, max_range_x, max_range_y, max_range_z),
                        ix == max_range_x && iy == max_range_y && iz == max_range_z,
                        rx == max_range_x && ry == max_range_y && rz == max_range_z,
                        -ix <= x <= ix,
                        -iy <= y <= iy,
                        -iz <= z <= iz + 1,
                        start == old(out)@.len(),
                        1 <= rem <= count,
                        out@.len() + rem == start + count,
                        out@.subrange(0, start) == old(out)@,
                        forall|i: int|
                            start <= i < out@.len() ==> self.candidate(
                                cell,
                                #[trigger] out@[i],
                                rx,
                                ry,
                                rz,
                            ),
                        forall|i: int, j: int|
                            start <= i < j < out@.len() ==> searched_before(
                                #[trigger] out@[i],
                                #[trigger] out@[j],
                            ),
                        forall|i: int|
                            start <= i < out@.len() ==> precedes(
                                (#[trigger] out@[i]).x as int,
                                out@[i].y as int,
                                out@[i].z as int,
                                cell.x + x,
                                cell.y + y,
                                cell.z + z,
                            ),
                        forall|other: Cell| #[trigger]
                            self.candidate(cell, other, rx, ry, rz) && precedes(
                                other.x as int,
                                other.y as int,
                                other.z as int,
                                cell.x + x,
                                cell.y + y,
                                cell.z + z,
                            ) ==> exists|i: int| start <= i < out@.len() && out@[i] == other,
                    decreases iz + 1 - z,
                {
                    let other = Cell {
                        x: (cell.x as i64 + x) as i32,
                        y: (cell.y as i64 + y) as i32,
                        z: (cell.z as i64 + z) as i32,
                    };
                    if !(other.x == cell.x && other.y == cell.y && other.z == cell.z) {
                        if fx_get(&self.map, pack(other)).is_some() {
                            let ghost before = out@;
                            out.push(other);
                            rem -= 1;
                            proof {
                                assert(out@.subrange(0, start) =~= before.subrange(0, start));
                                assert forall|earlier: Cell| #[trigger]
                                    self.candidate(cell, earlier, rx, ry, rz) && precedes(
                                        earlier.x as int,
                                        earlier.y as int,
                                        earlier.z as int,
                                        cell.x + x,
                                        cell.y + y,
                                        cell.z + z + 1,
                                    ) implies exists|i: int|
                                    start <= i < out@.len() && out@[i] == earlier by {
                                    if earlier == other {
                                        assert(out@[out@.len() - 1] == other);
                                    } else {
                                        let i = choose|i: int|
                                            start <= i < before.len() && before[i] == earlier;
                                        assert(out@[i] == earlier);
                                    }
                                }
                            }
                            if rem == 0 {
                                proof {
                                    assert(out@.last() == other);
                                }
                                return Ok(());
                            }
                        }
                    }
                    z += 1;
                }
                y += 1;
            }
            x += 1;
        }

        Err(rem)
    }

    /// Get the nearest populated cell from a `cell` and its contents
    /// within `max_range_*`, for writing. The search is that of
    /// [`FxSpatialHash::nearest_cell`]. Nothing but the element that is
    /// found changes.
    ///
    /// # Returns
    /// * [`Ok`] containing the nearest populated cell and an exclusive
    ///   reference to its contents.
    /// * [`Err`] if no cell in the ranges is populated, `cell` aside.
    pub fn nearest_cell_mut(
        &mut self,
        cell: Cell,
        max_range_x: u32,
        max_range_y: u32,
        max_range_z: u32,
    ) -> (found: Result<(Cell, &mut T), ()>)
        requires
            old(self).wf(),
            Self::searchable(cell, max_range_x, max_range_y, max_range_z),
        ensures
            final(self).grid() == old(self).grid(),
            found matches Ok((other, element)) ==> {
                &&& old(self).candidate(
                    cell,
                    other,
                    max_range_x as int,
                    max_range_y as int,
                    max_range_z as int,
                )
                &&& *element == old(self).cells()[other]
                &&& forall|earlier: Cell|
                    old(self).candidate(
                        cell,
                        earlier,
                        max_range_x as int,
                        max_range_y as int,
                        max_range_z as int,
                    ) ==> !#[trigger] searched_before(earlier, other)
                &&& final(self).cells() == old(self).cells().insert(other, *final(element))
            },
            found is Err ==> final(self).cells() == old(self).cells() && forall|other: Cell|
                !#[trigger] old(self).candidate(
                    cell,
                    other,
                    max_range_x as int,
                    max_range_y as int,
                    max_range_z as int,
                ),
    {
        let near = match self.nearest_cell(cell, max_range_x, max_range_y, max_range_z) {
            Ok((other, _)) => Some(other),
            Err(()) => None,
        };
        if let Some(other) = near {
            proof {
                assert forall|cell: Cell| cell != other implies key_of(cell) != key_of(other) by {
                    lemma_key_of(cell);
                    lemma_key_of(other);
                }
            }
            match fx_get_mut(&mut self.map, pack(other)) {
                Some(element) => Ok((other, element)),
                None => Err(()),
            }
        } else {
            Err(())
        }
    }

    /// Put each element of `data` into its cell. Where a cell occurs more
    /// than once, the last element stays.
    pub fn dump_aos(&mut self, data: &[(Cell, T)])
        requires
            old(self).wf(),
        ensures
            final(self).wf(),
            final(self).grid() == old(self).grid(),
            final(self).cells() == dumped_pairs(old(self).cells(), data@, data@.len() as int),
    {
        let mut i: usize = 0;
        while i < data.len()
            invariant
                0 <= i <= data@.len(),
                self.wf(),
                self.grid() == old(self).grid(),
                self.cells() == dumped_pairs(old(self).cells(), data@, i as int),
            decreases data@.len() - i,
        {
            let (cell, element) = data[i];
            self.put(cell, element);
            i += 1;
        }
    }

    /// Put each of `elements` into the cell at the same position among
    /// `cells`, as far as both reach. Where a cell occurs more than once,
    /// the last element stays.
    pub fn dump_soa(&mut self, cells: &[Cell], elements: &[T])
        requires
            old(self).wf(),
        ensures
            final(self).wf(),
            final(self).grid() == old(self).grid(),
            final(self).cells() == dumped(
                old(self).cells(),
                cells@,
                elements@,
                if cells@.len() <= elements@.len() {
                    cells@.len() as int
                } else {
                    elements@.len() as int
                },
            ),
    {
        let count = if cells.len() <= elements.len() {
            cells.len()
        } else {
            elements.len()
        };
        let mut i: usize = 0;
        while i < count
            invariant
                0 <= i <= count,
                count <= cells@.len(),
                count <= elements@.len(),
                self.wf(),
                self.grid() == old(self).grid(),
                self.cells() == dumped(old(self).cells(), cells@, elements@, i as int),
            decreases count - i,
        {
            self.put(cells[i], elements[i]);
            i += 1;
        }
    }
}

/// `map` after the first `count` of `data` were put into it, each element
/// into its cell, first to last.
pub open spec fn dumped_pairs<T>(map: Map<Cell, T>, data: Seq<(Cell, T)>, count: int) -> Map<Cell, T>
    decreases count,
{
    if count <= 0 {
        map
    } else {
        dumped_pairs(map, data, count - 1).insert(data[count - 1].0, data[count - 1].1)
    }
}

/// `map` after the first `count` of `elements` were put into the cells at
/// the same positions among `cells`, first to last.
pub open spec fn dumped<T>(map: Map<Cell, T>, cells: Seq<Cell>, elements: Seq<T>, count: int) -> Map<
    Cell,
    T,
>
    decreases count,
{
    if count <= 0 {
        map
    } else {
        dumped(map, cells, elements, count - 1).insert(cells[count - 1], elements[count - 1])
    }
}

} // verus!
