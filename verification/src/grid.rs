//! Integer coordinates, axis-aligned regions of cubes, and dense arrays over
//! such regions.

use vstd::arithmetic::div_mod::lemma_fundamental_div_mod;
use vstd::arithmetic::div_mod::lemma_fundamental_div_mod_converse;
use vstd::prelude::*;

verus! {

/// Coordinates of cubes in a grid.
pub type GridCoordinate = i32;

/// The largest magnitude of a coordinate that a [`Grid`] may touch. The limit
/// leaves room for neighbour and offset arithmetic around any grid.
pub const MAX_COORDINATE: GridCoordinate = 1073741824;

/// The largest number of cubes in a [`Grid`].
pub const MAX_VOLUME: usize = 2147483647;

/// The position of a cube, named by its most negative corner.
#[derive(Clone, Copy, Debug, PartialEq, Eq, Hash, Structural)]
pub struct GridPoint {
    pub x: GridCoordinate,
    pub y: GridCoordinate,
    pub z: GridCoordinate,
}

impl GridPoint {
    /// The point with the given coordinates.
    pub fn new(x: GridCoordinate, y: GridCoordinate, z: GridCoordinate) -> (p: GridPoint)
        ensures
            p == (GridPoint { x, y, z }),
    {
        GridPoint { x, y, z }
    }

    /// The point whose coordinates are all zero.
    pub fn origin() -> (p: GridPoint)
        ensures
            p == (GridPoint { x: 0, y: 0, z: 0 }),
    {
        GridPoint { x: 0, y: 0, z: 0 }
    }
}

/// Whether a lower corner and a size describe a region that a [`Grid`] can
/// stand for: at least one cube along each axis, all of it within
/// [`MAX_COORDINATE`] of the origin, and no more than [`MAX_VOLUME`] cubes.
pub open spec fn valid_bounds(lower: GridPoint, size: GridPoint) -> bool {
    &&& size.x >= 1 && size.y >= 1 && size.z >= 1
    &&& lower.x >= -1073741824 && lower.y >= -1073741824 && lower.z >= -1073741824
    &&& lower.x + size.x <= 1073741824
    &&& lower.y + size.y <= 1073741824
    &&& lower.z + size.z <= 1073741824
    &&& size.x * size.y * size.z <= 2147483647
}

/// An axis-aligned box of cubes: the cubes `p` with
/// `lower <= p < lower + size` along each axis.
#[derive(Clone, Copy, Debug, PartialEq, Eq, Hash, Structural)]
pub struct Grid {
    lower: GridPoint,
    size: GridPoint,
}

impl Grid {
    /// The most negative corner.
    pub closed spec fn lower(self) -> GridPoint {
        self.lower
    }

    /// The number of cubes along each axis.
    pub closed spec fn extent(self) -> GridPoint {
        self.size
    }

    /// The invariant of every grid that this module hands out.
    pub open spec fn wf(self) -> bool {
        valid_bounds(self.lower(), self.extent())
    }

    /// The number of cubes.
    pub open spec fn cubes(self) -> int {
        self.extent().x * self.extent().y * self.extent().z
    }

    /// Whether the cube at integer coordinates lies in the grid.
    pub open spec fn contains_at(self, x: int, y: int, z: int) -> bool {
        &&& self.lower().x <= x < self.lower().x + self.extent().x
        &&& self.lower().y <= y < self.lower().y + self.extent().y
        &&& self.lower().z <= z < self.lower().z + self.extent().z
    }

    /// Whether the cube lies in the grid.
    pub open spec fn contains(self, p: GridPoint) -> bool {
        self.contains_at(p.x as int, p.y as int, p.z as int)
    }

    /// The position of a cube in the row-major order of the grid, in which
    /// `z` runs fastest and `x` slowest.
    pub open spec fn index_at(self, x: int, y: int, z: int) -> int {
        ((x - self.lower().x) * self.extent().y + (y - self.lower().y)) * self.extent().z + (z
            - self.lower().z)
    }

    /// The position of a cube in the row-major order of the grid.
    pub open spec fn index_of(self, p: GridPoint) -> int {
        self.index_at(p.x as int, p.y as int, p.z as int)
    }

    /// The cube at a position in the row-major order of the grid.
    pub open spec fn point_at(self, i: int) -> GridPoint {
        GridPoint {
            x: (self.lower().x + i / (self.extent().z as int) / (self.extent().y as int)) as i32,
            y: (self.lower().y + (i / (self.extent().z as int)) % (self.extent().y as int)) as i32,
            z: (self.lower().z + i % (self.extent().z as int)) as i32,
        }
    }

    /// The grid of the voxels of one block: `resolution` cubes along each
    /// axis from the origin, and one cube where `resolution` is zero.
    pub closed spec fn block_grid(resolution: u8) -> Grid {
        let edge: i32 = if resolution == 0 {
            1
        } else {
            resolution as i32
        };
        Grid {
            lower: GridPoint { x: 0, y: 0, z: 0 },
            size: GridPoint { x: edge, y: edge, z: edge },
        }
    }

    /// The grid of the voxels of a block is a grid as this module hands
    /// them out.
    pub proof fn lemma_block_grid(self, resolution: u8)
        requires
            self == Grid::block_grid(resolution),
        ensures
            self.wf(),
            self.lower() == (GridPoint { x: 0, y: 0, z: 0 }),
            self.extent().x == (if resolution == 0 { 1 } else { resolution as int }),
            self.extent().y == self.extent().x,
            self.extent().z == self.extent().x,
    {
        let edge = self.size.x as int;
        assert(edge * edge * edge <= 255 * 255 * 255) by (nonlinear_arith)
            requires
                1 <= edge <= 255,
        ;
    }

    /// Every cube of a grid has a position below the number of cubes.
    pub proof fn lemma_index_in_range(self, x: int, y: int, z: int)
        requires
            self.wf(),
            self.contains_at(x, y, z),
        ensures
            0 <= self.index_at(x, y, z) < self.cubes(),
    {
        let dx = x - self.lower.x;
        let dy = y - self.lower.y;
        let dz = z - self.lower.z;
        let sx = self.size.x as int;
        let sy = self.size.y as int;
        let sz = self.size.z as int;
        assert(0 <= dx * sy + dy <= sx * sy - 1) by (nonlinear_arith)
            requires
                0 <= dx < sx,
                0 <= dy < sy,
        ;
        let row = dx * sy + dy;
        assert(0 <= row * sz + dz <= sx * sy * sz - 1) by (nonlinear_arith)
            requires
                0 <= row <= sx * sy - 1,
                0 <= dz < sz,
        ;
    }

    /// The position of a cube leads back to the cube.
    pub proof fn lemma_point_at_index(self, p: GridPoint)
        requires
            self.wf(),
            self.contains(p),
        ensures
            self.point_at(self.index_of(p)) == p,
    {
        let dx = p.x - self.lower.x;
        let dy = p.y - self.lower.y;
        let dz = p.z - self.lower.z;
        let sy = self.size.y as int;
        let sz = self.size.z as int;
        let row = dx * sy + dy;
        let i = self.index_of(p);
        lemma_fundamental_div_mod_converse(i, sz, row, dz);
        lemma_fundamental_div_mod_converse(row, sy, dx, dy);
    }

    /// Every position below the number of cubes is that of a cube of the
    /// grid, and of no other.
    pub proof fn lemma_index_of_point(self, i: int)
        requires
            self.wf(),
            0 <= i < self.cubes(),
        ensures
            self.contains(self.point_at(i)),
            self.index_of(self.point_at(i)) == i,
    {
        let sx = self.size.x as int;
        let sy = self.size.y as int;
        let sz = self.size.z as int;
        let row = i / sz;
        let dz = i % sz;
        let dx = row / sy;
        let dy = row % sy;
        lemma_fundamental_div_mod(i, sz);
        lemma_fundamental_div_mod(row, sy);
        assert(0 <= row < sx * sy) by (nonlinear_arith)
            requires
                0 <= i < sx * sy * sz,
                i == sz * row + dz,
                0 <= dz < sz,
                sz >= 1,
        ;
        assert(0 <= dx < sx) by (nonlinear_arith)
            requires
                0 <= row < sx * sy,
                row == sy * dx + dy,
                0 <= dy < sy,
                sy >= 1,
        ;
        assert(dx * sy == sy * dx) by (nonlinear_arith);
        assert(row * sz == sz * row) by (nonlinear_arith);
    }

    /// The grid with the given most negative corner and size, where
    /// [`valid_bounds`] holds of them.
    pub fn new(lower: GridPoint, size: GridPoint) -> (grid: Option<Grid>)
        ensures
            grid is Some <==> valid_bounds(lower, size),
            grid is Some ==> grid->0.wf() && grid->0.lower() == lower && grid->0.extent() == size,
    {
        if size.x < 1 || size.y < 1 || size.z < 1 {
            return None;
        }
        if lower.x < -MAX_COORDINATE || lower.y < -MAX_COORDINATE || lower.z < -MAX_COORDINATE {
            return None;
        }
        if lower.x as i64 + size.x as i64 > MAX_COORDINATE as i64 || lower.y as i64 + size.y as i64
            > MAX_COORDINATE as i64 || lower.z as i64 + size.z as i64 > MAX_COORDINATE as i64 {
            return None;
        }
        assert(1 <= size.x * size.y <= 0x8000_0000 * 0x8000_0000) by (nonlinear_arith)
            requires
                1 <= size.x <= 0x8000_0000,
                1 <= size.y <= 0x8000_0000,
        ;
        let layer: i64 = size.x as i64 * size.y as i64;
        if layer > MAX_VOLUME as i64 {
            assert(size.x * size.y * size.z > 2147483647) by (nonlinear_arith)
                requires
                    size.x * size.y > 2147483647,
                    size.z >= 1,
            ;
            return None;
        }
        assert(layer * size.z <= 0x8000_0000 * 0x8000_0000) by (nonlinear_arith)
            requires
                1 <= layer <= 0x8000_0000,
                1 <= size.z <= 0x8000_0000,
        ;
        if layer * size.z as i64 > MAX_VOLUME as i64 {
            return None;
        }
        Some(Grid { lower, size })
    }

    /// The grid of the voxels of one block: `resolution` cubes along each
    /// axis from the origin, and one cube where `resolution` is zero.
    pub fn for_block(resolution: u8) -> (grid: Grid)
        ensures
            grid == Grid::block_grid(resolution),
            grid.wf(),
            grid.lower() == (GridPoint { x: 0, y: 0, z: 0 }),
            grid.extent().x == (if resolution == 0 { 1 } else { resolution as int }),
            grid.extent().y == grid.extent().x,
            grid.extent().z == grid.extent().x,
    {
        let edge: i32 = if resolution == 0 { 1 } else { resolution as i32 };
        assert(edge * edge * edge <= 255 * 255 * 255) by (nonlinear_arith)
            requires
                1 <= edge <= 255,
        ;
        Grid { lower: GridPoint { x: 0, y: 0, z: 0 }, size: GridPoint { x: edge, y: edge, z: edge } }
    }

    /// The grid of the blocks that cover this grid where every block
    /// stands for `divisor` cubes along each axis: the lower bounds divided
    /// and rounded down, the upper bounds divided and rounded up.
    pub closed spec fn divided(self, divisor: int) -> Grid {
        let lower = GridPoint {
            x: ((self.lower.x as int) / divisor) as i32,
            y: ((self.lower.y as int) / divisor) as i32,
            z: ((self.lower.z as int) / divisor) as i32,
        };
        Grid {
            lower,
            size: GridPoint {
                x: ((self.lower.x + self.size.x + divisor - 1) / divisor - lower.x) as i32,
                y: ((self.lower.y + self.size.y + divisor - 1) / divisor - lower.y) as i32,
                z: ((self.lower.z + self.size.z + divisor - 1) / divisor - lower.z) as i32,
            },
        }
    }

    /// The grid of the blocks that cover this grid where every block
    /// stands for `divisor` cubes along each axis.
    pub fn divide(&self, divisor: u8) -> (grid: Grid)
        requires
            self.wf(),
            divisor >= 1,
        ensures
            grid == self.divided(divisor as int),
            grid.wf(),
            grid.lower().x == (self.lower().x as int) / (divisor as int),
            grid.lower().y == (self.lower().y as int) / (divisor as int),
            grid.lower().z == (self.lower().z as int) / (divisor as int),
            grid.lower().x + grid.extent().x == (self.lower().x + self.extent().x + divisor - 1) / (
            divisor as int),
            grid.lower().y + grid.extent().y == (self.lower().y + self.extent().y + divisor - 1) / (
            divisor as int),
            grid.lower().z + grid.extent().z == (self.lower().z + self.extent().z + divisor - 1) / (
            divisor as int),
            grid.extent().x <= self.extent().x,
            grid.extent().y <= self.extent().y,
            grid.extent().z <= self.extent().z,
    {
        let x = divide_range(self.lower.x, self.size.x, divisor);
        let y = divide_range(self.lower.y, self.size.y, divisor);
        let z = divide_range(self.lower.z, self.size.z, divisor);
        proof {
            let a = x.1 as int;
            let b = y.1 as int;
            let c = z.1 as int;
            let sx = self.size.x as int;
            let sy = self.size.y as int;
            let sz = self.size.z as int;
            assert(1 <= a * b <= sx * sy) by (nonlinear_arith)
                requires
                    1 <= a <= sx,
                    1 <= b <= sy,
            ;
            assert(a * b * c <= sx * sy * sz) by (nonlinear_arith)
                requires
                    1 <= a * b <= sx * sy,
                    1 <= c <= sz,
            ;
        }
        Grid {
            lower: GridPoint { x: x.0, y: y.0, z: z.0 },
            size: GridPoint { x: x.1, y: y.1, z: z.1 },
        }
    }

    /// The most negative corner.
    pub fn lower_bounds(&self) -> (p: GridPoint)
        ensures
            p == self.lower(),
    {
        self.lower
    }

    /// The number of cubes along each axis.
    pub fn size(&self) -> (s: GridPoint)
        ensures
            s == self.extent(),
    {
        self.size
    }

    /// The corner opposite to the most negative one: the least point that is
    /// greater than every cube of the grid along each axis.
    pub fn upper_bounds(&self) -> (p: GridPoint)
        requires
            self.wf(),
        ensures
            p.x == self.lower().x + self.extent().x,
            p.y == self.lower().y + self.extent().y,
            p.z == self.lower().z + self.extent().z,
    {
        GridPoint {
            x: self.lower.x + self.size.x,
            y: self.lower.y + self.size.y,
            z: self.lower.z + self.size.z,
        }
    }

    /// The number of cubes.
    pub fn volume(&self) -> (v: usize)
        requires
            self.wf(),
        ensures
            v == self.cubes(),
            1 <= v <= MAX_VOLUME,
    {
        proof {
            let sx = self.size.x as int;
            let sy = self.size.y as int;
            let sz = self.size.z as int;
            assert(1 <= sx * sy <= sx * sy * sz) by (nonlinear_arith)
                requires
                    sx >= 1,
                    sy >= 1,
                    sz >= 1,
            ;
        }
        let layer: i64 = self.size.x as i64 * self.size.y as i64;
        (layer * self.size.z as i64) as usize
    }

    /// Whether the cube lies in the grid.
    pub fn contains_cube(&self, p: GridPoint) -> (c: bool)
        requires
            self.wf(),
        ensures
            c == self.contains(p),
    {
        self.lower.x <= p.x && p.x < self.lower.x + self.size.x && self.lower.y <= p.y && p.y
            < self.lower.y + self.size.y && self.lower.z <= p.z && p.z < self.lower.z + self.size.z
    }

    /// The position of a cube in the row-major order of the grid, if the
    /// grid has that cube.
    pub fn index(&self, p: GridPoint) -> (i: Option<usize>)
        requires
            self.wf(),
        ensures
            i is Some <==> self.contains(p),
            i is Some ==> i->0 == self.index_of(p) && i->0 < self.cubes(),
    {
        if !self.contains_cube(p) {
            return None;
        }
        let dx: i64 = p.x as i64 - self.lower.x as i64;
        let dy: i64 = p.y as i64 - self.lower.y as i64;
        let dz: i64 = p.z as i64 - self.lower.z as i64;
        proof {
            self.lemma_index_in_range(p.x as int, p.y as int, p.z as int);
            let sx = self.size.x as int;
            let sy = self.size.y as int;
            let sz = self.size.z as int;
            assert(0 <= dx * sy + dy <= sx * sy - 1 && 0 <= dx * sy <= sx * sy - 1) by (nonlinear_arith)
                requires
                    0 <= dx < sx,
                    0 <= dy < sy,
            ;
            let row = dx * sy + dy;
            assert(0 <= row * sz <= sx * sy * sz - 1 && sx * sy <= sx * sy * sz) by (nonlinear_arith)
                requires
                    0 <= row <= sx * sy - 1,
                    sz >= 1,
            ;
        }
        let row: i64 = dx * self.size.y as i64 + dy;
        Some((row * self.size.z as i64 + dz) as usize)
    }

    /// The cube at a position in the row-major order of the grid.
    pub fn cube_at(&self, i: usize) -> (p: GridPoint)
        requires
            self.wf(),
            i < self.cubes(),
        ensures
            p == self.point_at(i as int),
            self.contains(p),
            self.index_of(p) == i,
    {
        proof {
            self.lemma_index_of_point(i as int);
        }
        let sy: i64 = self.size.y as i64;
        let sz: i64 = self.size.z as i64;
        let row: i64 = i as i64 / sz;
        let dz: i64 = i as i64 % sz;
        let dx: i64 = row / sy;
        let dy: i64 = row % sy;
        GridPoint {
            x: (self.lower.x as i64 + dx) as i32,
            y: (self.lower.y as i64 + dy) as i32,
            z: (self.lower.z as i64 + dz) as i32,
        }
    }
}

/// A range of cubes along one axis, divided into blocks of `divisor` cubes:
/// the first block and the number of blocks that the range touches.
fn divide_range(lower: i32, extent: i32, divisor: u8) -> (blocks: (i32, i32))
    requires
        -1073741824 <= lower,
        extent >= 1,
        lower + extent <= 1073741824,
        divisor >= 1,
    ensures
        blocks.0 == (lower as int) / (divisor as int),
        blocks.0 + blocks.1 == (lower + extent + divisor - 1) / (divisor as int),
        -1073741824 <= blocks.0,
        blocks.0 + blocks.1 <= 1073741824,
        1 <= blocks.1 <= extent,
{
    let d: i64 = divisor as i64;
    let shift: i64 = 1073741824;
    let upper: i64 = lower as i64 + extent as i64 + d - 1;
    assert(shift * d <= 1073741824 * 255 && shift * d >= 1073741824) by (nonlinear_arith)
        requires
            shift == 1073741824,
            1 <= d <= 255,
    ;
    let first: i64 = (lower as i64 + shift * d) / d - shift;
    let end: i64 = (upper + shift * d) / d - shift;
    proof {
        let l = lower as int;
        let u = upper as int;
        let di = d as int;
        let q = l / di;
        let m = l % di;
        let qu = u / di;
        let mu = u % di;
        lemma_fundamental_div_mod(l, di);
        lemma_fundamental_div_mod(u, di);
        assert((q + 1073741824) * di + m == l + 1073741824 * di) by (nonlinear_arith)
            requires
                l == di * q + m,
        ;
        lemma_fundamental_div_mod_converse(l + 1073741824 * di, di, q + 1073741824, m);
        assert((qu + 1073741824) * di + mu == u + 1073741824 * di) by (nonlinear_arith)
            requires
                u == di * qu + mu,
        ;
        lemma_fundamental_div_mod_converse(u + 1073741824 * di, di, qu + 1073741824, mu);
        assert(first == q);
        assert(end == qu);
        assert(q >= -1073741824) by (nonlinear_arith)
            requires
                l == di * q + m,
                0 <= m < di,
                l >= -1073741824,
                di >= 1,
        ;
        assert(qu <= 1073741824) by (nonlinear_arith)
            requires
                u == di * qu + mu,
                0 <= mu < di,
                u <= 1073741824 + di - 1,
                di >= 1,
        ;
        let k = qu - q;
        let e = extent as int;
        assert(k * di == e + m - mu + di - 1) by (nonlinear_arith)
            requires
                k == qu - q,
                l == di * q + m,
                u == di * qu + mu,
                u == l + e + di - 1,
        ;
        assert(k >= 1) by (nonlinear_arith)
            requires
                k * di == e + m - mu + di - 1,
                0 <= m < di,
                0 <= mu < di,
                e >= 1,
                di >= 1,
        ;
        assert(k <= e) by (nonlinear_arith)
            requires
                k * di == e + m - mu + di - 1,
                0 <= m < di,
                0 <= mu < di,
                e >= 1,
                di >= 1,
        ;
    }
    (first as i32, (end - first) as i32)
}

/// What a [`GridArray`] holds: its grid, and one value for each cube in the
/// row-major order of the grid.
pub struct GridArrayView<V> {
    pub grid: Grid,
    pub contents: Seq<V>,
}

impl<V> GridArrayView<V> {
    /// The value at a cube of the grid.
    pub open spec fn at(self, p: GridPoint) -> V {
        self.contents[self.grid.index_of(p)]
    }
}

/// A dense array of values, one for each cube of a grid.
#[derive(Debug, PartialEq, Eq)]
pub struct GridArray<V> {
    grid: Grid,
    contents: Vec<V>,
}

impl<V> View for GridArray<V> {
    type V = GridArrayView<V>;

    closed spec fn view(&self) -> GridArrayView<V> {
        GridArrayView { grid: self.grid, contents: self.contents@ }
    }
}

impl<V: Copy> Clone for GridArray<V> {
    fn clone(&self) -> (copy: Self)
        ensures
            copy@ == self@,
    {
        let mut contents: Vec<V> = Vec::new();
        let mut i: usize = 0;
        while i < self.contents.len()
            invariant
                i <= self.contents.len(),
                contents@ == self.contents@.subrange(0, i as int),
            decreases self.contents.len() - i,
        {
            contents.push(self.contents[i]);
            assert(contents@ =~= self.contents@.subrange(0, i + 1));
            i += 1;
        }
        assert(contents@ =~= self.contents@);
        GridArray { grid: self.grid, contents }
    }
}

impl<V> GridArray<V> {
    /// The invariant of every array that this module hands out: one value
    /// for each cube of a well-formed grid.
    pub open spec fn wf(&self) -> bool {
        &&& self@.grid.wf()
        &&& self@.contents.len() == self@.grid.cubes()
    }

    /// The array over `grid` with the given values, which must be one for
    /// each cube in row-major order.
    pub fn from_elements(grid: Grid, contents: Vec<V>) -> (array: Option<GridArray<V>>)
        requires
            grid.wf(),
        ensures
            array is Some <==> contents@.len() == grid.cubes(),
            array is Some ==> array->0.wf() && array->0@.grid == grid && array->0@.contents
                == contents@,
    {
        if contents.len() != grid.volume() {
            return None;
        }
        Some(GridArray { grid, contents })
    }

    /// The grid that the array covers.
    pub fn grid(&self) -> (grid: Grid)
        ensures
            grid == self@.grid,
    {
        self.grid
    }

    /// The values, one for each cube in row-major order.
    pub fn elements(&self) -> (contents: &Vec<V>)
        ensures
            contents@ == self@.contents,
    {
        &self.contents
    }

    /// The value at a cube, if the grid has that cube.
    pub fn get(&self, p: GridPoint) -> (value: Option<&V>)
        requires
            self.wf(),
        ensures
            value is Some <==> self@.grid.contains(p),
            value is Some ==> *value->0 == self@.at(p),
    {
        match self.grid.index(p) {
            Some(i) => Some(&self.contents[i]),
            None => None,
        }
    }
}

} // verus!
