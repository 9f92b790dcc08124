use vstd::prelude::*;
use crate::chunk::{WIDTH, LENGTH, HEIGHT};
use vstd::arithmetic::div_mod::lemma_mod_multiples_vanish;

verus! {

/// Fixed-point sub-units in one block along any axis.
pub const UNITS_PER_BLOCK: i64 = 65536;

/// Fixed-point sub-units along one horizontal side of a chunk (width and length are equal).
pub const UNITS_PER_CHUNK: i64 = 1048576;

/// Index of a chunk in the horizontal grid of chunks.
#[derive(Clone, Copy, Debug, PartialEq, Eq, Structural, Hash)]
pub struct ChunkPos {
    pub x: i32,
    pub z: i32,
}

impl ChunkPos {
    pub fn new(x: i32, z: i32) -> (r: Self)
        ensures
            r.x == x,
            r.z == z,
    {
        Self { x, z }
    }

    /// World block coordinates of the chunk's (0, 0) column.
    pub fn to_block_xz_pos(&self) -> (r: (i64, i64))
        ensures
            r.0 == self.x * 16,
            r.1 == self.z * 16,
    {
        (self.x as i64 * WIDTH as i64, self.z as i64 * LENGTH as i64)
    }

    /// Component-wise sum.
    pub fn add(&self, rhs: &ChunkPos) -> (r: ChunkPos)
        requires
            i32::MIN <= self.x + rhs.x <= i32::MAX,
            i32::MIN <= self.z + rhs.z <= i32::MAX,
        ensures
            r.x == self.x + rhs.x,
            r.z == self.z + rhs.z,
    {
        ChunkPos::new(self.x + rhs.x, self.z + rhs.z)
    }

    /// Component-wise difference.
    pub fn sub(&self, rhs: &ChunkPos) -> (r: ChunkPos)
        requires
            i32::MIN <= self.x - rhs.x <= i32::MAX,
            i32::MIN <= self.z - rhs.z <= i32::MAX,
        ensures
            r.x == self.x - rhs.x,
            r.z == self.z - rhs.z,
    {
        ChunkPos::new(self.x - rhs.x, self.z - rhs.z)
    }
}

/// Position of a block in the world, at block granularity.
#[derive(Clone, Copy, Debug, PartialEq, Eq, Structural)]
pub struct BlockPos {
    pub x: i64,
    pub y: i64,
    pub z: i64,
}

/// The chunk index that owns world block column `b` (floor division by the chunk side).
pub open spec fn chunk_of_block(b: int) -> int {
    b / 16
}

/// The offset of world block column `b` inside its chunk.
pub open spec fn local_of_block(b: int) -> int {
    b % 16
}

/// Whether the chunk index that owns block column `b` fits the chunk grid.
pub open spec fn block_axis_in_grid(b: int) -> bool {
    i32::MIN <= chunk_of_block(b) <= i32::MAX
}

impl BlockPos {
    pub fn new(x: i64, y: i64, z: i64) -> (r: Self)
        ensures
            r.x == x,
            r.y == y,
            r.z == z,
    {
        Self { x, y, z }
    }

    pub open spec fn in_grid(self) -> bool {
        block_axis_in_grid(self.x as int) && block_axis_in_grid(self.z as int)
    }

    /// The chunk that owns this block.
    pub open spec fn spec_chunk_pos(self) -> ChunkPos {
        ChunkPos { x: chunk_of_block(self.x as int) as i32, z: chunk_of_block(self.z as int) as i32 }
    }

    /// The block's position inside its chunk, as integers.
    pub open spec fn local_x(self) -> int {
        local_of_block(self.x as int)
    }

    pub open spec fn local_z(self) -> int {
        local_of_block(self.z as int)
    }

    pub fn to_chunk_pos(&self) -> (r: ChunkPos)
        requires
            self.in_grid(),
        ensures
            r == self.spec_chunk_pos(),
    {
        let x = self.x.checked_div_euclid(WIDTH as i64).unwrap();
        let z = self.z.checked_div_euclid(LENGTH as i64).unwrap();
        ChunkPos::new(x as i32, z as i32)
    }
}

/// Position of a block inside its chunk.
#[derive(Clone, Copy, Debug, PartialEq, Eq, Structural)]
pub struct LocalBlockPos {
    pub x: usize,
    pub y: usize,
    pub z: usize,
}

impl LocalBlockPos {
    pub fn new(x: usize, y: usize, z: usize) -> (r: Self)
        ensures
            r.x == x,
            r.y == y,
            r.z == z,
    {
        Self { x, y, z }
    }

    /// Whether the position lies inside a chunk.
    pub open spec fn in_bounds(self) -> bool {
        self.x < WIDTH && self.y < HEIGHT && self.z < LENGTH
    }
}

} // verus!

verus! {

/// Whether world coordinate `w` (in sub-units) lies in a chunk whose index fits the grid.
pub open spec fn world_axis_in_grid(w: int) -> bool {
    i32::MIN <= w / 1048576 <= i32::MAX
}

/// A position in the world, split into an integer chunk index and a small local offset on the
/// horizontal axes, so that precision does not degrade far from the origin.
///
/// All quantities are fixed point: one block is `UNITS_PER_BLOCK` sub-units.
pub struct Coord {
    chunk_x: i32,
    chunk_z: i32,
    frac_x: i64,
    frac_z: i64,
    y: i64,
}

impl Coord {
    pub closed spec fn chunk_x_v(self) -> int {
        self.chunk_x as int
    }

    pub closed spec fn chunk_z_v(self) -> int {
        self.chunk_z as int
    }

    /// Offset inside the chunk along x, in sub-units.
    pub closed spec fn local_x_v(self) -> int {
        self.frac_x as int
    }

    /// Offset inside the chunk along z, in sub-units.
    pub closed spec fn local_z_v(self) -> int {
        self.frac_z as int
    }

    /// Height in sub-units.
    pub closed spec fn y_v(self) -> int {
        self.y as int
    }

    /// The local offsets stay inside the chunk.
    pub open spec fn wf(self) -> bool {
        &&& 0 <= self.local_x_v() < 1048576
        &&& 0 <= self.local_z_v() < 1048576
        &&& i32::MIN <= self.chunk_x_v() <= i32::MAX
        &&& i32::MIN <= self.chunk_z_v() <= i32::MAX
        &&& i64::MIN <= self.y_v() <= i64::MAX
    }

    /// World x in sub-units.
    pub open spec fn world_x_v(self) -> int {
        self.chunk_x_v() * 1048576 + self.local_x_v()
    }

    /// World z in sub-units.
    pub open spec fn world_z_v(self) -> int {
        self.chunk_z_v() * 1048576 + self.local_z_v()
    }

    /// Builds a position from world coordinates in sub-units.
    pub fn new(x: i64, y: i64, z: i64) -> (r: Self)
        requires
            world_axis_in_grid(x as int),
            world_axis_in_grid(z as int),
        ensures
            r.wf(),
            r.chunk_x_v() == x / 1048576,
            r.chunk_z_v() == z / 1048576,
            r.local_x_v() == x % 1048576,
            r.local_z_v() == z % 1048576,
            r.world_x_v() == x,
            r.world_z_v() == z,
            r.y_v() == y,
    {
        let chunk_x = x.checked_div_euclid(UNITS_PER_CHUNK).unwrap();
        let chunk_z = z.checked_div_euclid(UNITS_PER_CHUNK).unwrap();
        let frac_x = x.checked_rem_euclid(UNITS_PER_CHUNK).unwrap();
        let frac_z = z.checked_rem_euclid(UNITS_PER_CHUNK).unwrap();
        Self { chunk_x: chunk_x as i32, chunk_z: chunk_z as i32, frac_x, frac_z, y }
    }

    /// World block x (floor of the world x).
    pub fn get_block_x(&self) -> (r: i64)
        requires
            self.wf(),
        ensures
            r == self.world_x_v() / 65536,
    {
        self.chunk_x as i64 * WIDTH as i64 + self.frac_x / UNITS_PER_BLOCK
    }

    /// World block y (floor of the height).
    pub fn get_block_y(&self) -> (r: i64)
        requires
            self.wf(),
        ensures
            r == self.y_v() / 65536,
    {
        self.y.checked_div_euclid(UNITS_PER_BLOCK).unwrap()
    }

    /// World block z (floor of the world z).
    pub fn get_block_z(&self) -> (r: i64)
        requires
            self.wf(),
        ensures
            r == self.world_z_v() / 65536,
    {
        self.chunk_z as i64 * LENGTH as i64 + self.frac_z / UNITS_PER_BLOCK
    }

    /// Position inside the current block along x, in sub-units.
    pub fn get_frac_x(&self) -> (r: i64)
        requires
            self.wf(),
        ensures
            r == self.world_x_v() % 65536,
    {
        proof {
            lemma_mod_multiples_vanish(16 * self.chunk_x, self.frac_x as int, 65536);
        }
        self.frac_x % UNITS_PER_BLOCK
    }

    /// Position inside the current block along y, in sub-units.
    pub fn get_frac_y(&self) -> (r: i64)
        requires
            self.wf(),
        ensures
            r == self.y_v() % 65536,
    {
        self.y.checked_rem_euclid(UNITS_PER_BLOCK).unwrap()
    }

    /// Position inside the current block along z, in sub-units.
    pub fn get_frac_z(&self) -> (r: i64)
        requires
            self.wf(),
        ensures
            r == self.world_z_v() % 65536,
    {
        proof {
            lemma_mod_multiples_vanish(16 * self.chunk_z, self.frac_z as int, 65536);
        }
        self.frac_z % UNITS_PER_BLOCK
    }

    pub fn get_world_x(&self) -> (r: i64)
        requires
            self.wf(),
        ensures
            r == self.world_x_v(),
    {
        self.chunk_x as i64 * UNITS_PER_CHUNK + self.frac_x
    }

    pub fn get_world_y(&self) -> (r: i64)
        ensures
            r == self.y_v(),
    {
        self.y
    }

    pub fn get_world_z(&self) -> (r: i64)
        requires
            self.wf(),
        ensures
            r == self.world_z_v(),
    {
        self.chunk_z as i64 * UNITS_PER_CHUNK + self.frac_z
    }

    pub fn get_local_x(&self) -> (r: i64)
        ensures
            r == self.local_x_v(),
    {
        self.frac_x
    }

    pub fn get_local_z(&self) -> (r: i64)
        ensures
            r == self.local_z_v(),
    {
        self.frac_z
    }

    pub fn get_chunk_x(&self) -> (r: i32)
        ensures
            r == self.chunk_x_v(),
    {
        self.chunk_x
    }

    pub fn get_chunk_z(&self) -> (r: i32)
        ensures
            r == self.chunk_z_v(),
    {
        self.chunk_z
    }

    /// Moves the position by a displacement in sub-units. The local offset absorbs the
    /// displacement and the whole-chunk part is carried into the chunk index.
    pub fn add_assign(&mut self, dx: i64, dy: i64, dz: i64)
        requires
            old(self).wf(),
            world_axis_in_grid(old(self).world_x_v() + dx),
            world_axis_in_grid(old(self).world_z_v() + dz),
            i64::MIN <= old(self).y_v() + dy <= i64::MAX,
        ensures
            final(self).wf(),
            final(self).world_x_v() == old(self).world_x_v() + dx,
            final(self).world_z_v() == old(self).world_z_v() + dz,
            final(self).y_v() == old(self).y_v() + dy,
    {
        let new_x = self.frac_x + dx;
        let new_z = self.frac_z + dz;
        let chunk_dx = new_x.checked_div_euclid(UNITS_PER_CHUNK).unwrap();
        let chunk_dz = new_z.checked_div_euclid(UNITS_PER_CHUNK).unwrap();
        let rem_x = new_x.checked_rem_euclid(UNITS_PER_CHUNK).unwrap();
        let rem_z = new_z.checked_rem_euclid(UNITS_PER_CHUNK).unwrap();
        assert((self.chunk_x * 1048576 + new_x) / 1048576 == self.chunk_x + chunk_dx);
        assert((self.chunk_z * 1048576 + new_z) / 1048576 == self.chunk_z + chunk_dz);
        self.chunk_x = (self.chunk_x as i64 + chunk_dx) as i32;
        self.chunk_z = (self.chunk_z as i64 + chunk_dz) as i32;
        self.frac_x = rem_x;
        self.frac_z = rem_z;
        self.y = self.y + dy;
    }
}

/// Decomposing a world coordinate into a chunk index and a local offset and composing them
/// again gives back the coordinate exactly, with the offset inside the chunk, for every
/// coordinate up to a billion blocks from the origin.
pub proof fn lemma_coordinate_round_trip(x: int)
    requires
        -1_000_000_000 * 65536 <= x <= 1_000_000_000 * 65536,
    ensures
        world_axis_in_grid(x),
        0 <= x % 1048576 < 1048576,
        (x / 1048576) * 1048576 + x % 1048576 == x,
{
}

} // verus!
