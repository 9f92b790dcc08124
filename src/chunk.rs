use vstd::prelude::*;
use crate::coords::{ChunkPos, LocalBlockPos};
use crate::worldgen::{WorldGen, generated_block, layer_block_of};

verus! {

/// Number of blocks along the x axis of a chunk.
pub const WIDTH: usize = 16;

/// Number of blocks along the y axis of a chunk (a chunk is a full column).
pub const HEIGHT: usize = 256;

/// Number of blocks along the z axis of a chunk.
pub const LENGTH: usize = 16;

/// Number of blocks in a chunk.
pub const VOLUME: usize = 65536;

/// The place of local position (x, y, z) in a chunk's block array.
pub open spec fn block_index(x: int, y: int, z: int) -> int {
    x + z * 16 + y * 256
}

/// Whether (x, y, z) is a position inside a chunk.
pub open spec fn local_in_bounds(x: int, y: int, z: int) -> bool {
    0 <= x < 16 && 0 <= y < 256 && 0 <= z < 16
}

/// The block at (x, y, z) of a block array; air outside the chunk.
pub open spec fn cell_of(cells: Seq<u8>, x: int, y: int, z: int) -> u8 {
    if local_in_bounds(x, y, z) {
        cells[block_index(x, y, z)]
    } else {
        0
    }
}

/// The block that generation puts at (x, y, z) of the chunk at `pos`, whose columns have
/// the heights `heights` (indexed by x + z * 16).
pub open spec fn generated_cell(seed: u32, pos: ChunkPos, heights: Seq<usize>, x: int, y: int, z: int) -> u8 {
    let height = heights[x + z * 16] as int;
    if y < height {
        generated_block(seed, (pos.x * 16 + x) as i64, (pos.z * 16 + z) as i64, height, y)
    } else {
        0
    }
}

/// Writes the generated layers of column (x, z), of height `height`, into `blocks`; the
/// other cells are kept.
fn fill_column(blocks: &mut Vec<u8>, x: usize, z: usize, height: usize, r0: u64, r1: u64)
    requires
        old(blocks)@.len() == 65536,
        x < 16,
        z < 16,
    ensures
        final(blocks)@.len() == 65536,
        forall|a: int, b: int, c: int| #![trigger cell_of(final(blocks)@, a, b, c)]
            local_in_bounds(a, b, c) ==> cell_of(final(blocks)@, a, b, c) == if a == x && c == z {
                if b < height {
                    crate::worldgen::layer_block(r0, r1, height as int, b)
                } else {
                    cell_of(old(blocks)@, a, b, c)
                }
            } else {
                cell_of(old(blocks)@, a, b, c)
            },
{
    let top = if height < HEIGHT { height } else { HEIGHT };
    let mut y: usize = 0;
    while y < top
        invariant
            x < 16,
            z < 16,
            y <= top,
            top <= 256,
            top <= height,
            top == 256 || top == height,
            blocks@.len() == 65536,
            forall|a: int, b: int, c: int| #![trigger cell_of(blocks@, a, b, c)]
                local_in_bounds(a, b, c) ==> cell_of(blocks@, a, b, c) == if a == x && c == z && b < y {
                    crate::worldgen::layer_block(r0, r1, height as int, b)
                } else {
                    cell_of(old(blocks)@, a, b, c)
                },
        decreases top - y,
    {
        let block = layer_block_of(r0, r1, height, y);
        let ghost before = blocks@;
        blocks.set(x + z * 16 + y * 256, block);
        assert forall|a: int, b: int, c: int| #![trigger cell_of(blocks@, a, b, c)]
            local_in_bounds(a, b, c) implies cell_of(blocks@, a, b, c) == if a == x && c == z && b < y + 1 {
                crate::worldgen::layer_block(r0, r1, height as int, b)
            } else {
                cell_of(old(blocks)@, a, b, c)
            } by {
            if a == x && b == y && c == z {
            } else {
                assert(cell_of(before, a, b, c) == cell_of(blocks@, a, b, c));
            }
        }
        y = y + 1;
    }
}

/// A 16 x 256 x 16 column of block ids with a flag telling whether its mesh is stale.
pub struct Chunk {
    blocks: Vec<u8>,
    is_dirty: bool,
}

impl Chunk {
    /// The block array, laid out by `block_index`.
    pub closed spec fn cells(&self) -> Seq<u8> {
        self.blocks@
    }

    pub closed spec fn dirty(&self) -> bool {
        self.is_dirty
    }

    pub open spec fn wf(&self) -> bool {
        self.cells().len() == 65536
    }

    /// The block at a local position; air outside the chunk.
    pub open spec fn cell(&self, x: int, y: int, z: int) -> u8 {
        cell_of(self.cells(), x, y, z)
    }

    /// Generates the chunk at `position`. Column (x, z) is filled up to its height
    /// `heights[x + z * 16]`; the new chunk is dirty.
    pub fn create(worldgen: &WorldGen, position: &ChunkPos, heights: &Vec<usize>) -> (r: Self)
        requires
            heights@.len() == 256,
        ensures
            r.wf(),
            r.dirty(),
            forall|x: int, y: int, z: int| #![trigger r.cell(x, y, z)]
                local_in_bounds(x, y, z) ==> r.cell(x, y, z) == generated_cell(
                    worldgen.seed_v(), *position, heights@, x, y, z),
    {
        let ghost seed = worldgen.seed_v();
        let mut blocks: Vec<u8> = vec![0u8; VOLUME];
        let (base_x, base_z) = position.to_block_xz_pos();
        let mut x: usize = 0;
        while x < WIDTH
            invariant
                0 <= x <= 16,
                heights@.len() == 256,
                blocks@.len() == 65536,
                seed == worldgen.seed_v(),
                base_x == position.x * 16,
                base_z == position.z * 16,
                forall|a: int, b: int, c: int| #![trigger cell_of(blocks@, a, b, c)]
                    local_in_bounds(a, b, c) ==> cell_of(blocks@, a, b, c) == if a < x {
                        generated_cell(seed, *position, heights@, a, b, c)
                    } else {
                        0
                    },
            decreases 16 - x,
        {
            let mut z: usize = 0;
            while z < LENGTH
                invariant
                    0 <= x < 16,
                    0 <= z <= 16,
                    heights@.len() == 256,
                    blocks@.len() == 65536,
                    seed == worldgen.seed_v(),
                    base_x == position.x * 16,
                    base_z == position.z * 16,
                    forall|a: int, b: int, c: int| #![trigger cell_of(blocks@, a, b, c)]
                        local_in_bounds(a, b, c) ==> cell_of(blocks@, a, b, c) == if a < x || (a
                            == x && c < z) {
                            generated_cell(seed, *position, heights@, a, b, c)
                        } else {
                            0
                        },
                decreases 16 - z,
            {
                let world_x = x as i64 + base_x;
                let world_z = z as i64 + base_z;
                let height = heights[x + z * WIDTH];
                let r0 = worldgen.get_random(world_x, world_z);
                let r1 = worldgen.get_random(world_x + 3824, world_z - 9324);
                fill_column(&mut blocks, x, z, height, r0, r1);
                assert forall|a: int, b: int, c: int| #![trigger cell_of(blocks@, a, b, c)]
                    local_in_bounds(a, b, c) implies cell_of(blocks@, a, b, c) == if a < x || (a
                        == x && c < z + 1) {
                        generated_cell(seed, *position, heights@, a, b, c)
                    } else {
                        0
                    } by {
                    if a == x && c == z {
                        assert(heights@[a + c * 16] == height);
                        assert((position.x * 16 + a) as i64 == world_x);
                        assert((position.z * 16 + c) as i64 == world_z);
                        assert(r0 == crate::worldgen::coord_hash(seed, world_x, world_z));
                        assert(r1 == crate::worldgen::coord_hash(seed, (world_x + 3824) as i64, (
                        world_z - 9324) as i64));
                        assert(generated_cell(seed, *position, heights@, a, b, c) == if b
                            < height {
                            crate::worldgen::layer_block(r0, r1, height as int, b)
                        } else {
                            0
                        });
                    }
                }
                z = z + 1;
            }
            x = x + 1;
        }
        Chunk { blocks, is_dirty: true }
    }

    /// Writes a block and marks the chunk dirty; fails without change outside the chunk.
    pub fn set_block(&mut self, position: &LocalBlockPos, block: u8) -> (ok: bool)
        requires
            old(self).wf(),
        ensures
            final(self).wf(),
            ok == position.in_bounds(),
            ok ==> final(self).dirty(),
            ok ==> final(self).cells() == old(self).cells().update(
                block_index(position.x as int, position.y as int, position.z as int),
                block,
            ),
            !ok ==> *final(self) == *old(self),
    {
        if position.x >= WIDTH || position.y >= HEIGHT || position.z >= LENGTH {
            return false;
        }
        self.blocks.set(position.x + position.z * WIDTH + position.y * WIDTH * LENGTH, block);
        self.mark_dirty();
        true
    }

    /// The block at a local position; air outside the chunk.
    pub fn get_block(&self, position: &LocalBlockPos) -> (r: u8)
        requires
            self.wf(),
        ensures
            r == self.cell(position.x as int, position.y as int, position.z as int),
    {
        if position.x >= WIDTH || position.y >= HEIGHT || position.z >= LENGTH {
            return 0;
        }
        self.blocks[position.x + position.z * WIDTH + position.y * WIDTH * LENGTH]
    }

    pub fn mark_dirty(&mut self)
        ensures
            final(self).dirty(),
            final(self).cells() == old(self).cells(),
    {
        self.is_dirty = true;
    }

    pub fn mark_clean(&mut self)
        ensures
            !final(self).dirty(),
            final(self).cells() == old(self).cells(),
    {
        self.is_dirty = false;
    }

    pub fn is_dirty(&self) -> (r: bool)
        ensures
            r == self.dirty(),
    {
        self.is_dirty
    }
}

/// Generation is deterministic: two chunks generated with the same seed, at the same
/// position and from the same column heights hold exactly the same blocks.
pub proof fn lemma_generation_deterministic(
    a: Chunk,
    b: Chunk,
    seed: u32,
    position: ChunkPos,
    heights: Seq<usize>,
)
    requires
        a.wf(),
        b.wf(),
        forall|x: int, y: int, z: int| #![trigger a.cell(x, y, z)]
            local_in_bounds(x, y, z) ==> a.cell(x, y, z) == generated_cell(seed, position, heights, x, y, z),
        forall|x: int, y: int, z: int| #![trigger b.cell(x, y, z)]
            local_in_bounds(x, y, z) ==> b.cell(x, y, z) == generated_cell(seed, position, heights, x, y, z),
    ensures
        a.cells() == b.cells(),
{
    assert forall|i: int| 0 <= i < 65536 implies a.cells()[i] == b.cells()[i] by {
        let x = i % 16;
        let z = (i / 16) % 16;
        let y = i / 256;
        assert(block_index(x, y, z) == i);
        assert(a.cell(x, y, z) == b.cell(x, y, z));
    }
    assert(a.cells() =~= b.cells());
}

} // verus!
