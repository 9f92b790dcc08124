use vstd::prelude::*;
use crate::block_types::{BEDROCK, DIRT, GRASS_BLOCK, STONE};

verus! {

/// The avalanche hash of a seed and a world column.
#[verifier::opaque]
pub open spec fn coord_hash(seed: u32, x: i64, z: i64) -> u64 {
    let h0 = seed as u64;
    let h1 = h0 ^ (x as u64).wrapping_mul(0x517cc1b727220a95u64);
    let h2 = h1 ^ (z as u64).wrapping_mul(0x6d8a9b5e8377e61du64);
    let h3 = h2 ^ (h2 >> 33u64);
    let h4 = h3.wrapping_mul(0xff51afd7ed558ccdu64);
    let h5 = h4 ^ (h4 >> 33u64);
    let h6 = h5.wrapping_mul(0xc4ceb9fe1a85ec53u64);
    h6 ^ (h6 >> 33u64)
}

/// How far above the stone line (y = 60) a layer lies.
pub open spec fn depth_above_stone_line(y: int) -> int {
    if y > 60 {
        y - 60
    } else {
        0
    }
}

/// The leading 24 bits of a random value: the value as a fraction of 2^24.
pub open spec fn random_fraction(r: u64) -> int {
    (r >> 40u64) as int
}

/// Whether the cube of random value `r` (as a fraction in [0, 1)) lies below `depth / 50`.
pub open spec fn cube_below(r: u64, depth: int) -> bool {
    let q = random_fraction(r);
    50 * (q * q * q) < depth * 0x1_0000_0000_0000_0000_00
}

/// Whether the fourth power of random value `r` (as a fraction in [0, 1)) lies below `depth / 50`.
pub open spec fn fourth_below(r: u64, depth: int) -> bool {
    let q = random_fraction(r);
    50 * (q * q * q * q) < depth * 0x1_0000_0000_0000_0000_0000_0000
}

/// The block that terrain generation places at layer `y` of a column of height `height`,
/// given the column's two random values `r0` and `r1` (fractions of 2^64).
#[verifier::opaque]
pub open spec fn layer_block(r0: u64, r1: u64, height: int, y: int) -> u8 {
    let depth = depth_above_stone_line(y);
    if y == 0 {
        BEDROCK
    } else if cube_below(r0, depth) {
        STONE
    } else if height - y <= 1 {
        if fourth_below(r1, depth) {
            DIRT
        } else {
            GRASS_BLOCK
        }
    } else if height - y <= 4 && 4 * (r0 as int) >= (height - y) * 0x1_0000_0000_0000_0000 {
        DIRT
    } else {
        STONE
    }
}

/// The block that terrain generation places at layer `y` of world column (x, z).
pub open spec fn generated_block(seed: u32, x: i64, z: i64, height: int, y: int) -> u8 {
    layer_block(
        coord_hash(seed, x, z),
        coord_hash(seed, (x + 3824) as i64, (z - 9324) as i64),
        height,
        y,
    )
}

/// Deterministic terrain generation rules, parameterised by a seed.
pub struct WorldGen {
    seed: u32,
}

/// Relies on rand::random: draws a `u32` from the thread-local generator.
#[verifier::external_body]
fn draw_seed() -> (r: u32) {
    rand::random::<u32>()
}

impl WorldGen {
    pub closed spec fn seed_v(&self) -> u32 {
        self.seed
    }

    /// A fresh random seed.
    pub fn random_seed() -> (r: u32) {
        draw_seed()
    }

    pub fn create(seed: u32) -> (r: Self)
        ensures
            r.seed_v() == seed,
    {
        Self { seed }
    }

    pub fn seed(&self) -> (r: u32)
        ensures
            r == self.seed_v(),
    {
        self.seed
    }

    /// The random value of world column (x, z), a fraction of 2^64 in [0, 1).
    pub fn get_random(&self, x: i64, z: i64) -> (r: u64)
        ensures
            r == coord_hash(self.seed_v(), x, z),
    {
        self.hash_coords(x, z)
    }

    fn hash_coords(&self, x: i64, z: i64) -> (r: u64)
        ensures
            r == coord_hash(self.seed_v(), x, z),
    {
        proof {
            reveal(coord_hash);
        }
        let mut hash: u64 = self.seed as u64;
        hash = hash ^ (x as u64).wrapping_mul(0x517cc1b727220a95u64);
        hash = hash ^ (z as u64).wrapping_mul(0x6d8a9b5e8377e61du64);
        hash = hash ^ (hash >> 33u64);
        hash = hash.wrapping_mul(0xff51afd7ed558ccdu64);
        hash = hash ^ (hash >> 33u64);
        hash = hash.wrapping_mul(0xc4ceb9fe1a85ec53u64);
        hash = hash ^ (hash >> 33u64);
        hash
    }
}

/// The block placed at layer `y` (below the column's height) given the column's randoms.
pub fn layer_block_of(r0: u64, r1: u64, height: usize, y: usize) -> (r: u8)
    requires
        y < height,
        y < 256,
    ensures
        r == layer_block(r0, r1, height as int, y as int),
{
    proof {
        reveal(layer_block);
    }
    let depth: u128 = if y > 60 { (y - 60) as u128 } else { 0 };
    let q0: u128 = (r0 >> 40u64) as u128;
    let q1: u128 = (r1 >> 40u64) as u128;
    assert(q0 < 0x100_0000 && q1 < 0x100_0000) by (bit_vector)
        requires q0 == (r0 >> 40u64) as u128, q1 == (r1 >> 40u64) as u128;
    assert(q0 * q0 < 0x1_0000_0000_0000 && q0 * q0 * q0 < 0x1_0000_0000_0000_0000_00)
        by (nonlinear_arith)
        requires q0 < 0x100_0000;
    assert(q1 * q1 < 0x1_0000_0000_0000 && q1 * q1 * q1 < 0x1_0000_0000_0000_0000_00
        && q1 * q1 * q1 * q1 < 0x1_0000_0000_0000_0000_0000_0000) by (nonlinear_arith)
        requires q1 < 0x100_0000;
    if y == 0 {
        BEDROCK
    } else if 50 * (q0 * q0 * q0) < depth * 0x1_0000_0000_0000_0000_00u128 {
        STONE
    } else if height - y <= 1 {
        if 50 * (q1 * q1 * q1 * q1) < depth * 0x1_0000_0000_0000_0000_0000_0000u128 {
            DIRT
        } else {
            GRASS_BLOCK
        }
    } else if height - y <= 4 && 4 * (r0 as u128) >= ((height - y) as u128) * 0x1_0000_0000_0000_0000u128 {
        DIRT
    } else {
        STONE
    }
}

} // verus!
