use vstd::prelude::*;

verus! {

/// Empty space.
pub const AIR: u8 = 0;

pub const DIRT: u8 = 1;

pub const GRASS_BLOCK: u8 = 2;

pub const STONE: u8 = 3;

pub const COBBLESTONE: u8 = 4;

pub const BEDROCK: u8 = 5;

pub const GRAVEL: u8 = 6;

pub const SAND: u8 = 7;

} // verus!
