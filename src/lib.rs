//! A voxel world: chunked terrain with integer chunk indices and fixed-point local offsets,
//! deterministic generation, dirty-tracked per-face meshing with a one-rebuild-per-update
//! mesh cache, and grid-walking ray casts for block picking.

pub mod block_types;
pub mod chunk;
pub mod client;
pub mod coords;
pub mod mapping;
pub mod mesh;
pub mod raycast;
pub mod resources;
pub mod server;
pub mod window;
pub mod worldgen;
