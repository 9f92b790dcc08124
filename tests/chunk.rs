use voxel_world::block_types::{AIR, BEDROCK, DIRT, GRASS_BLOCK, STONE};
use voxel_world::chunk::{Chunk, HEIGHT, LENGTH, WIDTH};
use voxel_world::coords::{ChunkPos, LocalBlockPos};
use voxel_world::worldgen::WorldGen;

fn flat(height: usize) -> Vec<usize> {
    vec![height; WIDTH * LENGTH]
}

#[test]
fn chunk_bounds() {
    let gen = WorldGen::create(7);
    let mut chunk = Chunk::create(&gen, &ChunkPos::new(0, 0), &flat(0));
    chunk.mark_clean();
    assert!(!chunk.set_block(&LocalBlockPos::new(WIDTH, 0, 0), STONE));
    assert!(!chunk.set_block(&LocalBlockPos::new(0, HEIGHT, 0), STONE));
    assert!(!chunk.set_block(&LocalBlockPos::new(0, 0, LENGTH), STONE));
    assert!(!chunk.is_dirty());
    assert_eq!(chunk.get_block(&LocalBlockPos::new(WIDTH, 0, 0)), AIR);
    assert_eq!(chunk.get_block(&LocalBlockPos::new(0, HEIGHT, 0)), AIR);
    assert_eq!(chunk.get_block(&LocalBlockPos::new(0, 0, usize::MAX)), AIR);
    assert!(chunk.set_block(&LocalBlockPos::new(WIDTH - 1, HEIGHT - 1, LENGTH - 1), STONE));
    assert!(chunk.is_dirty());
    assert_eq!(chunk.get_block(&LocalBlockPos::new(WIDTH - 1, HEIGHT - 1, LENGTH - 1)), STONE);
}

#[test]
fn dirty_flag_control() {
    let gen = WorldGen::create(7);
    let mut chunk = Chunk::create(&gen, &ChunkPos::new(0, 0), &flat(0));
    assert!(chunk.is_dirty());
    chunk.mark_clean();
    assert!(!chunk.is_dirty());
    chunk.mark_dirty();
    assert!(chunk.is_dirty());
}

#[test]
fn generation_is_deterministic() {
    let gen = WorldGen::create(42);
    let mut heights = flat(70);
    heights[3 + 5 * WIDTH] = 200;
    let a = Chunk::create(&gen, &ChunkPos::new(-3, 8), &heights);
    let b = Chunk::create(&WorldGen::create(42), &ChunkPos::new(-3, 8), &heights);
    for x in 0..WIDTH {
        for y in 0..HEIGHT {
            for z in 0..LENGTH {
                let p = LocalBlockPos::new(x, y, z);
                assert_eq!(a.get_block(&p), b.get_block(&p));
            }
        }
    }
    assert_eq!(gen.get_random(123, -456), WorldGen::create(42).get_random(123, -456));
}

#[test]
fn random_values_exact() {
    assert_eq!(WorldGen::create(0).get_random(0, 0), 0);
    assert_eq!(WorldGen::create(1).get_random(0, 0), 12994781566227106604);
    assert_eq!(WorldGen::create(42).get_random(-7, 13), 11408239262989261461);
}

#[test]
fn generated_layers() {
    let gen = WorldGen::create(42);
    let chunk = Chunk::create(&gen, &ChunkPos::new(0, 0), &flat(70));
    let at = |x: usize, y: usize, z: usize| chunk.get_block(&LocalBlockPos::new(x, y, z));
    assert_eq!(at(3, 0, 5), BEDROCK);
    assert_eq!(at(3, 69, 5), DIRT);
    assert_eq!(at(3, 68, 5), DIRT);
    assert_eq!(at(3, 67, 5), STONE);
    assert_eq!(at(3, 1, 5), STONE);
    assert_eq!(at(3, 70, 5), AIR);
    assert_eq!(at(0, 69, 0), STONE);
    assert!(chunk.is_dirty());
    let tall = Chunk::create(&gen, &ChunkPos::new(0, 0), &flat(64));
    assert_eq!(tall.get_block(&LocalBlockPos::new(0, 63, 0)), GRASS_BLOCK);
    assert_eq!(tall.get_block(&LocalBlockPos::new(3, 63, 5)), DIRT);
}

#[test]
fn columns_taller_than_the_chunk_are_cut() {
    let gen = WorldGen::create(9);
    let chunk = Chunk::create(&gen, &ChunkPos::new(1, 1), &flat(1000));
    assert_eq!(chunk.get_block(&LocalBlockPos::new(0, 0, 0)), BEDROCK);
    assert_ne!(chunk.get_block(&LocalBlockPos::new(0, HEIGHT - 1, 0)), AIR);
}
