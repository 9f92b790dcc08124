use voxel_world::block_types::{AIR, STONE};
use voxel_world::coords::{BlockPos, ChunkPos};
use voxel_world::server::ServerWorld;

fn air_columns() -> Vec<usize> {
    vec![0; 256]
}

fn load_all(world: &mut ServerWorld, center: &ChunkPos, radius: usize) -> usize {
    let missing = world.load_region(center, radius);
    for p in &missing {
        assert!(world.load_chunk(p, &air_columns()));
    }
    missing.len()
}

fn mark_all_clean(world: &mut ServerWorld) {
    for p in world.get_all_chunks() {
        world.mark_chunk_clean(&p);
    }
}

#[test]
fn region_includes_the_boundary_circle() {
    let mut world = ServerWorld::create(1);
    assert_eq!(load_all(&mut world, &ChunkPos::new(0, 0), 1), 5);
    let mut world = ServerWorld::create(1);
    assert_eq!(load_all(&mut world, &ChunkPos::new(10, -10), 2), 13);
    assert!(world.get_chunk(&ChunkPos::new(12, -10)).is_some());
    assert!(world.get_chunk(&ChunkPos::new(12, -9)).is_none());
}

#[test]
fn region_load_idempotence() {
    let mut world = ServerWorld::create(1);
    load_all(&mut world, &ChunkPos::new(0, 0), 3);
    mark_all_clean(&mut world);
    let before = world.get_all_chunks().len();
    let missing = world.load_region(&ChunkPos::new(0, 0), 3);
    assert!(missing.is_empty());
    assert_eq!(world.get_all_chunks().len(), before);
    for p in world.get_all_chunks() {
        assert!(!world.get_chunk(&p).unwrap().is_dirty());
    }
}

#[test]
fn moving_the_region_unloads_and_marks_neighbours() {
    let mut world = ServerWorld::create(1);
    load_all(&mut world, &ChunkPos::new(0, 0), 1);
    mark_all_clean(&mut world);
    let missing = world.load_region(&ChunkPos::new(1, 0), 1);
    assert!(world.get_chunk(&ChunkPos::new(-1, 0)).is_none());
    assert!(world.get_chunk(&ChunkPos::new(0, 1)).is_none());
    assert!(world.get_chunk(&ChunkPos::new(0, 0)).unwrap().is_dirty());
    assert!(!world.get_chunk(&ChunkPos::new(1, 0)).unwrap().is_dirty());
    assert_eq!(missing.len(), 3);
    assert!(missing.contains(&ChunkPos::new(2, 0)));
    assert!(missing.contains(&ChunkPos::new(1, 1)));
    assert!(missing.contains(&ChunkPos::new(1, -1)));
    assert!(world.load_chunk(&ChunkPos::new(2, 0), &air_columns()));
    assert!(world.get_chunk(&ChunkPos::new(1, 0)).unwrap().is_dirty());
    assert!(!world.load_chunk(&ChunkPos::new(2, 0), &air_columns()));
}

fn cross_world() -> ServerWorld {
    let mut world = ServerWorld::create(3);
    load_all(&mut world, &ChunkPos::new(0, 0), 1);
    mark_all_clean(&mut world);
    world
}

fn dirty(world: &ServerWorld, x: i32, z: i32) -> bool {
    world.get_chunk(&ChunkPos::new(x, z)).unwrap().is_dirty()
}

#[test]
fn dirty_propagation_low_x_edge() {
    let mut world = cross_world();
    assert!(world.set_block(&BlockPos::new(0, 10, 7), STONE));
    assert!(dirty(&world, 0, 0));
    assert!(dirty(&world, -1, 0));
    assert!(!dirty(&world, 1, 0));
    assert!(!dirty(&world, 0, -1));
    assert!(!dirty(&world, 0, 1));
}

#[test]
fn dirty_propagation_high_x_edge() {
    let mut world = cross_world();
    assert!(world.set_block(&BlockPos::new(15, 10, 7), STONE));
    assert!(dirty(&world, 1, 0));
    assert!(!dirty(&world, -1, 0));
    assert!(!dirty(&world, 0, -1));
    assert!(!dirty(&world, 0, 1));
}

#[test]
fn dirty_propagation_corner_and_interior() {
    let mut world = cross_world();
    assert!(world.set_block(&BlockPos::new(7, 10, 7), STONE));
    assert!(dirty(&world, 0, 0));
    assert!(!dirty(&world, -1, 0) && !dirty(&world, 1, 0) && !dirty(&world, 0, -1) && !dirty(&world, 0, 1));
    let mut world = cross_world();
    assert!(world.set_block(&BlockPos::new(15, 10, 0), STONE));
    assert!(dirty(&world, 1, 0) && dirty(&world, 0, -1));
    assert!(!dirty(&world, -1, 0) && !dirty(&world, 0, 1));
}

#[test]
fn block_access_through_the_world() {
    let mut world = cross_world();
    assert_eq!(world.get_block(&BlockPos::new(-5, 3, 4)), AIR);
    assert!(world.set_block(&BlockPos::new(-5, 3, 4), STONE));
    assert_eq!(world.get_block(&BlockPos::new(-5, 3, 4)), STONE);
    assert_eq!(world.get_chunk(&ChunkPos::new(-1, 0)).unwrap().get_block(&voxel_world::coords::LocalBlockPos::new(11, 3, 4)), STONE);
    assert!(!world.set_block(&BlockPos::new(-5, 256, 4), STONE));
    assert!(!world.set_block(&BlockPos::new(-5, -1, 4), STONE));
    assert_eq!(world.get_block(&BlockPos::new(-5, -1, 4)), AIR);
    assert!(!world.set_block(&BlockPos::new(100, 3, 4), STONE));
    assert_eq!(world.get_block(&BlockPos::new(100, 3, 4)), AIR);
    assert!(!world.set_block(&BlockPos::new(i64::MAX, 3, 4), STONE));
    assert_eq!(world.get_block(&BlockPos::new(i64::MIN, 3, 4)), AIR);
}

#[test]
fn generated_chunks_follow_the_seed() {
    let mut a = ServerWorld::create(5);
    let mut b = ServerWorld::create(5);
    let heights = vec![66usize; 256];
    a.load_chunk(&ChunkPos::new(2, -3), &heights);
    b.load_chunk(&ChunkPos::new(2, -3), &heights);
    for y in 0..70 {
        let p = BlockPos::new(35, y, -40);
        assert_eq!(a.get_block(&p), b.get_block(&p));
    }
    assert_eq!(a.worldgen().seed(), 5);
}
