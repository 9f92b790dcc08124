use voxel_world::block_types::STONE;
use voxel_world::coords::{BlockPos, ChunkPos, Coord, UNITS_PER_BLOCK};
use voxel_world::raycast::raycast;
use voxel_world::server::ServerWorld;

fn world_with_block() -> ServerWorld {
    let mut world = ServerWorld::create(0);
    world.load_chunk(&ChunkPos::new(0, 0), &vec![0; 256]);
    assert!(world.set_block(&BlockPos::new(5, 10, 5), STONE));
    world
}

fn at(x2: i64, y2: i64, z2: i64) -> Coord {
    Coord::new(x2 * UNITS_PER_BLOCK / 2, y2 * UNITS_PER_BLOCK / 2, z2 * UNITS_PER_BLOCK / 2)
}

#[test]
fn ray_along_x_hits_the_block() {
    let world = world_with_block();
    let origin = at(-7, 21, 11);
    let hit = raycast(&world, &origin, (UNITS_PER_BLOCK, 0, 0), 10 * UNITS_PER_BLOCK).unwrap();
    assert_eq!(hit.position, BlockPos::new(5, 10, 5));
    assert_eq!((hit.normal_x, hit.normal_y, hit.normal_z), (-1, 0, 0));
    assert!(raycast(&world, &origin, (UNITS_PER_BLOCK, 0, 0), 8 * UNITS_PER_BLOCK).is_none());
}

#[test]
fn ray_from_above_hits_the_top_face() {
    let world = world_with_block();
    let origin = at(11, 41, 11);
    let hit = raycast(&world, &origin, (0, -UNITS_PER_BLOCK, 0), 10 * UNITS_PER_BLOCK).unwrap();
    assert_eq!(hit.position, BlockPos::new(5, 10, 5));
    assert_eq!((hit.normal_x, hit.normal_y, hit.normal_z), (0, 1, 0));
    assert!(raycast(&world, &origin, (0, -UNITS_PER_BLOCK, 0), 9 * UNITS_PER_BLOCK).is_none());
}

#[test]
fn ray_along_negative_z_hits_the_front_face() {
    let world = world_with_block();
    let origin = at(11, 21, 31);
    let hit = raycast(&world, &origin, (0, 0, -UNITS_PER_BLOCK), 20 * UNITS_PER_BLOCK).unwrap();
    assert_eq!(hit.position, BlockPos::new(5, 10, 5));
    assert_eq!((hit.normal_x, hit.normal_y, hit.normal_z), (0, 0, 1));
}

#[test]
fn ray_starting_inside_a_block() {
    let world = world_with_block();
    let hit = raycast(&world, &at(11, 21, 11), (UNITS_PER_BLOCK, 0, 0), UNITS_PER_BLOCK).unwrap();
    assert_eq!(hit.position, BlockPos::new(5, 10, 5));
    assert_eq!((hit.normal_x, hit.normal_y, hit.normal_z), (0, 0, 0));
}

#[test]
fn ray_that_misses() {
    let world = world_with_block();
    assert!(raycast(&world, &at(-7, 21, 13), (UNITS_PER_BLOCK, 0, 0), 30 * UNITS_PER_BLOCK).is_none());
    assert!(raycast(&world, &at(-7, 21, 11), (0, 0, 0), 30 * UNITS_PER_BLOCK).is_none());
    assert!(raycast(&world, &at(11, 21, 11), (UNITS_PER_BLOCK, 0, 0), 0).is_none());
}

#[test]
fn diagonal_ray_hits() {
    let world = world_with_block();
    let origin = at(1, 21, 1);
    let hit = raycast(&world, &origin, (46341, 0, 46341), 10 * UNITS_PER_BLOCK).unwrap();
    assert_eq!(hit.position, BlockPos::new(5, 10, 5));
}
