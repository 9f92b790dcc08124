use voxel_world::block_types::STONE;
use voxel_world::client::ClientWorld;
use voxel_world::coords::{BlockPos, ChunkPos, Coord, UNITS_PER_BLOCK};
use voxel_world::resources::{Block, BlockRegistry};
use voxel_world::server::ServerWorld;

fn registry() -> BlockRegistry {
    let mut r = BlockRegistry::create();
    r.register(Block::all(1));
    r.register(Block::side(3, 2, 1));
    r.register(Block::all(4));
    r
}

#[test]
fn one_rebuild_per_update() {
    let mut world = ServerWorld::create(0);
    for p in [ChunkPos::new(0, 0), ChunkPos::new(1, 0), ChunkPos::new(0, 1)] {
        world.load_chunk(&p, &vec![0; 256]);
    }
    assert!(world.set_block(&BlockPos::new(3, 3, 3), STONE));
    let reg = registry();
    let view = Coord::new(0, 0, 0);
    let mut client = ClientWorld::create();
    let first = client.update(&reg, &view, 4, &mut world).unwrap();
    let dirty_after: Vec<ChunkPos> = world
        .get_all_chunks()
        .into_iter()
        .filter(|p| world.get_chunk(p).unwrap().is_dirty())
        .collect();
    assert_eq!(dirty_after.len(), 2);
    assert!(!dirty_after.contains(&first));
    assert_eq!(client.get_all_meshes().len(), 1);
    let second = client.update(&reg, &view, 4, &mut world).unwrap();
    let third = client.update(&reg, &view, 4, &mut world).unwrap();
    assert!(first != second && second != third && first != third);
    assert!(client.update(&reg, &view, 4, &mut world).is_none());
    assert_eq!(client.get_all_meshes().len(), 3);
    assert_eq!(client.get_mesh(&ChunkPos::new(0, 0)).unwrap().vertices().len(), 36);
    assert_eq!(client.get_mesh(&ChunkPos::new(1, 0)).unwrap().vertices().len(), 0);
}

#[test]
fn far_chunks_are_not_rebuilt_and_stale_meshes_are_dropped() {
    let mut world = ServerWorld::create(0);
    world.load_chunk(&ChunkPos::new(10, 0), &vec![0; 256]);
    let reg = registry();
    let mut client = ClientWorld::create();
    let far_view = Coord::new(0, 0, 0);
    assert!(client.update(&reg, &far_view, 3, &mut world).is_none());
    let near_view = Coord::new(160 * UNITS_PER_BLOCK, 0, 0);
    assert_eq!(client.update(&reg, &near_view, 3, &mut world), Some(ChunkPos::new(10, 0)));
    assert!(client.get_mesh(&ChunkPos::new(10, 0)).is_some());
    world.load_region(&ChunkPos::new(0, 0), 1);
    assert!(client.update(&reg, &far_view, 3, &mut world).is_none());
    assert!(client.get_mesh(&ChunkPos::new(10, 0)).is_none());
}

#[test]
fn view_center_rounds_to_the_nearer_chunk() {
    let mut world = ServerWorld::create(0);
    world.load_chunk(&ChunkPos::new(3, 0), &vec![0; 256]);
    let reg = registry();
    let mut client = ClientWorld::create();
    assert!(client.update(&reg, &Coord::new(23 * UNITS_PER_BLOCK, 0, 0), 1, &mut world).is_none());
    assert_eq!(client.update(&reg, &Coord::new(24 * UNITS_PER_BLOCK, 0, 0), 1, &mut world), Some(ChunkPos::new(3, 0)));
}
