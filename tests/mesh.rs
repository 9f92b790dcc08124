use voxel_world::block_types::STONE;
use voxel_world::chunk::Chunk;
use voxel_world::coords::{ChunkPos, LocalBlockPos};
use voxel_world::mesh::{ChunkData, NextChunks, Vertex};
use voxel_world::resources::{Block, BlockRegistry, Face, TerrainAtlas};
use voxel_world::worldgen::WorldGen;

fn empty_chunk() -> Chunk {
    Chunk::create(&WorldGen::create(0), &ChunkPos::new(0, 0), &vec![0; 256])
}

fn registry() -> BlockRegistry {
    let mut r = BlockRegistry::create();
    r.register(Block::all(1));
    r.register(Block::side(3, 2, 1));
    r.register(Block::all(4));
    r
}

fn mesh_len(chunk: &Chunk, next: &NextChunks) -> usize {
    let mut data = ChunkData::create();
    data.build(&registry(), chunk, next);
    data.vertices().len()
}

#[test]
fn isolated_block_has_six_faces() {
    let mut chunk = empty_chunk();
    chunk.set_block(&LocalBlockPos::new(5, 10, 5), STONE);
    assert_eq!(mesh_len(&chunk, &NextChunks::create(None, None, None, None)), 36);
}

#[test]
fn solid_neighbour_hides_one_face() {
    let mut chunk = empty_chunk();
    chunk.set_block(&LocalBlockPos::new(5, 10, 5), STONE);
    chunk.set_block(&LocalBlockPos::new(6, 10, 5), STONE);
    assert_eq!(mesh_len(&chunk, &NextChunks::create(None, None, None, None)), 60);
}

#[test]
fn edge_faces_consult_the_neighbour_chunk() {
    let mut chunk = empty_chunk();
    chunk.set_block(&LocalBlockPos::new(0, 0, 0), STONE);
    assert_eq!(mesh_len(&chunk, &NextChunks::create(None, None, None, None)), 36);
    let mut left = empty_chunk();
    left.set_block(&LocalBlockPos::new(15, 0, 0), STONE);
    assert_eq!(mesh_len(&chunk, &NextChunks::create(Some(&left), None, None, None)), 30);
    let air = empty_chunk();
    assert_eq!(mesh_len(&chunk, &NextChunks::create(Some(&air), None, None, None)), 36);
}

#[test]
fn vertex_packing_exact() {
    assert_eq!(Vertex::create(&LocalBlockPos::new(1, 2, 3), (4, 5), Face::Top).data, 1696645185);
    assert_eq!(Vertex::create(&LocalBlockPos::new(16, 256, 16), (16, 1), Face::Front).data, 2709790736);
}

#[test]
fn mesh_vertices_carry_textures() {
    let mut chunk = empty_chunk();
    chunk.set_block(&LocalBlockPos::new(2, 3, 4), 2);
    let mut data = ChunkData::create();
    data.build(&registry(), &chunk, &NextChunks::create(None, None, None, None));
    let v = data.vertices();
    assert_eq!(v.len(), 36);
    let left = Vertex::create(&LocalBlockPos::new(2, 3, 4), (3, 0), Face::Left).data;
    assert_eq!(v[0], left);
    let top = Vertex::create(&LocalBlockPos::new(2, 4, 5), (2, 0), Face::Top).data;
    assert_eq!(v[18], top);
}

#[test]
fn atlas_and_registry() {
    assert_eq!(TerrainAtlas::get_uv(37), (5, 2));
    let r = registry();
    assert_eq!(r.get(2).top_texture(), 2);
    assert_eq!(r.get(2).left_texture(), 3);
    assert_eq!(r.get(2).bottom_texture(), 1);
    assert_eq!(r.get(99).front_texture(), 0);
    assert_eq!(r.get(3).right_texture(), 4);
    assert_eq!(r.get(3).back_texture(), 4);
    assert_eq!(r.get(3).texture(Face::Back), 4);
    assert_eq!(Face::Front.id(), 5);
}
