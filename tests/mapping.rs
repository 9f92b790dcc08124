use voxel_world::coords::ChunkPos;
use voxel_world::mapping::{ChunkMap, ChunkPosHasherBuilder, hash_chunk_pos};

#[test]
fn hasher_mixing_exact() {
    let mut h = ChunkPosHasherBuilder.build_hasher();
    assert_eq!(h.finish(), 0);
    h.write_u64(1);
    assert_eq!(h.finish(), 14334736817860870835);
    let mut g = ChunkPosHasherBuilder.build_hasher();
    g.write(&[1, 2, 3]);
    assert_eq!(g.finish(), 6042935494898409489);
}

#[test]
fn chunk_pos_hash_exact() {
    assert_eq!(hash_chunk_pos(&ChunkPos::new(1, 0)), 5367188625198528895);
    assert_eq!(hash_chunk_pos(&ChunkPos::new(-1, 2)), 11989075344325867140);
}

#[test]
fn chunk_map_operations() {
    let mut m: ChunkMap<u32> = ChunkMap::new();
    for x in -10..10 {
        for z in -10..10 {
            m.insert(ChunkPos::new(x, z), (x * 100 + z) as u32);
        }
    }
    assert_eq!(m.keys().len(), 400);
    assert_eq!(m.get(&ChunkPos::new(3, -4)), Some(&296u32));
    m.insert(ChunkPos::new(3, -4), 7);
    assert_eq!(m.get(&ChunkPos::new(3, -4)), Some(&7u32));
    assert_eq!(m.keys().len(), 400);
    assert_eq!(m.remove(&ChunkPos::new(3, -4)), Some(7));
    assert_eq!(m.remove(&ChunkPos::new(3, -4)), None);
    assert!(!m.contains_key(&ChunkPos::new(3, -4)));
    assert!(m.contains_key(&ChunkPos::new(-10, 9)));
    assert_eq!(m.get(&ChunkPos::new(50, 50)), None);
    let keys = m.keys();
    assert_eq!(keys.len(), 399);
    for k in &keys {
        assert!(m.contains_key(k));
    }
}
