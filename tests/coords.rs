use voxel_world::coords::{BlockPos, ChunkPos, Coord, UNITS_PER_BLOCK, UNITS_PER_CHUNK};

#[test]
fn coordinate_round_trip_far_from_origin() {
    for blocks in [1_000_000_000i64, -1_000_000_000, 123_456_789, -987_654_321, 0, 15, -16] {
        let x = blocks * UNITS_PER_BLOCK + 12_345;
        let c = Coord::new(x, 0, -x);
        assert_eq!(c.get_world_x(), x);
        assert_eq!(c.get_world_z(), -x);
        assert!(c.get_local_x() >= 0 && c.get_local_x() < UNITS_PER_CHUNK);
        assert!(c.get_local_z() >= 0 && c.get_local_z() < UNITS_PER_CHUNK);
        assert_eq!(c.get_chunk_x() as i64 * UNITS_PER_CHUNK + c.get_local_x(), x);
    }
}

#[test]
fn negative_coordinates_floor() {
    let c = Coord::new(-1, -1, -UNITS_PER_CHUNK);
    assert_eq!(c.get_chunk_x(), -1);
    assert_eq!(c.get_local_x(), UNITS_PER_CHUNK - 1);
    assert_eq!(c.get_block_x(), -1);
    assert_eq!(c.get_frac_x(), UNITS_PER_BLOCK - 1);
    assert_eq!(c.get_block_y(), -1);
    assert_eq!(c.get_frac_y(), UNITS_PER_BLOCK - 1);
    assert_eq!(c.get_chunk_z(), -1);
    assert_eq!(c.get_local_z(), 0);
    assert_eq!(c.get_block_z(), -16);
}

#[test]
fn block_components() {
    let c = Coord::new(37 * UNITS_PER_BLOCK + 100, 70 * UNITS_PER_BLOCK + 5, -3 * UNITS_PER_BLOCK);
    assert_eq!(c.get_block_x(), 37);
    assert_eq!(c.get_frac_x(), 100);
    assert_eq!(c.get_block_y(), 70);
    assert_eq!(c.get_frac_y(), 5);
    assert_eq!(c.get_world_y(), 70 * UNITS_PER_BLOCK + 5);
    assert_eq!(c.get_block_z(), -3);
    assert_eq!(c.get_frac_z(), 0);
    assert_eq!(c.get_chunk_x(), 2);
    assert_eq!(c.get_local_x(), 5 * UNITS_PER_BLOCK + 100);
}

#[test]
fn add_assign_carries_into_chunk() {
    let mut c = Coord::new(15 * UNITS_PER_BLOCK + UNITS_PER_BLOCK / 2, 0, 0);
    c.add_assign(UNITS_PER_BLOCK, 3, -1);
    assert_eq!(c.get_chunk_x(), 1);
    assert_eq!(c.get_local_x(), UNITS_PER_BLOCK / 2);
    assert_eq!(c.get_chunk_z(), -1);
    assert_eq!(c.get_local_z(), UNITS_PER_CHUNK - 1);
    assert_eq!(c.get_world_y(), 3);
    assert_eq!(c.get_world_x(), 16 * UNITS_PER_BLOCK + UNITS_PER_BLOCK / 2);
}

#[test]
fn many_small_steps_stay_exact() {
    let start = 1_000_000_000i64 * UNITS_PER_BLOCK;
    let mut c = Coord::new(start, 0, 0);
    for _ in 0..1000 {
        c.add_assign(77, 0, 0);
    }
    assert_eq!(c.get_world_x(), start + 77_000);
}

#[test]
fn block_pos_to_chunk_pos() {
    assert_eq!(BlockPos::new(-1, 0, -17).to_chunk_pos(), ChunkPos::new(-1, -2));
    assert_eq!(BlockPos::new(15, 3, 16).to_chunk_pos(), ChunkPos::new(0, 1));
}

#[test]
fn chunk_pos_arithmetic() {
    let a = ChunkPos::new(3, -4);
    let b = ChunkPos::new(-1, 2);
    assert_eq!(a.add(&b), ChunkPos::new(2, -2));
    assert_eq!(a.sub(&b), ChunkPos::new(4, -6));
    assert_eq!(a.to_block_xz_pos(), (48, -64));
}
