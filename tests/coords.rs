use voxel_world::coords::{div_floor, grid_index, ChunkId, CHUNK_VOLUME};

#[test]
fn div_floor_rounds_toward_negative_infinity() {
    assert_eq!(div_floor(-1, 32), -1);
    assert_eq!(div_floor(31, 32), 0);
    assert_eq!(div_floor(32, 32), 1);
    assert_eq!(div_floor(-33, 32), -2);
}

#[test]
fn div_floor_exact_and_negative_divisors() {
    assert_eq!(div_floor(-32, 32), -1);
    assert_eq!(div_floor(0, 32), 0);
    assert_eq!(div_floor(7, -2), -4);
    assert_eq!(div_floor(-7, -2), 3);
    assert_eq!(div_floor(-8, -2), 4);
    assert_eq!(div_floor(i32::MIN, 1), i32::MIN);
    assert_eq!(div_floor(i32::MIN, 32), -67108864);
    assert_eq!(div_floor(i32::MAX, 32), 67108863);
}

#[test]
fn grid_index_strides() {
    assert_eq!(grid_index(0, 0, 0), 0);
    assert_eq!(grid_index(1, 0, 0), 1);
    assert_eq!(grid_index(0, 1, 0), 32);
    assert_eq!(grid_index(0, 0, 1), 32 * 96);
    assert_eq!(grid_index(31, 95, 31), CHUNK_VOLUME - 1);
}

#[test]
fn chunk_id_world_origin() {
    assert_eq!(ChunkId::new(2, -3).world_origin(), (64, 0, -96));
    assert_eq!(ChunkId::new(0, 0).world_origin(), (0, 0, 0));
}
