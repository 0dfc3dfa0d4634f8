use voxel_world::chunk::Chunk;
use voxel_world::coords::{ChunkId, CHUNK_ID_LIMIT};
use voxel_world::registry::{neighbor, World};
use voxel_world::scheduler::{priority_offsets, Scheduler};

#[test]
fn mesh_queue_admits_after_all_nine() {
    let mut world = World::new();
    for j in 1..9 {
        let (dx, dy) = neighbor(j);
        world.publish_chunk(Chunk::new(ChunkId::new(dx, dy)));
        assert!(world.take_mesh_queue().is_empty());
    }
    world.publish_chunk(Chunk::new(ChunkId::new(0, 0)));
    assert_eq!(world.take_mesh_queue(), vec![ChunkId::new(0, 0)]);
    assert!(world.take_mesh_queue().is_empty());
}

#[test]
fn mesh_queue_admits_each_identity_once() {
    let mut world = World::new();
    for x in -2..=2 {
        for y in -2..=2 {
            world.publish_chunk(Chunk::new(ChunkId::new(x, y)));
        }
    }
    let mut ready = world.take_mesh_queue();
    ready.sort_by_key(|id| (id.x, id.y));
    let mut expected = Vec::new();
    for x in -1..=1 {
        for y in -1..=1 {
            expected.push(ChunkId::new(x, y));
        }
    }
    assert_eq!(ready, expected);
    world.publish_chunk(Chunk::new(ChunkId::new(3, 0)));
    assert!(world.take_mesh_queue().is_empty());
    world.publish_chunk(Chunk::new(ChunkId::new(3, 1)));
    world.publish_chunk(Chunk::new(ChunkId::new(3, -1)));
    assert_eq!(world.take_mesh_queue(), vec![ChunkId::new(2, 0)]);
}

#[test]
fn update_marks_missing_chunks_for_generation() {
    let mut world = World::new();
    world.publish_chunk(Chunk::new(ChunkId::new(5, 5)));
    let priority = vec![(0, 0), (1, 0), (0, 0), (-1, 0)];
    let out = world.update_chunk_state(ChunkId::new(4, 5), &priority);
    assert_eq!(out, vec![ChunkId::new(4, 5), ChunkId::new(3, 5)]);
    assert!(world.is_generating(ChunkId::new(4, 5)));
    assert!(!world.is_generating(ChunkId::new(5, 5)));
    assert!(world.contains_chunk(ChunkId::new(5, 5)));
    let again = world.update_chunk_state(ChunkId::new(4, 5), &priority);
    assert!(again.is_empty());
    world.publish_chunk(Chunk::new(ChunkId::new(4, 5)));
    assert!(!world.is_generating(ChunkId::new(4, 5)));
}

#[test]
fn priority_offsets_nearest_first() {
    let p = priority_offsets(16);
    let expected = (-15..16)
        .flat_map(|x| (-15..16).map(move |y| (x, y)))
        .filter(|(x, y)| x * x + y * y < 256)
        .count();
    assert_eq!(p.len(), expected);
    assert_eq!(p[0], (0, 0));
    for w in p.windows(2) {
        assert!(w[0].0 * w[0].0 + w[0].1 * w[0].1 <= w[1].0 * w[1].0 + w[1].1 * w[1].1);
    }
    assert_eq!(priority_offsets(1), vec![(0, 0)]);
    assert_eq!(priority_offsets(2).len(), 9);
}

#[test]
fn scheduler_runs_once_per_chunk_crossing() {
    let mut world = World::new();
    let mut scheduler = Scheduler::new(2);
    let first = scheduler.advance(&mut world, ChunkId::new(0, 0));
    assert_eq!(first.len(), 9);
    assert_eq!(first[0], ChunkId::new(0, 0));
    assert!(scheduler.advance(&mut world, ChunkId::new(0, 0)).is_empty());
    let moved = scheduler.advance(&mut world, ChunkId::new(1, 0));
    // only the column x = 2 is new; ties in distance go by x, then y
    assert_eq!(moved, vec![ChunkId::new(2, 0), ChunkId::new(2, -1), ChunkId::new(2, 1)]);
}

#[test]
fn mesh_chunk_of_registered_chunk() {
    let mut world = World::new();
    let mut c = Chunk::new(ChunkId::new(0, 0));
    c.values[0] = 2;
    world.publish_chunk(c);
    let mesh = world.mesh_chunk(ChunkId::new(0, 0));
    // at the corner of an otherwise empty world: front, right and top faces only
    assert_eq!(mesh.indices.len(), 18);
}

#[test]
fn scheduler_skips_identities_beyond_the_world() {
    let mut world = World::new();
    let mut scheduler = Scheduler::new(2);
    let out = scheduler.advance(&mut world, ChunkId::new(CHUNK_ID_LIMIT, 0));
    assert_eq!(out.len(), 6);
    assert!(out.iter().all(|id| id.x <= CHUNK_ID_LIMIT));
    assert!(!world.is_generating(ChunkId::new(CHUNK_ID_LIMIT + 1, 0)));
}

#[test]
fn new_world_is_empty() {
    let mut world = World::new();
    assert!(!world.contains_chunk(ChunkId::new(0, 0)));
    assert!(!world.is_generating(ChunkId::new(0, 0)));
    assert!(world.chunk(ChunkId::new(0, 0)).is_none());
    assert!(world.take_mesh_queue().is_empty());
}
