use voxel_world::chunk::{generate_chunk, Chunk, Palette, TerrainConfig};
use voxel_world::coords::{grid_index, ChunkId, LocalPos, CHUNK_VOLUME};
use voxel_world::registry::World;

fn filled(id: ChunkId, value: u16) -> Chunk {
    let mut c = Chunk::new(id);
    c.values = vec![value; CHUNK_VOLUME];
    c
}

fn single(id: ChunkId, x: usize, y: usize, z: usize) -> Chunk {
    let mut c = Chunk::new(id);
    c.values[grid_index(x, y, z)] = 1;
    c
}

#[test]
fn generation_follows_the_surface_rule() {
    // density 0: solid iff 120 * y - 5000 < 0, i.e. y <= 41
    let density = vec![0; CHUNK_VOLUME];
    let c = generate_chunk(ChunkId::new(0, 0), &density, &Vec::new(), &TerrainConfig::standard());
    assert_eq!(c.values[grid_index(5, 41, 7)], 1);
    assert_eq!(c.values[grid_index(5, 42, 7)], 0);
    assert_eq!(c.values[grid_index(0, 0, 0)], 1);
    assert_eq!(c.values[grid_index(31, 95, 31)], 0);
    assert_eq!(c.chunk_id, ChunkId::new(0, 0));
}

#[test]
fn generation_uses_each_voxels_density() {
    let mut density = vec![0; CHUNK_VOLUME];
    density[grid_index(3, 60, 4)] = -3000; // -3000 + 7200 - 5000 < 0
    density[grid_index(3, 10, 4)] = 4000; // 4000 + 1200 - 5000 >= 0
    let c = generate_chunk(ChunkId::new(1, 1), &density, &Vec::new(), &TerrainConfig::standard());
    assert_eq!(c.values[grid_index(3, 60, 4)], 1);
    assert_eq!(c.values[grid_index(3, 10, 4)], 0);
}

#[test]
fn randomized_palette_picks_by_draw() {
    let config = TerrainConfig { vertical_bias: 0, threshold: 0, palette: Palette::Randomized(vec![2, 3, 4]) };
    assert!(config.is_randomized());
    let mut density = vec![-1; CHUNK_VOLUME];
    density[5] = 0;
    let draws: Vec<u32> = (0..CHUNK_VOLUME as u32).collect();
    let c = generate_chunk(ChunkId::new(0, 0), &density, &draws, &config);
    assert_eq!(c.values[0], 2);
    assert_eq!(c.values[1], 3);
    assert_eq!(c.values[2], 4);
    assert_eq!(c.values[3], 2);
    assert_eq!(c.values[5], 0);
}

#[test]
fn try_index_crosses_into_neighbors() {
    let mut world = World::new();
    let here = Chunk::new(ChunkId::new(0, 0));
    let mut east = Chunk::new(ChunkId::new(1, 0));
    east.values[grid_index(0, 5, 6)] = 4;
    let mut south_west = Chunk::new(ChunkId::new(-1, -1));
    south_west.values[grid_index(31, 7, 31)] = 3;
    world.publish_chunk(east);
    world.publish_chunk(south_west);
    let reader = world.chunk(ChunkId::new(0, 0));
    assert!(reader.is_none());
    assert_eq!(here.try_index(&world, LocalPos { x: 32, y: 5, z: 6 }), Some(4));
    assert_eq!(here.try_index(&world, LocalPos { x: 33, y: 5, z: 6 }), Some(0));
    assert_eq!(here.try_index(&world, LocalPos { x: -1, y: 7, z: -1 }), Some(3));
    // no chunk at (-1, 0) yet
    assert_eq!(here.try_index(&world, LocalPos { x: -1, y: 7, z: 0 }), None);
    // no chunks above or below
    assert_eq!(here.try_index(&world, LocalPos { x: 0, y: 96, z: 0 }), None);
    assert_eq!(here.try_index(&world, LocalPos { x: 0, y: -1, z: 0 }), None);
    assert_eq!(here.try_index(&world, LocalPos { x: 0, y: 0, z: 0 }), Some(0));
}

#[test]
fn single_voxel_meshes_to_six_quads() {
    let world = World::new();
    let c = single(ChunkId::new(0, 0), 10, 20, 30);
    let mesh = c.generate_mesh(&world);
    assert_eq!(mesh.vertices.len(), 24);
    assert_eq!(mesh.indices.len(), 36);
    assert_eq!(mesh.normals.len(), 24);
    assert_eq!(mesh.uvs.len(), 24);
    assert_eq!(mesh.ao, vec![0; 24]);
    // front face first, at z + 1
    assert_eq!(&mesh.vertices[0..4], &[(10, 20, 31), (11, 20, 31), (11, 21, 31), (10, 21, 31)]);
    // block 1 shows tile 3 on its sides and tile 0 on top
    assert_eq!(mesh.uvs[0], (3, 1));
    assert_eq!(&mesh.normals[16..20], &[(0, 1, 0); 4]);
    assert_eq!(mesh.uvs[16], (1, 1));
}

#[test]
fn voxel_at_boundary_without_neighbor_hides_that_face() {
    let world = World::new();
    let c = single(ChunkId::new(0, 0), 0, 20, 30);
    let mesh = c.generate_mesh(&world);
    // the left face looks into a chunk that does not exist yet
    assert_eq!(mesh.indices.len(), 30);
    assert!(!mesh.normals.contains(&(-1, 0, 0)));
}

#[test]
fn solid_chunk_alone_has_no_faces() {
    let world = World::new();
    let c = filled(ChunkId::new(0, 0), 1);
    let mesh = c.generate_mesh(&world);
    assert_eq!(mesh.vertices.len(), 0);
    assert_eq!(mesh.indices.len(), 0);
}

#[test]
fn solid_chunk_shows_faces_toward_empty_neighbor() {
    let mut world = World::new();
    world.publish_chunk(Chunk::new(ChunkId::new(1, 0)));
    world.publish_chunk(filled(ChunkId::new(0, 1), 1));
    let c = filled(ChunkId::new(0, 0), 1);
    let mesh = c.generate_mesh(&world);
    assert_eq!(mesh.indices.len(), 6 * 96 * 32);
    assert!(mesh.normals.iter().all(|n| *n == (1, 0, 0)));
    assert!(mesh.vertices.iter().all(|v| v.0 == 32));
    // corners along the top edge see one occupied edge sample below them
    assert!(mesh.ao.iter().all(|a| *a <= 2));
}

#[test]
fn corner_occlusion_from_neighbors() {
    let world = World::new();
    let mut c = Chunk::new(ChunkId::new(0, 0));
    c.values[grid_index(5, 5, 5)] = 1;
    c.values[grid_index(4, 6, 5)] = 1; // above-left of the top face
    c.values[grid_index(5, 6, 4)] = 1; // above-back of the top face
    let mesh = c.generate_mesh(&world);
    // corner 0 of the top face of (5,5,5) has both edge samples occupied
    let top = (0..mesh.vertices.len())
        .find(|i| mesh.normals[*i] == (0, 1, 0) && mesh.vertices[*i] == (5, 6, 5))
        .unwrap();
    assert_eq!(mesh.ao[top..top + 4], [3, 1, 0, 1]);
}
