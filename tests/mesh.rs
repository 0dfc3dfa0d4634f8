use voxel_world::mesh::{
    block_texture, choose_flip, face_at_index, get_ao, texture, BlockTexture, Face, TmpMesh,
};

#[test]
fn ao_combination() {
    assert_eq!(get_ao(true, true, false), 3);
    assert_eq!(get_ao(true, true, true), 3);
    assert_eq!(get_ao(false, false, false), 0);
    assert_eq!(get_ao(true, false, false), 1);
    assert_eq!(get_ao(false, true, true), 2);
    assert_eq!(get_ao(false, false, true), 1);
}

#[test]
fn flip_selects_opposite_diagonals() {
    let even = choose_flip([3, 0, 3, 0]);
    let odd = choose_flip([0, 3, 0, 3]);
    assert_ne!(even, odd);
    assert!(!even);
    assert!(odd);
    assert!(!choose_flip([1, 1, 1, 1]));

    let mut a = TmpMesh::new(4);
    a.add_face(Face::Top, (0, 0, 0), [3, 0, 3, 0], choose_flip([3, 0, 3, 0]), 0);
    let mut b = TmpMesh::new(4);
    b.add_face(Face::Top, (0, 0, 0), [0, 3, 0, 3], choose_flip([0, 3, 0, 3]), 0);
    assert_eq!(a.indices, vec![0, 1, 2, 0, 2, 3]);
    assert_eq!(b.indices, vec![1, 3, 0, 1, 2, 3]);
    assert_eq!(a.vertices, b.vertices);
}

#[test]
fn textures_per_face() {
    assert_eq!(texture(Face::Top, &BlockTexture::Sides(0, 2, 3)), 0);
    assert_eq!(texture(Face::Bottom, &BlockTexture::Sides(0, 2, 3)), 2);
    assert_eq!(texture(Face::Left, &BlockTexture::Sides(0, 2, 3)), 3);
    assert_eq!(texture(Face::Back, &BlockTexture::Opposite(44, 45, 62)), 44);
    assert_eq!(texture(Face::Right, &BlockTexture::Opposite(44, 45, 62)), 45);
    assert_eq!(texture(Face::Bottom, &BlockTexture::Opposite(44, 45, 62)), 62);
    assert_eq!(texture(Face::Front, &BlockTexture::Single(9)), 9);
    assert_eq!(block_texture(1), BlockTexture::Sides(0, 2, 3));
    assert_eq!(block_texture(5), BlockTexture::Opposite(44, 45, 62));
    assert_eq!(block_texture(6), BlockTexture::Opposite(60, 59, 43));
}

#[test]
fn add_face_front_geometry() {
    let mut m = TmpMesh::new(8);
    m.add_face(Face::Front, (1, 2, 3), [0, 1, 2, 3], false, 17);
    assert_eq!(m.vertices, vec![(1, 2, 4), (2, 2, 4), (2, 3, 4), (1, 3, 4)]);
    assert_eq!(m.normals, vec![(0, 0, 1); 4]);
    // tile 17 is column 1, row 1 of the atlas
    assert_eq!(m.uvs, vec![(1, 2), (2, 2), (2, 1), (1, 1)]);
    assert_eq!(m.ao, vec![0, 1, 2, 3]);
    assert_eq!(m.indices, vec![0, 1, 2, 0, 2, 3]);

    m.add_face(Face::Back, (0, 0, 0), [0, 0, 0, 0], true, 0);
    assert_eq!(&m.vertices[4..], &[(0, 0, 0), (0, 1, 0), (1, 1, 0), (1, 0, 0)]);
    assert_eq!(&m.normals[4..], &[(0, 0, -1); 4]);
    assert_eq!(&m.uvs[4..], &[(1, 1), (1, 0), (0, 0), (0, 1)]);
    assert_eq!(&m.indices[6..], &[5, 7, 4, 5, 6, 7]);
}

#[test]
fn face_order() {
    assert_eq!(face_at_index(0), Face::Front);
    assert_eq!(face_at_index(4), Face::Top);
    assert_eq!(face_at_index(5), Face::Bottom);
    assert_eq!(Face::Left.direction(), (-1, 0, 0));
    assert_eq!(Face::Top.corner(2), (1, 1, 1));
    assert_eq!(Face::Right.mask(1), (1, 1, 0));
}
