//! Face geometry, block textures, ambient occlusion and the triangle-list
//! accumulator that the mesher fills.
//!
//! Everything here is integral: positions are voxel corners, texture
//! coordinates are in sixteenths of the atlas, and ambient occlusion is kept
//! as a level `0..=3` that the renderer maps to a brightness.
use vstd::prelude::*;

verus! {

/// Tiles per row (and per column) of the texture atlas.
pub const ATLAS_TILES: u16 = 16;
/// Number of block ids that have a texture.
pub const BLOCK_KINDS: u16 = 7;

/// The six axis-aligned faces of a voxel.
#[derive(Clone, Copy, PartialEq, Eq, Structural, Debug)]
pub enum Face {
    Front,
    Back,
    Right,
    Left,
    Top,
    Bottom,
}

/// The faces in the order the mesher visits them.
pub open spec fn face_at(k: int) -> Face {
    if k == 0 {
        Face::Front
    } else if k == 1 {
        Face::Back
    } else if k == 2 {
        Face::Right
    } else if k == 3 {
        Face::Left
    } else if k == 4 {
        Face::Top
    } else {
        Face::Bottom
    }
}

/// The face visited `k`-th.
pub fn face_at_index(k: usize) -> (r: Face)
    requires
        k < 6,
    ensures
        r == face_at(k as int),
{
    match k {
        0 => Face::Front,
        1 => Face::Back,
        2 => Face::Right,
        3 => Face::Left,
        4 => Face::Top,
        _ => Face::Bottom,
    }
}

impl Face {
    /// Unit vector pointing out of the face.
    pub fn direction(self) -> (r: (i32, i32, i32))
        ensures
            (r.0 as int, r.1 as int, r.2 as int) == face_dir(self),
            -1 <= r.0 <= 1 && -1 <= r.1 <= 1 && -1 <= r.2 <= 1,
    {
        match self {
            Face::Front => (0, 0, 1),
            Face::Back => (0, 0, -1),
            Face::Right => (1, 0, 0),
            Face::Left => (-1, 0, 0),
            Face::Top => (0, 1, 0),
            Face::Bottom => (0, -1, 0),
        }
    }

    /// Offset to the diagonal occluder of corner `i`.
    pub fn corner(self, i: usize) -> (r: (i32, i32, i32))
        requires
            i < 4,
        ensures
            (r.0 as int, r.1 as int, r.2 as int) == corner_offset(self, i as int),
            -1 <= r.0 <= 1 && -1 <= r.1 <= 1 && -1 <= r.2 <= 1,
    {
        match self {
            Face::Front => if i == 0 { (-1, -1, 1) } else if i == 1 { (1, -1, 1) } else if i == 2 { (1, 1, 1) } else { (-1, 1, 1) },
            Face::Back => if i == 0 { (-1, -1, -1) } else if i == 1 { (-1, 1, -1) } else if i == 2 { (1, 1, -1) } else { (1, -1, -1) },
            Face::Right => if i == 0 { (1, -1, -1) } else if i == 1 { (1, 1, -1) } else if i == 2 { (1, 1, 1) } else { (1, -1, 1) },
            Face::Left => if i == 0 { (-1, -1, -1) } else if i == 1 { (-1, -1, 1) } else if i == 2 { (-1, 1, 1) } else { (-1, 1, -1) },
            Face::Top => if i == 0 { (-1, 1, -1) } else if i == 1 { (-1, 1, 1) } else if i == 2 { (1, 1, 1) } else { (1, 1, -1) },
            Face::Bottom => if i == 0 { (-1, -1, -1) } else if i == 1 { (1, -1, -1) } else if i == 2 { (1, -1, 1) } else { (-1, -1, 1) },
        }
    }

    /// Mask `e` (0 or 1) that projects a corner offset onto an edge occluder.
    pub fn mask(self, e: usize) -> (r: (i32, i32, i32))
        requires
            e < 2,
        ensures
            (r.0 as int, r.1 as int, r.2 as int) == edge_mask(self, e as int),
            0 <= r.0 <= 1 && 0 <= r.1 <= 1 && 0 <= r.2 <= 1,
    {
        match self {
            Face::Front | Face::Back => if e == 0 { (0, 1, 1) } else { (1, 0, 1) },
            Face::Right | Face::Left => if e == 0 { (1, 0, 1) } else { (1, 1, 0) },
            Face::Top | Face::Bottom => if e == 0 { (0, 1, 1) } else { (1, 1, 0) },
        }
    }
}

/// An integer 3-vector.
pub type Vec3i = (i32, i32, i32);

pub open spec fn face_dir(f: Face) -> (int, int, int) {
    match f {
        Face::Front => (0, 0, 1),
        Face::Back => (0, 0, -1),
        Face::Right => (1, 0, 0),
        Face::Left => (-1, 0, 0),
        Face::Top => (0, 1, 0),
        Face::Bottom => (0, -1, 0),
    }
}

/// Offset from a voxel to the diagonal occluder at corner `i` of face `f`.
pub open spec fn corner_offset(f: Face, i: int) -> (int, int, int) {
    match f {
        Face::Front => if i == 0 { (-1, -1, 1) } else if i == 1 { (1, -1, 1) } else if i == 2 { (1, 1, 1) } else { (-1, 1, 1) },
        Face::Back => if i == 0 { (-1, -1, -1) } else if i == 1 { (-1, 1, -1) } else if i == 2 { (1, 1, -1) } else { (1, -1, -1) },
        Face::Right => if i == 0 { (1, -1, -1) } else if i == 1 { (1, 1, -1) } else if i == 2 { (1, 1, 1) } else { (1, -1, 1) },
        Face::Left => if i == 0 { (-1, -1, -1) } else if i == 1 { (-1, -1, 1) } else if i == 2 { (-1, 1, 1) } else { (-1, 1, -1) },
        Face::Top => if i == 0 { (-1, 1, -1) } else if i == 1 { (-1, 1, 1) } else if i == 2 { (1, 1, 1) } else { (1, 1, -1) },
        Face::Bottom => if i == 0 { (-1, -1, -1) } else if i == 1 { (1, -1, -1) } else if i == 2 { (1, -1, 1) } else { (-1, -1, 1) },
    }
}

/// The two masks that project a corner offset onto an edge occluder of face `f`.
pub open spec fn edge_mask(f: Face, e: int) -> (int, int, int) {
    match f {
        Face::Front | Face::Back => if e == 0 { (0, 1, 1) } else { (1, 0, 1) },
        Face::Right | Face::Left => if e == 0 { (1, 0, 1) } else { (1, 1, 0) },
        Face::Top | Face::Bottom => if e == 0 { (0, 1, 1) } else { (1, 1, 0) },
    }
}

/// Offset of vertex `j` of face `f` from the voxel's minimum corner.
pub open spec fn vertex_offset(f: Face, j: int) -> (int, int, int) {
    match f {
        Face::Front => if j == 0 { (0, 0, 1) } else if j == 1 { (1, 0, 1) } else if j == 2 { (1, 1, 1) } else { (0, 1, 1) },
        Face::Back => if j == 0 { (0, 0, 0) } else if j == 1 { (0, 1, 0) } else if j == 2 { (1, 1, 0) } else { (1, 0, 0) },
        Face::Right => if j == 0 { (1, 0, 0) } else if j == 1 { (1, 1, 0) } else if j == 2 { (1, 1, 1) } else { (1, 0, 1) },
        Face::Left => if j == 0 { (0, 0, 0) } else if j == 1 { (0, 0, 1) } else if j == 2 { (0, 1, 1) } else { (0, 1, 0) },
        Face::Top => if j == 0 { (0, 1, 0) } else if j == 1 { (0, 1, 1) } else if j == 2 { (1, 1, 1) } else { (1, 1, 0) },
        Face::Bottom => if j == 0 { (0, 0, 0) } else if j == 1 { (1, 0, 0) } else if j == 2 { (1, 0, 1) } else { (0, 0, 1) },
    }
}

/// Which corner of the atlas tile vertex `j` of face `f` takes, as `(du, dv)`
/// (`(0, 0)` is the tile's top left).
pub open spec fn uv_corner(f: Face, j: int) -> (int, int) {
    let bl = (0int, 1int);
    let br = (1int, 1int);
    let tr = (1int, 0int);
    let tl = (0int, 0int);
    match f {
        Face::Front | Face::Left | Face::Bottom => if j == 0 { bl } else if j == 1 { br } else if j == 2 { tr } else { tl },
        Face::Back | Face::Right | Face::Top => if j == 0 { br } else if j == 1 { tr } else if j == 2 { tl } else { bl },
    }
}

/// Offsets into a quad's four vertices of its six triangle-list indices.
/// Unflipped, the two triangles share the diagonal 0-2; flipped, 1-3.
pub open spec fn quad_index_offset(flip: bool, k: int) -> int {
    if !flip {
        if k == 0 { 0 } else if k == 1 { 1 } else if k == 2 { 2 } else if k == 3 { 0 } else if k == 4 { 2 } else { 3 }
    } else {
        if k == 0 { 1 } else if k == 1 { 3 } else if k == 2 { 0 } else if k == 3 { 1 } else if k == 4 { 2 } else { 3 }
    }
}

/// How a block id maps face orientations to atlas tiles.
#[derive(Clone, Copy, PartialEq, Eq, Structural, Debug)]
pub enum BlockTexture {
    /// One tile on every face.
    Single(u16),
    /// Top, bottom, and the four sides.
    Sides(u16, u16, u16),
    /// Front and back, right and left, top and bottom.
    Opposite(u16, u16, u16),
}

pub open spec fn block_texture_spec(id: u16) -> BlockTexture {
    if id == 0 {
        BlockTexture::Single(153)
    } else if id == 1 {
        BlockTexture::Sides(0, 2, 3)
    } else if id == 2 {
        BlockTexture::Single(1)
    } else if id == 3 {
        BlockTexture::Single(2)
    } else if id == 4 {
        BlockTexture::Single(4)
    } else if id == 5 {
        BlockTexture::Opposite(44, 45, 62)
    } else {
        BlockTexture::Opposite(60, 59, 43)
    }
}

/// The texture policy of block id `id`.
pub fn block_texture(id: u16) -> (r: BlockTexture)
    requires
        id < BLOCK_KINDS,
    ensures
        r == block_texture_spec(id),
{
    match id {
        0 => BlockTexture::Single(153),
        1 => BlockTexture::Sides(0, 2, 3),
        2 => BlockTexture::Single(1),
        3 => BlockTexture::Single(2),
        4 => BlockTexture::Single(4),
        5 => BlockTexture::Opposite(2 * 16 + 12, 2 * 16 + 13, 3 * 16 + 14),
        _ => BlockTexture::Opposite(3 * 16 + 12, 3 * 16 + 11, 2 * 16 + 11),
    }
}

pub open spec fn texture_spec(face: Face, block: BlockTexture) -> u16 {
    match block {
        BlockTexture::Single(i) => i,
        BlockTexture::Sides(t, b, s) => match face {
            Face::Top => t,
            Face::Bottom => b,
            _ => s,
        },
        BlockTexture::Opposite(f, r, t) => match face {
            Face::Front | Face::Back => f,
            Face::Right | Face::Left => r,
            Face::Top | Face::Bottom => t,
        },
    }
}

/// The atlas tile that `block` shows on `face`.
pub fn texture(face: Face, block: &BlockTexture) -> (r: u16)
    ensures
        r == texture_spec(face, *block),
{
    match block {
        BlockTexture::Single(i) => *i,
        BlockTexture::Sides(t, b, s) => match face {
            Face::Front => *s,
            Face::Back => *s,
            Face::Right => *s,
            Face::Left => *s,
            Face::Top => *t,
            Face::Bottom => *b,
        },
        BlockTexture::Opposite(f, r, t) => match face {
            Face::Front => *f,
            Face::Back => *f,
            Face::Right => *r,
            Face::Left => *r,
            Face::Top => *t,
            Face::Bottom => *t,
        },
    }
}

/// Occlusion level of a corner from its two edge occluders and its diagonal one.
pub open spec fn ao_level(e1: bool, e2: bool, c: bool) -> nat {
    if e1 && e2 {
        3
    } else {
        (if e1 { 1nat } else { 0 }) + (if e2 { 1nat } else { 0 }) + (if c { 1nat } else { 0 })
    }
}

/// Occlusion level `0..=3` of a quad corner: 3 when both edges are occupied,
/// else the number of occupied samples.
pub fn get_ao(e1: bool, e2: bool, c: bool) -> (r: usize)
    ensures
        r == ao_level(e1, e2, c),
        r <= 3,
{
    if e1 && e2 {
        return 3;
    }
    (e1 as usize) + (e2 as usize) + (c as usize)
}

/// Whether a quad with corner occlusion levels `ao` is split along its 1-3
/// diagonal: the split runs along the more occluded diagonal, 0-2 on a tie.
pub open spec fn flip_spec(ao: [u8; 4]) -> bool {
    ao[1] + ao[3] > ao[0] + ao[2]
}

pub fn choose_flip(ao: [u8; 4]) -> (r: bool)
    ensures
        r == flip_spec(ao),
{
    (ao[1] as u16) + (ao[3] as u16) > (ao[0] as u16) + (ao[2] as u16)
}

/// One emitted face: the voxel it belongs to, its orientation, the occlusion
/// level of each corner, its triangle split and its atlas tile.
#[derive(Clone, Copy, Debug)]
pub struct Quad {
    pub face: Face,
    pub x: i32,
    pub y: i32,
    pub z: i32,
    pub ao: [u8; 4],
    pub flip: bool,
    pub tile: u16,
}

pub open spec fn quad_vertex(q: Quad, j: int) -> Vec3i {
    let o = vertex_offset(q.face, j);
    ((q.x + o.0) as i32, (q.y + o.1) as i32, (q.z + o.2) as i32)
}

pub open spec fn quad_uv(q: Quad, j: int) -> (u16, u16) {
    let c = uv_corner(q.face, j);
    (((q.tile % 16) + c.0) as u16, ((q.tile / 16) + c.1) as u16)
}

pub open spec fn quad_vertices(q: Quad) -> Seq<Vec3i> {
    seq![quad_vertex(q, 0), quad_vertex(q, 1), quad_vertex(q, 2), quad_vertex(q, 3)]
}

pub open spec fn face_normal(f: Face) -> Vec3i {
    let d = face_dir(f);
    (d.0 as i32, d.1 as i32, d.2 as i32)
}

pub open spec fn quad_normals(q: Quad) -> Seq<Vec3i> {
    seq![face_normal(q.face), face_normal(q.face), face_normal(q.face), face_normal(q.face)]
}

pub open spec fn quad_uvs(q: Quad) -> Seq<(u16, u16)> {
    seq![quad_uv(q, 0), quad_uv(q, 1), quad_uv(q, 2), quad_uv(q, 3)]
}

pub open spec fn quad_aos(q: Quad) -> Seq<u8> {
    seq![q.ao[0], q.ao[1], q.ao[2], q.ao[3]]
}

/// The six indices of a quad whose first vertex is `base`.
pub open spec fn quad_indices(base: int, flip: bool) -> Seq<u32> {
    Seq::new(6, |k: int| (base + quad_index_offset(flip, k)) as u32)
}

pub open spec fn vertices_of(qs: Seq<Quad>) -> Seq<Vec3i>
    decreases qs.len(),
{
    if qs.len() == 0 {
        Seq::empty()
    } else {
        vertices_of(qs.drop_last()) + quad_vertices(qs.last())
    }
}

pub open spec fn normals_of(qs: Seq<Quad>) -> Seq<Vec3i>
    decreases qs.len(),
{
    if qs.len() == 0 {
        Seq::empty()
    } else {
        normals_of(qs.drop_last()) + quad_normals(qs.last())
    }
}

pub open spec fn uvs_of(qs: Seq<Quad>) -> Seq<(u16, u16)>
    decreases qs.len(),
{
    if qs.len() == 0 {
        Seq::empty()
    } else {
        uvs_of(qs.drop_last()) + quad_uvs(qs.last())
    }
}

pub open spec fn aos_of(qs: Seq<Quad>) -> Seq<u8>
    decreases qs.len(),
{
    if qs.len() == 0 {
        Seq::empty()
    } else {
        aos_of(qs.drop_last()) + quad_aos(qs.last())
    }
}

pub open spec fn indices_of(qs: Seq<Quad>) -> Seq<u32>
    decreases qs.len(),
{
    if qs.len() == 0 {
        Seq::empty()
    } else {
        indices_of(qs.drop_last()) + quad_indices(4 * (qs.len() - 1), qs.last().flip)
    }
}

/// Triangle-list mesh under construction: four vertices and six indices per quad.
pub struct TmpMesh {
    pub vertices: Vec<Vec3i>,
    pub normals: Vec<Vec3i>,
    /// Texture coordinates in sixteenths of the atlas.
    pub uvs: Vec<(u16, u16)>,
    /// Occlusion level `0..=3` of each vertex.
    pub ao: Vec<u8>,
    pub indices: Vec<u32>,
}

impl TmpMesh {
    /// The mesh consists of exactly the quads `qs`, in order.
    pub open spec fn holds(self, qs: Seq<Quad>) -> bool {
        &&& self.vertices@ == vertices_of(qs)
        &&& self.normals@ == normals_of(qs)
        &&& self.uvs@ == uvs_of(qs)
        &&& self.ao@ == aos_of(qs)
        &&& self.indices@ == indices_of(qs)
    }

    /// An empty mesh.
    pub fn new(capacity: usize) -> (r: TmpMesh)
        ensures
            r.holds(Seq::empty()),
    {
        let r = TmpMesh {
            vertices: Vec::with_capacity(capacity),
            normals: Vec::with_capacity(capacity),
            uvs: Vec::with_capacity(capacity),
            ao: Vec::with_capacity(capacity),
            indices: Vec::with_capacity(capacity),
        };
        proof {
            assert(r.vertices@ =~= vertices_of(Seq::empty()));
            assert(r.normals@ =~= normals_of(Seq::empty()));
            assert(r.uvs@ =~= uvs_of(Seq::empty()));
            assert(r.ao@ =~= aos_of(Seq::empty()));
            assert(r.indices@ =~= indices_of(Seq::empty()));
        }
        r
    }

    /// Appends one quad: four vertices with their normal, texture corner and
    /// occlusion level, and the six indices of its two triangles.
    pub fn add_face(&mut self, face: Face, o: (i32, i32, i32), ao: [u8; 4], flip: bool, texture_id: u16)
        requires
            old(self).vertices.len() + 4 <= u32::MAX,
            o.0 < i32::MAX && o.1 < i32::MAX && o.2 < i32::MAX,
        ensures
            ({
                let q = Quad { face, x: o.0, y: o.1, z: o.2, ao, flip, tile: texture_id };
                &&& final(self).vertices@ == old(self).vertices@ + quad_vertices(q)
                &&& final(self).normals@ == old(self).normals@ + quad_normals(q)
                &&& final(self).uvs@ == old(self).uvs@ + quad_uvs(q)
                &&& final(self).ao@ == old(self).ao@ + quad_aos(q)
                &&& final(self).indices@ == old(self).indices@ + quad_indices(
                    old(self).vertices.len() as int,
                    flip,
                )
            }),
    {
        let ghost q = Quad { face, x: o.0, y: o.1, z: o.2, ao, flip, tile: texture_id };
        let (x, y, z) = o;

        self.ao.push(ao[0]);
        self.ao.push(ao[1]);
        self.ao.push(ao[2]);
        self.ao.push(ao[3]);

        let a = self.vertices.len() as u32;
        if !flip {
            self.indices.push(a);
            self.indices.push(a + 1);
            self.indices.push(a + 2);
            self.indices.push(a);
            self.indices.push(a + 2);
            self.indices.push(a + 3);
        } else {
            self.indices.push(a + 1);
            self.indices.push(a + 3);
            self.indices.push(a);
            self.indices.push(a + 1);
            self.indices.push(a + 2);
            self.indices.push(a + 3);
        }

        let tex_y = texture_id / ATLAS_TILES;
        let tex_x = texture_id - tex_y * ATLAS_TILES;

        let tl = (tex_x, tex_y);
        let tr = (tex_x + 1, tex_y);
        let bl = (tex_x, tex_y + 1);
        let br = (tex_x + 1, tex_y + 1);

        let (v0, v1, v2, v3, n) = match face {
            Face::Front => ((x, y, z + 1), (x + 1, y, z + 1), (x + 1, y + 1, z + 1), (x, y + 1, z + 1), (0, 0, 1)),
            Face::Back => ((x, y, z), (x, y + 1, z), (x + 1, y + 1, z), (x + 1, y, z), (0, 0, -1)),
            Face::Right => ((x + 1, y, z), (x + 1, y + 1, z), (x + 1, y + 1, z + 1), (x + 1, y, z + 1), (1, 0, 0)),
            Face::Left => ((x, y, z), (x, y, z + 1), (x, y + 1, z + 1), (x, y + 1, z), (-1, 0, 0)),
            Face::Top => ((x, y + 1, z), (x, y + 1, z + 1), (x + 1, y + 1, z + 1), (x + 1, y + 1, z), (0, 1, 0)),
            Face::Bottom => ((x, y, z), (x + 1, y, z), (x + 1, y, z + 1), (x, y, z + 1), (0, -1, 0)),
        };
        self.vertices.push(v0);
        self.vertices.push(v1);
        self.vertices.push(v2);
        self.vertices.push(v3);
        self.normals.push(n);
        self.normals.push(n);
        self.normals.push(n);
        self.normals.push(n);

        let (u0, u1, u2, u3) = match face {
            Face::Front | Face::Left | Face::Bottom => (bl, br, tr, tl),
            Face::Back | Face::Right | Face::Top => (br, tr, tl, bl),
        };
        self.uvs.push(u0);
        self.uvs.push(u1);
        self.uvs.push(u2);
        self.uvs.push(u3);

        proof {
            assert(final(self).vertices@ =~= old(self).vertices@ + quad_vertices(q));
            assert(final(self).normals@ =~= old(self).normals@ + quad_normals(q));
            assert(final(self).uvs@ =~= old(self).uvs@ + quad_uvs(q));
            assert(final(self).ao@ =~= old(self).ao@ + quad_aos(q));
            assert(final(self).indices@ =~= old(self).indices@ + quad_indices(
                old(self).vertices.len() as int,
                flip,
            ));
        }
    }
}

/// Each quad contributes four vertices.
pub proof fn lemma_vertices_len(qs: Seq<Quad>)
    ensures
        vertices_of(qs).len() == 4 * qs.len(),
        normals_of(qs).len() == 4 * qs.len(),
        uvs_of(qs).len() == 4 * qs.len(),
        aos_of(qs).len() == 4 * qs.len(),
        indices_of(qs).len() == 6 * qs.len(),
    decreases qs.len(),
{
    if qs.len() > 0 {
        lemma_vertices_len(qs.drop_last());
    }
}

/// Appending a quad through `add_face` keeps the mesh equal to its quad list.
pub proof fn lemma_holds_push(before: TmpMesh, after: TmpMesh, qs: Seq<Quad>, q: Quad)
    requires
        before.holds(qs),
        after.vertices@ == before.vertices@ + quad_vertices(q),
        after.normals@ == before.normals@ + quad_normals(q),
        after.uvs@ == before.uvs@ + quad_uvs(q),
        after.ao@ == before.ao@ + quad_aos(q),
        after.indices@ == before.indices@ + quad_indices(before.vertices.len() as int, q.flip),
    ensures
        after.holds(qs.push(q)),
{
    lemma_vertices_len(qs);
    assert(qs.push(q).drop_last() =~= qs);
}

/// Flip selection is symmetric: exchanging the occlusion of the 0-2 corner
/// pair with that of the 1-3 pair selects the other diagonal (and so the
/// other index winding), unless the two pairs are equally occluded.
pub proof fn lemma_flip_swaps_with_pairs(ao: [u8; 4], swapped: [u8; 4], base: int)
    requires
        swapped[0] == ao[1] && swapped[1] == ao[0] && swapped[2] == ao[3] && swapped[3] == ao[2],
        ao[0] + ao[2] != ao[1] + ao[3],
        0 <= base <= u32::MAX - 4,
    ensures
        flip_spec(ao) != flip_spec(swapped),
        quad_indices(base, flip_spec(ao)) != quad_indices(base, flip_spec(swapped)),
{
    assert(quad_indices(base, true)[0] != quad_indices(base, false)[0]);
}

} // verus!
