//! One chunk's voxel grid: its generation and the lookups that may cross
//! into neighboring chunks.
use vstd::prelude::*;

use vstd::arithmetic::div_mod::lemma_fundamental_div_mod_converse;

use crate::coords::{
    div_floor, floor_div_spec, grid_index, in_grid, lemma_voxel_index_bounds, lemma_voxel_of_in_grid,
    voxel_index, voxel_of,
    ChunkId, LocalPos, CHUNK_SIZE_X, CHUNK_SIZE_Y, CHUNK_SIZE_Z, CHUNK_VOLUME,
};
use crate::mesh::{
    ao_level, block_texture, block_texture_spec, choose_flip, corner_offset, edge_mask, face_at,
    face_at_index, face_dir, flip_spec, get_ao, lemma_holds_push, lemma_vertices_len, texture,
    texture_spec, indices_of, vertices_of, Face, Quad, TmpMesh, BLOCK_KINDS,
};
use crate::registry::World;

verus! {

/// A chunk: its identity and its dense grid of block ids (0 is empty),
/// stored at `x + y * X + z * X * Y`.
pub struct Chunk {
    pub chunk_id: ChunkId,
    pub values: Vec<u16>,
}

/// Which solid block ids generation writes.
pub enum Palette {
    /// Every solid voxel gets this id.
    Single(u16),
    /// A solid voxel gets `ids[draw % ids.len()]`, `draw` being its own random draw.
    Randomized(Vec<u16>),
}

/// Terrain shaping, in thousandths of the noise unit: a voxel at height `y`
/// with density `d` is solid iff `d + y * vertical_bias - threshold < 0`.
pub struct TerrainConfig {
    pub vertical_bias: i32,
    pub threshold: i32,
    pub palette: Palette,
}

/// A block id that can be drawn: solid and textured.
pub open spec fn solid_id(id: u16) -> bool {
    0 < id < BLOCK_KINDS
}

impl TerrainConfig {
    pub open spec fn wf(&self) -> bool {
        match self.palette {
            Palette::Single(id) => solid_id(id),
            Palette::Randomized(ids) => ids.len() > 0 && forall|i: int|
                0 <= i < ids.len() ==> solid_id(#[trigger] ids@[i]),
        }
    }

    /// Whether a voxel at height `y` with density `density` is solid.
    pub open spec fn is_solid(&self, density: int, y: int) -> bool {
        density + y * self.vertical_bias - self.threshold < 0
    }

    /// The block id generation writes for a voxel.
    pub open spec fn voxel_value(&self, density: int, y: int, draw: u32) -> u16 {
        if !self.is_solid(density, y) {
            0
        } else {
            match self.palette {
                Palette::Single(id) => id,
                Palette::Randomized(ids) => ids@[(draw as int) % (ids.len() as int)],
            }
        }
    }

    /// Horizon near height 42: bias 0.12 per voxel, threshold 5, one solid id.
    pub fn standard() -> (r: TerrainConfig)
        ensures
            r.wf(),
            r.vertical_bias == 120,
            r.threshold == 5000,
            r.palette == Palette::Single(1),
    {
        TerrainConfig { vertical_bias: 120, threshold: 5000, palette: Palette::Single(1) }
    }

    /// Whether generation draws a random number per voxel.
    pub fn is_randomized(&self) -> (r: bool)
        ensures
            r == (self.palette is Randomized),
    {
        match self.palette {
            Palette::Single(_) => false,
            Palette::Randomized(_) => true,
        }
    }
}

impl ChunkId {
    /// World-space position of the chunk's grid origin.
    pub fn world_origin(self) -> (r: (i32, i32, i32))
        requires
            self.valid(),
        ensures
            r == ((self.x * CHUNK_SIZE_X) as i32, 0i32, (self.y * CHUNK_SIZE_Z) as i32),
    {
        (self.x * (CHUNK_SIZE_X as i32), 0, self.y * (CHUNK_SIZE_Z as i32))
    }
}

/// Whether a lookup result counts as occupied, `unknown` standing for a missing neighbor.
pub open spec fn occupied(r: Option<u16>, unknown: bool) -> bool {
    match r {
        Some(v) => v != 0,
        None => unknown,
    }
}

impl Chunk {
    pub open spec fn wf(&self) -> bool {
        &&& self.values.len() == CHUNK_VOLUME
        &&& forall|i: int| 0 <= i < CHUNK_VOLUME ==> #[trigger] self.values@[i] < BLOCK_KINDS
    }

    /// The block id at an in-grid voxel.
    pub open spec fn at(&self, x: int, y: int, z: int) -> u16 {
        self.values@[voxel_index(x, y, z)]
    }

    /// The block id at local position `(x, y, z)`, reading the neighbor chunk
    /// that holds it when it lies beyond the grid in x or z; `None` when it is
    /// above or below the grid or that neighbor is not in `chunks`.
    pub open spec fn lookup(&self, chunks: Map<(i32, i32), Chunk>, x: int, y: int, z: int) -> Option<u16> {
        if y < 0 || y >= CHUNK_SIZE_Y {
            None
        } else if 0 <= x < CHUNK_SIZE_X && 0 <= z < CHUNK_SIZE_Z {
            Some(self.at(x, y, z))
        } else {
            let ox = floor_div_spec(x, CHUNK_SIZE_X as int);
            let oz = floor_div_spec(z, CHUNK_SIZE_Z as int);
            let key = ((self.chunk_id.x + ox) as i32, (self.chunk_id.y + oz) as i32);
            if chunks.contains_key(key) {
                Some(chunks[key].at(x - ox * CHUNK_SIZE_X, y, z - oz * CHUNK_SIZE_Z))
            } else {
                None
            }
        }
    }

    /// An empty chunk.
    pub fn new(chunk_id: ChunkId) -> (r: Chunk)
        ensures
            r.wf(),
            r.chunk_id == chunk_id,
            forall|i: int| 0 <= i < CHUNK_VOLUME ==> #[trigger] r.values@[i] == 0,
    {
        Chunk { chunk_id, values: vec![0u16; CHUNK_VOLUME] }
    }

    /// Fills the grid from one density per voxel (thousandths of the noise
    /// unit, in grid order) and, for a randomized palette, one draw per voxel.
    pub fn generate(&mut self, density: &Vec<i32>, draws: &Vec<u32>, config: &TerrainConfig)
        requires
            old(self).wf(),
            density.len() == CHUNK_VOLUME,
            config.wf(),
            config.palette is Randomized ==> draws.len() == CHUNK_VOLUME,
        ensures
            final(self).wf(),
            final(self).chunk_id == old(self).chunk_id,
            forall|i: int|
                0 <= i < CHUNK_VOLUME ==> #[trigger] final(self).values@[i] == config.voxel_value(
                    density@[i] as int,
                    voxel_of(i).1,
                    draws@[i],
                ),
    {
        let mut i: usize = 0;
        while i < CHUNK_VOLUME
            invariant
                i <= CHUNK_VOLUME,
                self.wf(),
                self.chunk_id == old(self).chunk_id,
                density.len() == CHUNK_VOLUME,
                config.wf(),
                config.palette is Randomized ==> draws.len() == CHUNK_VOLUME,
                forall|j: int|
                    0 <= j < i ==> #[trigger] self.values@[j] == config.voxel_value(
                        density@[j] as int,
                        voxel_of(j).1,
                        draws@[j],
                    ),
            decreases CHUNK_VOLUME - i,
        {
            let y = (i / CHUNK_SIZE_X) % CHUNK_SIZE_Y;
            assert(y == voxel_of(i as int).1);
            let ghost bias = config.vertical_bias as int;
            assert(-95 * 2147483648 <= y * bias <= 95 * 2147483648) by (nonlinear_arith)
                requires 0 <= y < 96, -2147483648 <= bias <= 2147483647;
            let level = density[i] as i64 + (y as i64) * (config.vertical_bias as i64)
                - config.threshold as i64;
            let value: u16 = if level < 0 {
                match &config.palette {
                    Palette::Single(id) => *id,
                    Palette::Randomized(ids) => {
                        let k = (draws[i] as usize) % ids.len();
                        assert(solid_id(ids@[k as int]));
                        ids[k]
                    },
                }
            } else {
                0
            };
            self.values.set(i, value);
            i = i + 1;
        }
    }

    /// The block id at a local position that may lie in a neighboring chunk;
    /// `None` when no chunk holds it yet or it is outside the world's height.
    pub fn try_index(&self, world: &World, pos: LocalPos) -> (r: Option<u16>)
        requires
            self.wf(),
            self.chunk_id.valid(),
            world.wf(),
        ensures
            r == self.lookup(world.chunk_map(), pos.x as int, pos.y as int, pos.z as int),
    {
        if pos.y < 0 || pos.y >= CHUNK_SIZE_Y as i32 {
            return None;
        }
        if pos.x < 0 || pos.x >= CHUNK_SIZE_X as i32 || pos.z < 0 || pos.z >= CHUNK_SIZE_Z as i32 {
            let x = div_floor(pos.x, CHUNK_SIZE_X as i32);
            let z = div_floor(pos.z, CHUNK_SIZE_Z as i32);
            assert(-67108864 <= x < 67108864 && -67108864 <= z < 67108864) by (nonlinear_arith)
                requires
                    x * 32 <= pos.x < x * 32 + 32,
                    z * 32 <= pos.z < z * 32 + 32,
                    i32::MIN <= pos.x <= i32::MAX,
                    i32::MIN <= pos.z <= i32::MAX,
            ;
            let id = ChunkId::new(self.chunk_id.x + x, self.chunk_id.y + z);
            match world.chunk(id) {
                Some(chunk) => {
                    let lx = (pos.x as i64 - (x as i64) * 32) as usize;
                    let lz = (pos.z as i64 - (z as i64) * 32) as usize;
                    let i = grid_index(lx, pos.y as usize, lz);
                    Some(chunk.values[i])
                },
                None => None,
            }
        } else {
            let i = grid_index(pos.x as usize, pos.y as usize, pos.z as usize);
            Some(self.values[i])
        }
    }
}

impl Chunk {
    /// The lookup at `p + d`.
    pub open spec fn sample(&self, chunks: Map<(i32, i32), Chunk>, p: (int, int, int), d: (int, int, int)) -> Option<u16> {
        self.lookup(chunks, p.0 + d.0, p.1 + d.1, p.2 + d.2)
    }

    /// Occlusion level of corner `i` of face `f` of the voxel at `p`; a
    /// missing neighbor counts as empty.
    pub open spec fn corner_level(&self, chunks: Map<(i32, i32), Chunk>, p: (int, int, int), f: Face, i: int) -> u8 {
        let o = corner_offset(f, i);
        let m0 = edge_mask(f, 0);
        let m1 = edge_mask(f, 1);
        let e1 = occupied(self.sample(chunks, p, (o.0 * m0.0, o.1 * m0.1, o.2 * m0.2)), false);
        let e2 = occupied(self.sample(chunks, p, (o.0 * m1.0, o.1 * m1.1, o.2 * m1.2)), false);
        let c = occupied(self.sample(chunks, p, o), false);
        ao_level(e1, e2, c) as u8
    }

    /// Whether face `f` of voxel `v` (a grid position) is drawn: the voxel is
    /// solid and the voxel beyond the face is known to be empty.
    pub open spec fn face_visible(&self, chunks: Map<(i32, i32), Chunk>, v: int, f: Face) -> bool {
        self.values@[v] != 0 && self.sample(chunks, voxel_of(v), face_dir(f)) == Some(0u16)
    }

    /// The quad drawn for face `f` of voxel `v`, if it is visible.
    pub open spec fn face_quad(&self, chunks: Map<(i32, i32), Chunk>, v: int, f: Face) -> Option<Quad> {
        let p = voxel_of(v);
        if self.face_visible(chunks, v, f) {
            let ao = [
                self.corner_level(chunks, p, f, 0),
                self.corner_level(chunks, p, f, 1),
                self.corner_level(chunks, p, f, 2),
                self.corner_level(chunks, p, f, 3),
            ];
            Some(
                Quad {
                    face: f,
                    x: p.0 as i32,
                    y: p.1 as i32,
                    z: p.2 as i32,
                    ao,
                    flip: flip_spec(ao),
                    tile: texture_spec(f, block_texture_spec(self.values@[v])),
                },
            )
        } else {
            None
        }
    }

    /// Quads of the first `k` faces of voxel `v`.
    pub open spec fn voxel_quads(&self, chunks: Map<(i32, i32), Chunk>, v: int, k: int) -> Seq<Quad>
        decreases k,
    {
        if k <= 0 {
            Seq::empty()
        } else {
            let prev = self.voxel_quads(chunks, v, k - 1);
            match self.face_quad(chunks, v, face_at(k - 1)) {
                Some(q) => prev.push(q),
                None => prev,
            }
        }
    }

    /// Quads of the voxels at grid positions below `n`.
    pub open spec fn quads_upto(&self, chunks: Map<(i32, i32), Chunk>, n: int) -> Seq<Quad>
        decreases n,
    {
        if n <= 0 {
            Seq::empty()
        } else {
            self.quads_upto(chunks, n - 1) + self.voxel_quads(chunks, n - 1, 6)
        }
    }

    /// Every quad of the chunk's surface, voxel by voxel in grid order and
    /// face by face in visiting order.
    pub open spec fn quads(&self, chunks: Map<(i32, i32), Chunk>) -> Seq<Quad> {
        self.quads_upto(chunks, CHUNK_VOLUME as int)
    }

    /// Whether the voxel at `p + d` is occupied, a missing neighbor counting as empty.
    fn occluder(&self, world: &World, p: (i32, i32, i32), d: (i32, i32, i32)) -> (r: bool)
        requires
            self.wf(),
            self.chunk_id.valid(),
            world.wf(),
            in_grid(p.0 as int, p.1 as int, p.2 as int),
            -1 <= d.0 <= 1 && -1 <= d.1 <= 1 && -1 <= d.2 <= 1,
        ensures
            r == occupied(
                self.sample(world.chunk_map(), (p.0 as int, p.1 as int, p.2 as int), (d.0 as int, d.1 as int, d.2 as int)),
                false,
            ),
    {
        match self.try_index(world, LocalPos { x: p.0 + d.0, y: p.1 + d.1, z: p.2 + d.2 }) {
            Some(v) => v != 0,
            None => false,
        }
    }

    /// Occlusion level of corner `i` of face `f` of the voxel at `p`.
    fn corner_ao(&self, world: &World, p: (i32, i32, i32), f: Face, i: usize) -> (r: u8)
        requires
            self.wf(),
            self.chunk_id.valid(),
            world.wf(),
            in_grid(p.0 as int, p.1 as int, p.2 as int),
            i < 4,
        ensures
            r == self.corner_level(world.chunk_map(), (p.0 as int, p.1 as int, p.2 as int), f, i as int),
    {
        let o = f.corner(i);
        let m0 = f.mask(0);
        let m1 = f.mask(1);
        assert(-1 <= o.0 * m0.0 <= 1 && -1 <= o.1 * m0.1 <= 1 && -1 <= o.2 * m0.2 <= 1) by (nonlinear_arith)
            requires -1 <= o.0 <= 1 && -1 <= o.1 <= 1 && -1 <= o.2 <= 1, 0 <= m0.0 <= 1 && 0 <= m0.1 <= 1 && 0 <= m0.2 <= 1;
        assert(-1 <= o.0 * m1.0 <= 1 && -1 <= o.1 * m1.1 <= 1 && -1 <= o.2 * m1.2 <= 1) by (nonlinear_arith)
            requires -1 <= o.0 <= 1 && -1 <= o.1 <= 1 && -1 <= o.2 <= 1, 0 <= m1.0 <= 1 && 0 <= m1.1 <= 1 && 0 <= m1.2 <= 1;
        let e1 = self.occluder(world, p, (o.0 * m0.0, o.1 * m0.1, o.2 * m0.2));
        let e2 = self.occluder(world, p, (o.0 * m1.0, o.1 * m1.1, o.2 * m1.2));
        let c = self.occluder(world, p, o);
        get_ao(e1, e2, c) as u8
    }

    /// Builds the chunk's surface mesh: one quad for every face of a solid
    /// voxel whose neighbor beyond that face is known to be empty (a missing
    /// neighbor chunk counts as solid here), with per-corner ambient
    /// occlusion (a missing neighbor counts as empty there).
    pub fn generate_mesh(&self, world: &World) -> (r: TmpMesh)
        requires
            self.wf(),
            self.chunk_id.valid(),
            world.wf(),
        ensures
            r.holds(self.quads(world.chunk_map())),
    {
        let ghost chunks = world.chunk_map();
        let mut tmp_mesh = TmpMesh::new(8192);
        let mut v: usize = 0;
        while v < CHUNK_VOLUME
            invariant
                v <= CHUNK_VOLUME,
                self.wf(),
                self.chunk_id.valid(),
                world.wf(),
                chunks == world.chunk_map(),
                tmp_mesh.holds(self.quads_upto(chunks, v as int)),
                self.quads_upto(chunks, v as int).len() <= 6 * v,
            decreases CHUNK_VOLUME - v,
        {
            let value = self.values[v];
            proof {
                lemma_voxel_of_in_grid(v as int);
            }
            let x = (v % CHUNK_SIZE_X) as i32;
            let y = ((v / CHUNK_SIZE_X) % CHUNK_SIZE_Y) as i32;
            let z = (v / (CHUNK_SIZE_X * CHUNK_SIZE_Y)) as i32;
            let ghost p = voxel_of(v as int);
            assert(p == (x as int, y as int, z as int));
            let mut k: usize = 0;
            while k < 6
                invariant
                    k <= 6,
                    v < CHUNK_VOLUME,
                    self.wf(),
                    self.chunk_id.valid(),
                    world.wf(),
                    chunks == world.chunk_map(),
                    value == self.values@[v as int],
                    p == voxel_of(v as int),
                    p == (x as int, y as int, z as int),
                    in_grid(x as int, y as int, z as int),
                    tmp_mesh.holds(self.quads_upto(chunks, v as int) + self.voxel_quads(chunks, v as int, k as int)),
                    self.quads_upto(chunks, v as int).len() <= 6 * v,
                    self.voxel_quads(chunks, v as int, k as int).len() <= k,
                decreases 6 - k,
            {
                let face = face_at_index(k);
                let ghost qs = self.quads_upto(chunks, v as int) + self.voxel_quads(chunks, v as int, k as int);
                if value != 0 {
                    let d = face.direction();
                    let beyond = self.try_index(world, LocalPos { x: x + d.0, y: y + d.1, z: z + d.2 });
                    let visible = match beyond {
                        Some(b) => b == 0,
                        None => false,
                    };
                    if visible {
                        let ao: [u8; 4] = [
                            self.corner_ao(world, (x, y, z), face, 0),
                            self.corner_ao(world, (x, y, z), face, 1),
                            self.corner_ao(world, (x, y, z), face, 2),
                            self.corner_ao(world, (x, y, z), face, 3),
                        ];
                        let flip = choose_flip(ao);
                        let tile = texture(face, &block_texture(value));
                        let ghost q = Quad { face, x, y, z, ao, flip, tile };
                        assert(self.face_quad(chunks, v as int, face) == Some(q));
                        proof {
                            lemma_vertices_len(qs);
                        }
                        let ghost before = tmp_mesh;
                        tmp_mesh.add_face(face, (x, y, z), ao, flip, tile);
                        proof {
                            lemma_holds_push(before, tmp_mesh, qs, q);
                            assert(qs.push(q) =~= self.quads_upto(chunks, v as int) + self.voxel_quads(chunks, v as int, k + 1));
                        }
                    } else {
                        assert(self.face_quad(chunks, v as int, face) is None);
                    }
                } else {
                    assert(self.face_quad(chunks, v as int, face) is None);
                }
                k = k + 1;
            }
            v = v + 1;
        }
        tmp_mesh
    }
}

/// A chunk generated from one density per voxel (and, for a randomized
/// palette, one draw per voxel), both in grid order.
pub fn generate_chunk(chunk_id: ChunkId, density: &Vec<i32>, draws: &Vec<u32>, config: &TerrainConfig) -> (r: Chunk)
    requires
        density.len() == CHUNK_VOLUME,
        config.wf(),
        config.palette is Randomized ==> draws.len() == CHUNK_VOLUME,
    ensures
        r.wf(),
        r.chunk_id == chunk_id,
        forall|i: int|
            0 <= i < CHUNK_VOLUME ==> #[trigger] r.values@[i] == config.voxel_value(
                density@[i] as int,
                voxel_of(i).1,
                draws@[i],
            ),
{
    let mut chunk = Chunk::new(chunk_id);
    chunk.generate(density, draws, config);
    chunk
}

/// Boundary consistency: looking up, from chunk `c`, a position that lies
/// in the neighbor at chunk offset `(dx, dz)` reads that neighbor's grid at
/// the same position in the neighbor's own frame.
pub proof fn lemma_lookup_crosses_into_neighbor(
    c: Chunk,
    chunks: Map<(i32, i32), Chunk>,
    dx: int,
    dz: int,
    lx: int,
    y: int,
    lz: int,
)
    requires
        dx != 0 || dz != 0,
        in_grid(lx, y, lz),
    ensures
        ({
            let key = ((c.chunk_id.x + dx) as i32, (c.chunk_id.y + dz) as i32);
            let r = c.lookup(chunks, lx + dx * CHUNK_SIZE_X, y, lz + dz * CHUNK_SIZE_Z);
            &&& chunks.contains_key(key) ==> r == Some(chunks[key].at(lx, y, lz))
            &&& !chunks.contains_key(key) ==> r is None
        }),
{
    let x = lx + dx * 32;
    let z = lz + dz * 32;
    lemma_fundamental_div_mod_converse(x, 32, dx, lx);
    lemma_fundamental_div_mod_converse(z, 32, dz, lz);
    assert(!(0 <= x < 32 && 0 <= z < 32)) by (nonlinear_arith)
        requires x == lx + dx * 32, z == lz + dz * 32, 0 <= lx < 32, 0 <= lz < 32, dx != 0 || dz != 0;
}

/// The quads of every voxel below `n` all satisfy `p` when each visible
/// face's quad does.
proof fn lemma_quads_all(c: Chunk, chunks: Map<(i32, i32), Chunk>, n: int, p: spec_fn(Quad) -> bool)
    requires
        n <= CHUNK_VOLUME,
        forall|v: int, f: Face| 0 <= v < CHUNK_VOLUME && #[trigger] c.face_quad(chunks, v, f) is Some ==> p(
            c.face_quad(chunks, v, f)->Some_0,
        ),
    ensures
        forall|i: int| 0 <= i < c.quads_upto(chunks, n).len() ==> p(#[trigger] c.quads_upto(chunks, n)[i]),
    decreases n,
{
    if n > 0 {
        lemma_quads_all(c, chunks, n - 1, p);
        lemma_voxel_quads_all(c, chunks, n - 1, 6, p);
        let a = c.quads_upto(chunks, n - 1);
        let b = c.voxel_quads(chunks, n - 1, 6);
        assert forall|i: int| 0 <= i < (a + b).len() implies p(#[trigger] (a + b)[i]) by {
            if i >= a.len() {
                assert((a + b)[i] == b[i - a.len()]);
            }
        }
    }
}

proof fn lemma_voxel_quads_all(c: Chunk, chunks: Map<(i32, i32), Chunk>, v: int, k: int, p: spec_fn(Quad) -> bool)
    requires
        0 <= v < CHUNK_VOLUME,
        forall|v: int, f: Face| 0 <= v < CHUNK_VOLUME && #[trigger] c.face_quad(chunks, v, f) is Some ==> p(
            c.face_quad(chunks, v, f)->Some_0,
        ),
    ensures
        forall|i: int| 0 <= i < c.voxel_quads(chunks, v, k).len() ==> p(#[trigger] c.voxel_quads(chunks, v, k)[i]),
    decreases k,
{
    if k > 0 {
        lemma_voxel_quads_all(c, chunks, v, k - 1, p);
        let f = face_at(k - 1);
        let prev = c.voxel_quads(chunks, v, k - 1);
        if c.face_quad(chunks, v, f) is Some {
            let q = c.face_quad(chunks, v, f)->Some_0;
            assert(c.voxel_quads(chunks, v, k) == prev.push(q));
            assert forall|i: int| 0 <= i < prev.push(q).len() implies p(#[trigger] prev.push(q)[i]) by {
                if i < prev.len() {
                    assert(prev.push(q)[i] == prev[i]);
                }
            }
        } else {
            assert(c.voxel_quads(chunks, v, k) == prev);
        }
    }
}

/// The voxel just beyond quad `q`'s face lies outside the grid in x or z,
/// inside it in y, and in a chunk that `chunks` holds.
pub open spec fn faces_generated_neighbor(c: Chunk, chunks: Map<(i32, i32), Chunk>, q: Quad) -> bool {
    let d = face_dir(q.face);
    let nx = q.x + d.0;
    let ny = q.y + d.1;
    let nz = q.z + d.2;
    &&& !(0 <= nx < CHUNK_SIZE_X && 0 <= nz < CHUNK_SIZE_Z)
    &&& 0 <= ny < CHUNK_SIZE_Y
    &&& chunks.contains_key(
        (
            (c.chunk_id.x + floor_div_spec(nx, CHUNK_SIZE_X as int)) as i32,
            (c.chunk_id.y + floor_div_spec(nz, CHUNK_SIZE_Z as int)) as i32,
        ),
    )
}

/// A grid with no empty voxel shows faces only across its x/z boundary, and
/// only toward a neighbor chunk that has been generated: faces into the
/// world's top or bottom, or toward a missing neighbor, are never drawn.
pub proof fn lemma_solid_chunk_faces(c: Chunk, chunks: Map<(i32, i32), Chunk>)
    requires
        c.wf(),
        forall|i: int| 0 <= i < CHUNK_VOLUME ==> #[trigger] c.values@[i] != 0,
    ensures
        forall|i: int| 0 <= i < c.quads(chunks).len() ==> faces_generated_neighbor(c, chunks, #[trigger] c.quads(chunks)[i]),
{
    let p = |q: Quad| faces_generated_neighbor(c, chunks, q);
    assert forall|v: int, f: Face| 0 <= v < CHUNK_VOLUME && #[trigger] c.face_quad(chunks, v, f) is Some implies p(
        c.face_quad(chunks, v, f)->Some_0,
    ) by {
        let pos = voxel_of(v);
        lemma_voxel_of_in_grid(v);
        let d = face_dir(f);
        let nx = pos.0 + d.0;
        let ny = pos.1 + d.1;
        let nz = pos.2 + d.2;
        if 0 <= ny < CHUNK_SIZE_Y && 0 <= nx < CHUNK_SIZE_X && 0 <= nz < CHUNK_SIZE_Z {
            lemma_voxel_index_bounds(nx, ny, nz);
            assert(c.values@[voxel_index(nx, ny, nz)] != 0);
        }
    }
    lemma_quads_all(c, chunks, CHUNK_VOLUME as int, p);
}

proof fn lemma_empty_voxel_no_quads(c: Chunk, chunks: Map<(i32, i32), Chunk>, v: int, k: int)
    requires
        c.values@[v] == 0,
    ensures
        c.voxel_quads(chunks, v, k).len() == 0,
    decreases k,
{
    if k > 0 {
        lemma_empty_voxel_no_quads(c, chunks, v, k - 1);
    }
}

proof fn lemma_open_voxel_quads(c: Chunk, chunks: Map<(i32, i32), Chunk>, v: int, k: int)
    requires
        0 <= k <= 6,
        c.values@[v] != 0,
        forall|f: Face| c.sample(chunks, voxel_of(v), face_dir(f)) == Some(0u16),
    ensures
        c.voxel_quads(chunks, v, k).len() == k,
    decreases k,
{
    if k > 0 {
        lemma_open_voxel_quads(c, chunks, v, k - 1);
        assert(c.face_visible(chunks, v, face_at(k - 1)));
    }
}

proof fn lemma_single_voxel_upto(c: Chunk, chunks: Map<(i32, i32), Chunk>, v0: int, n: int)
    requires
        0 <= v0 < CHUNK_VOLUME,
        n <= CHUNK_VOLUME,
        c.values@[v0] != 0,
        forall|i: int| 0 <= i < CHUNK_VOLUME && i != v0 ==> #[trigger] c.values@[i] == 0,
        forall|f: Face| c.sample(chunks, voxel_of(v0), face_dir(f)) == Some(0u16),
    ensures
        c.quads_upto(chunks, n).len() == if n > v0 { 6int } else { 0 },
    decreases n,
{
    if n > 0 {
        lemma_single_voxel_upto(c, chunks, v0, n - 1);
        if n - 1 == v0 {
            lemma_open_voxel_quads(c, chunks, v0, 6);
        } else {
            lemma_empty_voxel_no_quads(c, chunks, n - 1, 6);
        }
    }
}

/// A grid whose only solid voxel has known-empty neighbors beyond all six
/// faces meshes to exactly six quads: 24 vertices and 36 indices.
pub proof fn lemma_single_voxel_six_quads(c: Chunk, chunks: Map<(i32, i32), Chunk>, v0: int)
    requires
        c.wf(),
        0 <= v0 < CHUNK_VOLUME,
        c.values@[v0] != 0,
        forall|i: int| 0 <= i < CHUNK_VOLUME && i != v0 ==> #[trigger] c.values@[i] == 0,
        forall|f: Face| c.sample(chunks, voxel_of(v0), face_dir(f)) == Some(0u16),
    ensures
        c.quads(chunks).len() == 6,
        vertices_of(c.quads(chunks)).len() == 24,
        indices_of(c.quads(chunks)).len() == 36,
{
    lemma_single_voxel_upto(c, chunks, v0, CHUNK_VOLUME as int);
    lemma_vertices_len(c.quads(chunks));
}

} // verus!
