//! Chunk identities, voxel positions and the dense grid layout.
use vstd::prelude::*;
use vstd::arithmetic::div_mod::{lemma_fundamental_div_mod, lemma_fundamental_div_mod_converse};

verus! {

pub const CHUNK_SIZE_X: usize = 32;
pub const CHUNK_SIZE_Y: usize = 96;
pub const CHUNK_SIZE_Z: usize = 32;
/// Number of voxels in one chunk's grid.
pub const CHUNK_VOLUME: usize = CHUNK_SIZE_X * CHUNK_SIZE_Y * CHUNK_SIZE_Z;
/// Largest magnitude of a chunk coordinate whose world-space extent fits in `i32`.
pub const CHUNK_ID_LIMIT: i32 = 67108863;

/// Identity of a chunk: its position in chunk-grid units (`y` is the world's z axis).
#[derive(Clone, Copy, PartialEq, Eq, Structural, Debug, Hash)]
pub struct ChunkId {
    pub x: i32,
    pub y: i32,
}

impl ChunkId {
    pub fn new(x: i32, y: i32) -> (r: ChunkId)
        ensures
            r.x == x && r.y == y,
    {
        ChunkId { x, y }
    }

    /// The chunk's world-space extent fits in `i32`.
    pub open spec fn valid(self) -> bool {
        -CHUNK_ID_LIMIT <= self.x <= CHUNK_ID_LIMIT && -CHUNK_ID_LIMIT <= self.y <= CHUNK_ID_LIMIT
    }

    /// The key under which the registry files this chunk.
    pub open spec fn key(self) -> (i32, i32) {
        (self.x, self.y)
    }
}

/// A voxel position in a chunk's local frame; it may lie outside the grid.
#[derive(Clone, Copy, PartialEq, Eq, Structural, Debug)]
pub struct LocalPos {
    pub x: i32,
    pub y: i32,
    pub z: i32,
}

pub open spec fn in_grid(x: int, y: int, z: int) -> bool {
    0 <= x < CHUNK_SIZE_X && 0 <= y < CHUNK_SIZE_Y && 0 <= z < CHUNK_SIZE_Z
}

/// Position of voxel `(x, y, z)` in the flat grid buffer.
pub open spec fn voxel_index(x: int, y: int, z: int) -> int {
    x + y * CHUNK_SIZE_X + z * (CHUNK_SIZE_X * CHUNK_SIZE_Y)
}

/// The voxel stored at flat position `i`, as `(x, y, z)`.
pub open spec fn voxel_of(i: int) -> (int, int, int) {
    (i % 32, (i / 32) % 96, i / 3072)
}

pub proof fn lemma_voxel_index_bounds(x: int, y: int, z: int)
    requires
        in_grid(x, y, z),
    ensures
        0 <= voxel_index(x, y, z) < CHUNK_VOLUME,
        voxel_of(voxel_index(x, y, z)) == (x, y, z),
{
    assert(0 <= voxel_index(x, y, z) < CHUNK_VOLUME) by (nonlinear_arith)
        requires in_grid(x, y, z);
    let i = voxel_index(x, y, z);
    assert(i % 32 == x && i / 32 == x / 32 + y + 96 * z) by (nonlinear_arith)
        requires i == x + 32 * y + 3072 * z, 0 <= x < 32, 0 <= y < 96, 0 <= z < 32;
    assert((i / 32) % 96 == y && i / 3072 == z) by (nonlinear_arith)
        requires i == x + 32 * y + 3072 * z, 0 <= x < 32, 0 <= y < 96, 0 <= z < 32;
}

pub proof fn lemma_voxel_of_in_grid(i: int)
    requires
        0 <= i < CHUNK_VOLUME,
    ensures
        in_grid(voxel_of(i).0, voxel_of(i).1, voxel_of(i).2),
        voxel_index(voxel_of(i).0, voxel_of(i).1, voxel_of(i).2) == i,
{
    assert(0 <= i / 3072 < 32 && i == i % 32 + ((i / 32) % 96) * 32 + (i / 3072) * 3072) by (nonlinear_arith)
        requires 0 <= i < 98304;
}

/// Flat buffer position of an in-grid voxel.
pub fn grid_index(x: usize, y: usize, z: usize) -> (r: usize)
    requires
        in_grid(x as int, y as int, z as int),
    ensures
        r == voxel_index(x as int, y as int, z as int),
        r < CHUNK_VOLUME,
{
    proof {
        lemma_voxel_index_bounds(x as int, y as int, z as int);
    }
    x + y * CHUNK_SIZE_X + z * (CHUNK_SIZE_X * CHUNK_SIZE_Y)
}

/// Floor of `a / b`: the quotient rounded toward negative infinity.
pub open spec fn floor_div_spec(a: int, b: int) -> int
    recommends
        b != 0,
{
    if b > 0 {
        a / b
    } else {
        (-a) / (-b)
    }
}

/// Integer division rounding toward negative infinity (`-1 / 32 == -1`).
pub fn div_floor(lhs: i32, rhs: i32) -> (r: i32)
    requires
        rhs != 0,
        !(lhs == i32::MIN && rhs == -1),
    ensures
        r == floor_div_spec(lhs as int, rhs as int),
        rhs > 0 ==> r * rhs <= lhs < r * rhs + rhs,
        rhs < 0 ==> r * rhs >= lhs > r * rhs + rhs,
{
    // Dividing `-lhs` by `-rhs` keeps the quotient and makes the divisor positive.
    let (a, b): (i64, i64) = if rhs < 0 {
        (-(lhs as i64), -(rhs as i64))
    } else {
        (lhs as i64, rhs as i64)
    };
    let d = a / b;
    let m = a % b;
    proof {
        if a >= 0 {
            assert(d == a / b && m == a % b);
            lemma_fundamental_div_mod(a as int, b as int);
        } else {
            assert(d == -((-a) / (b as int)) && m == -((-a) % (b as int)));
            lemma_fundamental_div_mod(-a, b as int);
        }
        let q: int = if m < 0 { d - 1 } else { d as int };
        let rem: int = if m < 0 { m + b } else { m as int };
        assert(a == q * b + rem && 0 <= rem < b) by (nonlinear_arith)
            requires
                a >= 0 ==> d == a / b && m == a % b && a == b * (a / b) + a % b && 0 <= a % b < b,
                a < 0 ==> d == -((-a) / (b as int)) && m == -((-a) % (b as int)) && -a == b * ((-a) / (b as int)) + (-a) % (b as int) && 0 <= (-a) % (b as int) < b,
                q == (if m < 0 { d - 1 } else { d as int }),
                rem == (if m < 0 { m + b } else { m as int }),
                b > 0,
        ;
        lemma_fundamental_div_mod_converse(a as int, b as int, q, rem);
        assert(rhs > 0 ==> q * rhs <= lhs < q * rhs + rhs);
        assert(rhs < 0 ==> q * rhs >= lhs > q * rhs + rhs) by (nonlinear_arith)
            requires rhs < 0 ==> a == -lhs && b == -rhs, a == q * b + rem, 0 <= rem < b;
        assert(i32::MIN <= q <= i32::MAX) by (nonlinear_arith)
            requires a == q * b + rem, 0 <= rem < b, b <= 2147483648, -2147483648 <= a <= 2147483648,
                b == 1 ==> a <= 2147483647,
        ;
    }
    if m < 0 {
        (d - 1) as i32
    } else {
        d as i32
    }
}

} // verus!
