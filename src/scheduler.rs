//! Which chunks to generate as the viewer moves: the offsets within view
//! distance, nearest first, computed once and reused at every viewer position.
use vstd::prelude::*;

use crate::coords::ChunkId;
use crate::registry::{to_generate, World};

verus! {

/// Largest view distance, in chunks.
pub const MAX_VIEW_DISTANCE: i32 = 64;

/// Squared length of an offset.
pub open spec fn sq_dist(o: (i32, i32)) -> int {
    o.0 * o.0 + o.1 * o.1
}

pub open spec fn in_box(o: (i32, i32), vd: int) -> bool {
    -(vd - 1) <= o.0 <= vd - 1 && -(vd - 1) <= o.1 <= vd - 1
}

/// Offsets strictly within `vd` chunks of the origin.
pub open spec fn in_view(o: (i32, i32), vd: int) -> bool {
    in_box(o, vd) && sq_dist(o) < vd * vd
}

/// `p` lists every offset within view distance `vd` once, nearest first.
pub open spec fn is_priority_list(p: Seq<(i32, i32)>, vd: int) -> bool {
    &&& forall|o: (i32, i32)| #[trigger] p.contains(o) <==> in_view(o, vd)
    &&& p.no_duplicates()
    &&& forall|i: int, j: int| 0 <= i < j < p.len() ==> sq_dist(#[trigger] p[i]) <= sq_dist(#[trigger] p[j])
}

proof fn lemma_push_keeps(p: Seq<(i32, i32)>, v: (i32, i32))
    requires
        p.no_duplicates(),
        !p.contains(v),
        forall|i: int| 0 <= i < p.len() ==> sq_dist(#[trigger] p[i]) <= sq_dist(v),
        forall|i: int, j: int| 0 <= i < j < p.len() ==> sq_dist(#[trigger] p[i]) <= sq_dist(#[trigger] p[j]),
    ensures
        p.push(v).no_duplicates(),
        forall|i: int, j: int| 0 <= i < j < p.push(v).len() ==> sq_dist(#[trigger] p.push(v)[i]) <= sq_dist(#[trigger] p.push(v)[j]),
        forall|x: (i32, i32)| #[trigger] p.push(v).contains(x) <==> p.contains(x) || x == v,
{
    let q = p.push(v);
    assert forall|i: int, j: int| 0 <= i < q.len() && 0 <= j < q.len() && i != j implies q[i] != q[j] by {
        if i == p.len() {
            assert(p[j] != v);
        } else if j == p.len() {
            assert(p[i] != v);
        }
    }
    assert forall|i: int, j: int| 0 <= i < j < q.len() implies sq_dist(#[trigger] q[i]) <= sq_dist(#[trigger] q[j]) by {
        if j == p.len() {
            assert(q[i] == p[i]);
        } else {
            assert(q[i] == p[i] && q[j] == p[j]);
        }
    }
    assert forall|x: (i32, i32)| #[trigger] q.contains(x) <==> p.contains(x) || x == v by {
        if x == v {
            assert(q[p.len() as int] == x);
        }
        if p.contains(x) {
            let k = choose|k: int| 0 <= k < p.len() && p[k] == x;
            assert(q[k] == x);
        }
        if q.contains(x) {
            let k = choose|k: int| 0 <= k < q.len() && q[k] == x;
            if k < p.len() {
                assert(p[k] == x);
            }
        }
    }
}

/// Every offset within `view_distance` chunks of the origin, sorted by
/// squared distance, nearest first.
pub fn priority_offsets(view_distance: i32) -> (r: Vec<(i32, i32)>)
    requires
        1 <= view_distance <= MAX_VIEW_DISTANCE,
    ensures
        is_priority_list(r@, view_distance as int),
{
    let vd = view_distance;
    assert(1 <= vd * vd <= 4096) by (nonlinear_arith)
        requires 1 <= vd <= 64;
    let limit = vd * vd;
    assert forall|o: (i32, i32)| sq_dist(o) >= 0 by {
        assert(o.0 * o.0 >= 0 && o.1 * o.1 >= 0) by (nonlinear_arith);
    }
    let mut r: Vec<(i32, i32)> = Vec::new();
    let mut d: i32 = 0;
    while d < limit
        invariant
            1 <= vd <= MAX_VIEW_DISTANCE,
            limit == vd * vd,
            0 <= d <= limit,
            r@.no_duplicates(),
            forall|i: int, j: int| 0 <= i < j < r@.len() ==> sq_dist(#[trigger] r@[i]) <= sq_dist(#[trigger] r@[j]),
            forall|i: int| 0 <= i < r@.len() ==> sq_dist(#[trigger] r@[i]) < d,
            forall|o: (i32, i32)| #[trigger] r@.contains(o) <==> in_box(o, vd as int) && sq_dist(o) < d,
        decreases limit - d,
    {
        let mut x: i32 = -(vd - 1);
        while x < vd
            invariant
                1 <= vd <= MAX_VIEW_DISTANCE,
                limit == vd * vd,
                0 <= d < limit,
                -(vd - 1) <= x <= vd,
                r@.no_duplicates(),
                forall|i: int, j: int| 0 <= i < j < r@.len() ==> sq_dist(#[trigger] r@[i]) <= sq_dist(#[trigger] r@[j]),
                forall|i: int| 0 <= i < r@.len() ==> sq_dist(#[trigger] r@[i]) <= d,
                forall|o: (i32, i32)| #[trigger] r@.contains(o) <==> in_box(o, vd as int) && (sq_dist(o) < d || (
                    sq_dist(o) == d && o.0 < x)),
            decreases vd - x,
        {
            let mut y: i32 = -(vd - 1);
            while y < vd
                invariant
                    1 <= vd <= MAX_VIEW_DISTANCE,
                    limit == vd * vd,
                    0 <= d < limit,
                    -(vd - 1) <= x < vd,
                    -(vd - 1) <= y <= vd,
                    r@.no_duplicates(),
                    forall|i: int, j: int| 0 <= i < j < r@.len() ==> sq_dist(#[trigger] r@[i]) <= sq_dist(#[trigger] r@[j]),
                    forall|i: int| 0 <= i < r@.len() ==> sq_dist(#[trigger] r@[i]) <= d,
                    forall|o: (i32, i32)| #[trigger] r@.contains(o) <==> in_box(o, vd as int) && (sq_dist(o) < d || (
                        sq_dist(o) == d && (o.0 < x || (o.0 == x && o.1 < y)))),
                decreases vd - y,
            {
                assert(0 <= x * x <= 4096 && 0 <= y * y <= 4096) by (nonlinear_arith)
                    requires -64 <= x <= 64, -64 <= y <= 64;
                if x * x + y * y == d {
                    proof {
                        assert(!r@.contains((x, y)));
                        lemma_push_keeps(r@, (x, y));
                    }
                    r.push((x, y));
                }
                y = y + 1;
            }
            x = x + 1;
        }
        d = d + 1;
    }
    proof {
        assert forall|o: (i32, i32)| #[trigger] r@.contains(o) <==> in_view(o, vd as int) by {}
    }
    r
}

/// Drives generation as the viewer moves between chunks.
pub struct Scheduler {
    view_distance: i32,
    priority: Option<Vec<(i32, i32)>>,
    current_chunk: Option<ChunkId>,
}

impl Scheduler {
    pub closed spec fn wf(&self) -> bool {
        &&& 1 <= self.view_distance <= MAX_VIEW_DISTANCE
        &&& self.priority matches Some(p) ==> is_priority_list(p@, self.view_distance as int)
    }

    pub closed spec fn view_distance_spec(&self) -> int {
        self.view_distance as int
    }

    /// The viewer chunk of the latest pass, if there was one.
    pub closed spec fn current(&self) -> Option<ChunkId> {
        self.current_chunk
    }

    /// The cached offsets, once computed.
    pub closed spec fn cached(&self) -> Option<Seq<(i32, i32)>> {
        match self.priority {
            Some(p) => Some(p@),
            None => None,
        }
    }

    pub fn new(view_distance: i32) -> (r: Scheduler)
        requires
            1 <= view_distance <= MAX_VIEW_DISTANCE,
        ensures
            r.wf(),
            r.view_distance_spec() == view_distance,
            r.current() is None,
            r.cached() is None,
    {
        Scheduler { view_distance, priority: None, current_chunk: None }
    }

    /// Called with the viewer's chunk every tick. When the viewer has entered
    /// another chunk, marks for generation and returns (nearest first) every
    /// chunk within view distance that is neither generated nor being
    /// generated; otherwise returns nothing and changes nothing. The sorted
    /// offsets are computed on the first pass and reused afterwards.
    pub fn advance(&mut self, world: &mut World, viewer: ChunkId) -> (r: Vec<ChunkId>)
        requires
            old(self).wf(),
            old(world).wf(),
        ensures
            final(self).wf(),
            final(world).wf(),
            final(self).view_distance_spec() == old(self).view_distance_spec(),
            final(self).current() == Some(viewer),
            final(self).cached() matches Some(p) && is_priority_list(p, old(self).view_distance_spec())
                && (old(self).cached() matches Some(q) ==> p == q),
            old(self).current() == Some(viewer) ==> r@.len() == 0 && *final(world) == *old(world),
            old(self).current() != Some(viewer) ==> {
                &&& r@ == to_generate(
                    final(self).cached()->Some_0,
                    viewer,
                    old(world).generated(),
                    old(world).generating(),
                )
                &&& forall|c: (i32, i32)| #[trigger] final(world).generating().contains(c) <==> old(world).generating().contains(c)
                    || r@.contains(ChunkId { x: c.0, y: c.1 })
                &&& final(world).chunk_map() == old(world).chunk_map()
                &&& final(world).queued() == old(world).queued()
                &&& final(world).meshing() == old(world).meshing()
            },
    {
        if self.priority.is_none() {
            self.priority = Some(priority_offsets(self.view_distance));
        }
        if let Some(current) = self.current_chunk {
            if current == viewer {
                return Vec::new();
            }
        }
        self.current_chunk = Some(viewer);
        match &self.priority {
            Some(p) => world.update_chunk_state(viewer, p),
            None => Vec::new(),
        }
    }
}

} // verus!
