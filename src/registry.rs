//! The world registry: generated chunks, the bookkeeping of which chunks are
//! being generated, and the readiness counts that decide when a chunk may be
//! meshed.
//!
//! The registry keeps its tables in `dashmap` maps and sets, keyed by the
//! chunk identity as an `(x, y)` pair.
use vstd::prelude::*;

use std::collections::hash_map::RandomState;
use std::sync::Arc;

use dashmap::{DashMap, DashSet};

use crate::chunk::Chunk;
use crate::mesh::TmpMesh;
use crate::coords::{ChunkId, CHUNK_ID_LIMIT};

verus! {

#[verifier::external_type_specification]
#[verifier::external_body]
#[verifier::reject_recursive_types(K)]
#[verifier::reject_recursive_types(V)]
#[verifier::reject_recursive_types(S)]
pub struct ExDashMap<K, V, S>(DashMap<K, V, S>);

#[verifier::external_type_specification]
#[verifier::external_body]
#[verifier::reject_recursive_types(K)]
#[verifier::reject_recursive_types(S)]
pub struct ExDashSet<K, S>(DashSet<K, S>);

/// What a chunk table holds.
pub uninterp spec fn chunk_entries(m: DashMap<(i32, i32), Arc<Chunk>, RandomState>) -> Map<(i32, i32), Chunk>;

/// What a counter table holds.
pub uninterp spec fn count_entries(m: DashMap<(i32, i32), usize, RandomState>) -> Map<(i32, i32), usize>;

/// What an identity set holds.
pub uninterp spec fn set_members(s: DashSet<(i32, i32), RandomState>) -> Set<(i32, i32)>;

/// Relies on `DashMap::new`: the new map is empty.
#[verifier::external_body]
fn new_chunk_table() -> (r: DashMap<(i32, i32), Arc<Chunk>, RandomState>)
    ensures
        forall|k: (i32, i32)| !chunk_entries(r).contains_key(k),
{
    DashMap::new()
}

/// Relies on `DashMap::get`: the entry under the key, if there is one.
#[verifier::external_body]
fn chunk_table_get(m: &DashMap<(i32, i32), Arc<Chunk>, RandomState>, k: (i32, i32)) -> (r: Option<Arc<Chunk>>)
    ensures
        r is Some <==> chunk_entries(*m).contains_key(k),
        r matches Some(c) ==> *c == chunk_entries(*m)[k],
{
    match m.get(&k) {
        Some(entry) => Some(Arc::clone(entry.value())),
        None => None,
    }
}

/// Relies on `DashMap::contains_key`.
#[verifier::external_body]
fn chunk_table_contains(m: &DashMap<(i32, i32), Arc<Chunk>, RandomState>, k: (i32, i32)) -> (r: bool)
    ensures
        r == chunk_entries(*m).contains_key(k),
{
    m.contains_key(&k)
}

/// Relies on `DashMap::insert`: afterwards the key maps to the new value and
/// every other key is unchanged.
#[verifier::external_body]
fn chunk_table_insert(m: &mut DashMap<(i32, i32), Arc<Chunk>, RandomState>, k: (i32, i32), v: Arc<Chunk>)
    ensures
        chunk_entries(*final(m)) == chunk_entries(*old(m)).insert(k, *v),
{
    m.insert(k, v);
}

/// Relies on `DashMap::new`: the new map is empty.
#[verifier::external_body]
fn new_count_table() -> (r: DashMap<(i32, i32), usize, RandomState>)
    ensures
        forall|k: (i32, i32)| !count_entries(r).contains_key(k),
{
    DashMap::new()
}

/// Relies on `DashMap::get`: the entry under the key, if there is one.
#[verifier::external_body]
fn count_table_get(m: &DashMap<(i32, i32), usize, RandomState>, k: (i32, i32)) -> (r: Option<usize>)
    ensures
        r is Some <==> count_entries(*m).contains_key(k),
        r matches Some(c) ==> c == count_entries(*m)[k],
{
    match m.get(&k) {
        Some(entry) => Some(*entry.value()),
        None => None,
    }
}

/// Relies on `DashMap::insert`: afterwards the key maps to the new value and
/// every other key is unchanged.
#[verifier::external_body]
fn count_table_insert(m: &mut DashMap<(i32, i32), usize, RandomState>, k: (i32, i32), v: usize)
    ensures
        count_entries(*final(m)) == count_entries(*old(m)).insert(k, v),
{
    m.insert(k, v);
}

/// Relies on `DashSet::new`: the new set is empty.
#[verifier::external_body]
fn new_id_set() -> (r: DashSet<(i32, i32), RandomState>)
    ensures
        forall|k: (i32, i32)| !set_members(r).contains(k),
{
    DashSet::new()
}

/// Relies on `DashSet::contains`.
#[verifier::external_body]
fn id_set_contains(s: &DashSet<(i32, i32), RandomState>, k: (i32, i32)) -> (r: bool)
    ensures
        r == set_members(*s).contains(k),
{
    s.contains(&k)
}

/// Relies on `DashSet::insert`: afterwards the set also holds the key.
#[verifier::external_body]
fn id_set_insert(s: &mut DashSet<(i32, i32), RandomState>, k: (i32, i32))
    ensures
        set_members(*final(s)) == set_members(*old(s)).insert(k),
{
    s.insert(k);
}

/// Relies on `DashSet::remove`: afterwards the set no longer holds the key.
#[verifier::external_body]
fn id_set_remove(s: &mut DashSet<(i32, i32), RandomState>, k: (i32, i32))
    ensures
        set_members(*final(s)) == set_members(*old(s)).remove(k),
{
    s.remove(&k);
}

/// Relies on `DashSet::iter`: it visits every member once, in an order the
/// set does not promise.
#[verifier::external_body]
fn id_set_members(s: &DashSet<(i32, i32), RandomState>) -> (r: Vec<(i32, i32)>)
    ensures
        r@.no_duplicates(),
        r@.to_set() == set_members(*s),
{
    s.iter().map(|entry| *entry.key()).collect()
}

/// The identity itself and its eight lateral neighbors, as offsets.
pub open spec fn neighbor_offset(j: int) -> (int, int) {
    if j == 0 {
        (0, 0)
    } else if j == 1 {
        (-1, -1)
    } else if j == 2 {
        (0, -1)
    } else if j == 3 {
        (1, -1)
    } else if j == 4 {
        (-1, 0)
    } else if j == 5 {
        (1, 0)
    } else if j == 6 {
        (-1, 1)
    } else if j == 7 {
        (0, 1)
    } else {
        (1, 1)
    }
}

/// Offset `j` of the neighborhood, `j < 9`.
pub fn neighbor(j: usize) -> (r: (i32, i32))
    requires
        j < 9,
    ensures
        (r.0 as int, r.1 as int) == neighbor_offset(j as int),
        -1 <= r.0 <= 1 && -1 <= r.1 <= 1,
{
    match j {
        0 => (0, 0),
        1 => (-1, -1),
        2 => (0, -1),
        3 => (1, -1),
        4 => (-1, 0),
        5 => (1, 0),
        6 => (-1, 1),
        7 => (0, 1),
        _ => (1, 1),
    }
}

/// `k` moved by offset `o`.
pub open spec fn shifted(k: (i32, i32), o: (int, int)) -> (i32, i32) {
    ((k.0 + o.0) as i32, (k.1 + o.1) as i32)
}

/// Identities that a valid chunk identity or one of its neighbors may have.
pub open spec fn near(k: (i32, i32)) -> bool {
    -CHUNK_ID_LIMIT - 1 <= k.0 <= CHUNK_ID_LIMIT + 1 && -CHUNK_ID_LIMIT - 1 <= k.1 <= CHUNK_ID_LIMIT + 1
}

pub open spec fn has_neighbor(generated: Set<(i32, i32)>, c: (i32, i32), j: int) -> nat {
    if generated.contains(shifted(c, (-neighbor_offset(j).0, -neighbor_offset(j).1))) {
        1
    } else {
        0
    }
}

/// How many of `c` and its eight neighbors are in `generated`.
pub open spec fn ready_count(generated: Set<(i32, i32)>, c: (i32, i32)) -> nat {
    has_neighbor(generated, c, 0) + has_neighbor(generated, c, 1) + has_neighbor(generated, c, 2)
        + has_neighbor(generated, c, 3) + has_neighbor(generated, c, 4) + has_neighbor(generated, c, 5)
        + has_neighbor(generated, c, 6) + has_neighbor(generated, c, 7) + has_neighbor(generated, c, 8)
}

/// Whether `c` is one of the first `j` neighborhood members of `g`.
pub open spec fn among_first(g: (i32, i32), c: (i32, i32), j: int) -> bool
    decreases j,
{
    j > 0 && (among_first(g, c, j - 1) || c == shifted(g, neighbor_offset(j - 1)))
}

/// The counter stored for `c`, 0 when there is none.
pub open spec fn count_in(m: Map<(i32, i32), usize>, c: (i32, i32)) -> int {
    if m.contains_key(c) {
        m[c] as int
    } else {
        0
    }
}

/// Adding a new identity `g` raises the count of exactly its neighborhood by one.
pub proof fn lemma_ready_count_add(generated: Set<(i32, i32)>, g: (i32, i32), c: (i32, i32))
    requires
        !generated.contains(g),
        -CHUNK_ID_LIMIT <= g.0 <= CHUNK_ID_LIMIT && -CHUNK_ID_LIMIT <= g.1 <= CHUNK_ID_LIMIT,
        near(c),
    ensures
        ready_count(generated.insert(g), c) == ready_count(generated, c) + (if among_first(g, c, 9) { 1int } else { 0 }),
{
    reveal_with_fuel(among_first, 10);
}

proof fn lemma_push_contains<T>(s: Seq<T>, v: T)
    ensures
        forall|x: T| #[trigger] s.push(v).contains(x) <==> s.contains(x) || x == v,
{
    assert forall|x: T| #[trigger] s.push(v).contains(x) <==> s.contains(x) || x == v by {
        if x == v {
            assert(s.push(v)[s.len() as int] == x);
        }
        if s.contains(x) {
            let k = choose|k: int| 0 <= k < s.len() && s[k] == x;
            assert(s.push(v)[k] == x);
        }
        if s.push(v).contains(x) {
            let k = choose|k: int| 0 <= k < s.push(v).len() && s.push(v)[k] == x;
            if k < s.len() {
                assert(s[k] == x);
            }
        }
    }
}

/// Shared state of the chunk pipeline.
pub struct World {
    chunks: DashMap<(i32, i32), Arc<Chunk>, RandomState>,
    generating_chunks: DashSet<(i32, i32), RandomState>,
    meshing_chunks: DashSet<(i32, i32), RandomState>,
    neighbor_count: DashMap<(i32, i32), usize, RandomState>,
    meshing_queue: DashSet<(i32, i32), RandomState>,
}

impl World {
    /// The generated chunks, by identity.
    pub closed spec fn chunk_map(&self) -> Map<(i32, i32), Chunk> {
        chunk_entries(self.chunks)
    }

    /// Identities whose chunk has been generated.
    pub closed spec fn generated(&self) -> Set<(i32, i32)> {
        chunk_entries(self.chunks).dom()
    }

    /// Identities handed out for generation and not yet published.
    pub closed spec fn generating(&self) -> Set<(i32, i32)> {
        set_members(self.generating_chunks)
    }

    /// The readiness counter of `c`.
    pub closed spec fn count(&self, c: (i32, i32)) -> int {
        count_in(count_entries(self.neighbor_count), c)
    }

    /// Identities that have been admitted to meshing.
    pub closed spec fn meshing(&self) -> Set<(i32, i32)> {
        set_members(self.meshing_chunks)
    }

    /// Identities admitted to meshing and not yet handed out.
    pub closed spec fn queued(&self) -> Set<(i32, i32)> {
        set_members(self.meshing_queue)
    }

    pub closed spec fn wf(&self) -> bool {
        &&& forall|k: (i32, i32)| #[trigger] self.chunk_map().contains_key(k) ==> {
            &&& self.chunk_map()[k].wf()
            &&& self.chunk_map()[k].chunk_id.key() == k
            &&& self.chunk_map()[k].chunk_id.valid()
        }
        &&& forall|c: (i32, i32)| #[trigger] self.count(c) == if near(c) {
            ready_count(self.generated(), c) as int
        } else {
            0
        }
        &&& forall|c: (i32, i32)| #[trigger] self.meshing().contains(c) <==> near(c) && ready_count(self.generated(), c) == 9
        &&& self.queued().subset_of(self.meshing())
    }

    /// An empty registry.
    pub fn new() -> (r: World)
        ensures
            r.wf(),
            forall|k: (i32, i32)| !r.chunk_map().contains_key(k),
            forall|k: (i32, i32)| !r.generating().contains(k),
            forall|k: (i32, i32)| !r.queued().contains(k),
    {
        let r = World {
            chunks: new_chunk_table(),
            generating_chunks: new_id_set(),
            meshing_chunks: new_id_set(),
            neighbor_count: new_count_table(),
            meshing_queue: new_id_set(),
        };
        assert(r.generated() =~= Set::empty());
        assert forall|c: (i32, i32)| #[trigger] r.count(c) == if near(c) {
            ready_count(r.generated(), c) as int
        } else {
            0
        } by {}
        r
    }

    /// The generated chunk with identity `id`, if there is one.
    pub fn chunk(&self, id: ChunkId) -> (r: Option<Arc<Chunk>>)
        requires
            self.wf(),
        ensures
            r is Some <==> self.chunk_map().contains_key(id.key()),
            r matches Some(c) ==> *c == self.chunk_map()[id.key()] && c.wf() && c.chunk_id == id,
    {
        let r = chunk_table_get(&self.chunks, (id.x, id.y));
        assert(self.chunk_map().contains_key(id.key()) ==> self.chunk_map()[id.key()].wf()
            && self.chunk_map()[id.key()].chunk_id.key() == id.key());
        r
    }

    /// `b` keeps `a`'s tables but the generating set, and may drop queued identities.
    proof fn lemma_wf_kept(a: World, b: World)
        requires
            a.wf(),
            b.chunks == a.chunks,
            b.neighbor_count == a.neighbor_count,
            b.meshing_chunks == a.meshing_chunks,
            b.queued().subset_of(a.queued()),
        ensures
            b.wf(),
    {
        assert(b.chunk_map() == a.chunk_map());
        assert(b.meshing() == a.meshing());
        assert(b.queued().subset_of(b.meshing()));
        assert forall|c: (i32, i32)| #[trigger] b.count(c) == if near(c) {
            ready_count(b.generated(), c) as int
        } else {
            0
        } by {
            assert(a.count(c) == b.count(c));
        }
        assert forall|c: (i32, i32)| #[trigger] b.meshing().contains(c) <==> near(c) && ready_count(b.generated(), c) == 9 by {
            assert(a.meshing().contains(c) == b.meshing().contains(c));
        }
    }

    /// Installs a freshly generated chunk, clears its generating mark, and
    /// raises the readiness counter of it and each of its eight neighbors.
    /// An identity whose counter thereby reaches 9 is admitted to meshing
    /// and queued; no identity is ever admitted twice.
    pub fn publish_chunk(&mut self, chunk: Chunk)
        requires
            old(self).wf(),
            chunk.wf(),
            chunk.chunk_id.valid(),
            !old(self).chunk_map().contains_key(chunk.chunk_id.key()),
        ensures
            final(self).wf(),
            final(self).chunk_map() == old(self).chunk_map().insert(chunk.chunk_id.key(), chunk),
            final(self).generating() == old(self).generating().remove(chunk.chunk_id.key()),
            forall|c: (i32, i32)| #[trigger] final(self).count(c) == old(self).count(c) + if among_first(chunk.chunk_id.key(), c, 9) {
                1int
            } else {
                0
            },
            forall|c: (i32, i32)| #[trigger] final(self).queued().contains(c) <==> old(self).queued().contains(c) || (
                old(self).count(c) == 8 && final(self).count(c) == 9),
            forall|c: (i32, i32)| #[trigger] final(self).meshing().contains(c) <==> old(self).meshing().contains(c) || (
                old(self).count(c) == 8 && final(self).count(c) == 9),
            forall|c: (i32, i32)| old(self).count(c) == 8 && final(self).count(c) == 9 ==> !(
                #[trigger] old(self).meshing().contains(c)),
    {
        let ghost old_gen = self.generated();
        let ghost old_counts = count_entries(self.neighbor_count);
        let ghost old_queue = self.queued();
        let ghost old_meshing = self.meshing();
        assert forall|c: (i32, i32)| #[trigger] count_in(old_counts, c) == if near(c) {
            ready_count(old_gen, c) as int
        } else {
            0
        } by {
            assert(old(self).count(c) == count_in(old_counts, c));
        }
        let g = (chunk.chunk_id.x, chunk.chunk_id.y);
        let ghost new_gen = old_gen.insert(g);
        let ghost new_map = self.chunk_map().insert(g, chunk);
        chunk_table_insert(&mut self.chunks, g, Arc::new(chunk));
        id_set_remove(&mut self.generating_chunks, g);
        assert(self.generated() =~= new_gen);
        let mut j: usize = 0;
        while j < 9
            invariant
                j <= 9,
                -CHUNK_ID_LIMIT <= g.0 <= CHUNK_ID_LIMIT && -CHUNK_ID_LIMIT <= g.1 <= CHUNK_ID_LIMIT,
                !old_gen.contains(g),
                self.generated() == new_gen,
                self.chunk_map() == new_map,
                self.generating() == old(self).generating().remove(g),
                forall|k: (i32, i32)| #[trigger] self.chunk_map().contains_key(k) ==> {
                    &&& self.chunk_map()[k].wf()
                    &&& self.chunk_map()[k].chunk_id.key() == k
                    &&& self.chunk_map()[k].chunk_id.valid()
                },
                forall|c: (i32, i32)| #[trigger] count_in(old_counts, c) == if near(c) {
                    ready_count(old_gen, c) as int
                } else {
                    0
                },
                forall|c: (i32, i32)| #[trigger] old_meshing.contains(c) <==> near(c) && ready_count(old_gen, c) == 9,
                old_queue.subset_of(old_meshing),
                forall|c: (i32, i32)| #[trigger] count_in(count_entries(self.neighbor_count), c) == count_in(old_counts, c) + if among_first(g, c, j as int) {
                    1int
                } else {
                    0
                },
                forall|c: (i32, i32)| #[trigger] set_members(self.meshing_chunks).contains(c) <==> old_meshing.contains(c) || (
                    among_first(g, c, j as int) && count_in(old_counts, c) == 8),
                forall|c: (i32, i32)| #[trigger] set_members(self.meshing_queue).contains(c) <==> old_queue.contains(c) || (
                    among_first(g, c, j as int) && count_in(old_counts, c) == 8),
            decreases 9 - j,
        {
            let d = neighbor(j);
            let n = (g.0 + d.0, g.1 + d.1);
            assert(n == shifted(g, neighbor_offset(j as int)));
            assert(near(n));
            proof {
                reveal_with_fuel(among_first, 10);
                assert(!among_first(g, n, j as int));
            }
            let ghost pre_counts = count_entries(self.neighbor_count);
            let ghost pre_meshing = set_members(self.meshing_chunks);
            let ghost pre_queue = set_members(self.meshing_queue);
            let prev = match count_table_get(&self.neighbor_count, n) {
                Some(c) => c,
                None => 0,
            };
            assert(prev == count_in(pre_counts, n));
            assert(prev == count_in(old_counts, n));
            assert(prev <= 8) by {
                assert(count_in(old_counts, n) == ready_count(old_gen, n));
                assert(has_neighbor(old_gen, n, j as int) == 0);
            }
            count_table_insert(&mut self.neighbor_count, n, prev + 1);
            if prev + 1 == 9 && !id_set_contains(&self.meshing_chunks, n) {
                id_set_insert(&mut self.meshing_chunks, n);
                id_set_insert(&mut self.meshing_queue, n);
            }
            proof {
                assert(prev == 8 ==> !pre_meshing.contains(n));
                assert forall|c: (i32, i32)| #[trigger] count_in(count_entries(self.neighbor_count), c) == count_in(old_counts, c) + if among_first(g, c, j + 1) {
                    1int
                } else {
                    0
                } by {
                    reveal_with_fuel(among_first, 2);
                    assert(count_in(pre_counts, c) == count_in(old_counts, c) + if among_first(g, c, j as int) { 1int } else { 0 });
                }
                assert forall|c: (i32, i32)| #[trigger] set_members(self.meshing_chunks).contains(c) <==> old_meshing.contains(c) || (
                    among_first(g, c, j + 1) && count_in(old_counts, c) == 8) by {
                    reveal_with_fuel(among_first, 2);
                    assert(pre_meshing.contains(c) <==> old_meshing.contains(c) || (
                        among_first(g, c, j as int) && count_in(old_counts, c) == 8));
                }
                assert forall|c: (i32, i32)| #[trigger] set_members(self.meshing_queue).contains(c) <==> old_queue.contains(c) || (
                    among_first(g, c, j + 1) && count_in(old_counts, c) == 8) by {
                    reveal_with_fuel(among_first, 2);
                    assert(pre_queue.contains(c) <==> old_queue.contains(c) || (
                        among_first(g, c, j as int) && count_in(old_counts, c) == 8));
                }
            }
            j = j + 1;
        }
        proof {
            assert forall|c: (i32, i32)| #[trigger] self.count(c) == if near(c) {
                ready_count(self.generated(), c) as int
            } else {
                0
            } by {
                assert(count_in(count_entries(self.neighbor_count), c) == count_in(old_counts, c) + if among_first(g, c, 9) { 1int } else { 0 });
                if near(c) {
                    lemma_ready_count_add(old_gen, g, c);
                } else {
                    reveal_with_fuel(among_first, 10);
                }
            }
            assert forall|c: (i32, i32)| #[trigger] self.meshing().contains(c) <==> near(c) && ready_count(self.generated(), c) == 9 by {
                assert(count_in(count_entries(self.neighbor_count), c) == count_in(old_counts, c) + if among_first(g, c, 9) { 1int } else { 0 });
                assert(set_members(self.meshing_chunks).contains(c) <==> old_meshing.contains(c) || (
                    among_first(g, c, 9) && count_in(old_counts, c) == 8));
                if near(c) {
                    lemma_ready_count_add(old_gen, g, c);
                } else {
                    reveal_with_fuel(among_first, 10);
                }
            }
            assert forall|c: (i32, i32)| #[trigger] self.count(c) == old(self).count(c) + if among_first(g, c, 9) {
                1int
            } else {
                0
            } by {
                assert(count_in(count_entries(self.neighbor_count), c) == count_in(old_counts, c) + if among_first(g, c, 9) { 1int } else { 0 });
            }
            assert forall|c: (i32, i32)| #[trigger] self.queued().contains(c) <==> old(self).queued().contains(c) || (
                old(self).count(c) == 8 && self.count(c) == 9) by {
                assert(count_in(count_entries(self.neighbor_count), c) == count_in(old_counts, c) + if among_first(g, c, 9) { 1int } else { 0 });
                assert(set_members(self.meshing_queue).contains(c) <==> old_queue.contains(c) || (
                    among_first(g, c, 9) && count_in(old_counts, c) == 8));
            }
            assert forall|c: (i32, i32)| #[trigger] self.meshing().contains(c) <==> old(self).meshing().contains(c) || (
                old(self).count(c) == 8 && self.count(c) == 9) by {
                assert(count_in(count_entries(self.neighbor_count), c) == count_in(old_counts, c) + if among_first(g, c, 9) { 1int } else { 0 });
                assert(set_members(self.meshing_chunks).contains(c) <==> old_meshing.contains(c) || (
                    among_first(g, c, 9) && count_in(old_counts, c) == 8));
            }
            assert forall|c: (i32, i32)| old(self).count(c) == 8 && self.count(c) == 9 implies !(
                #[trigger] old(self).meshing().contains(c)) by {
                assert(count_in(old_counts, c) == if near(c) { ready_count(old_gen, c) as int } else { 0 });
            }
        }
    }
}

/// Whether the chunk at `viewer + o` lies within the addressable world.
pub open spec fn target_valid(viewer: ChunkId, o: (i32, i32)) -> bool {
    -CHUNK_ID_LIMIT <= viewer.x + o.0 <= CHUNK_ID_LIMIT && -CHUNK_ID_LIMIT <= viewer.y + o.1 <= CHUNK_ID_LIMIT
}

/// The chunk at `viewer + o`.
pub open spec fn target(viewer: ChunkId, o: (i32, i32)) -> ChunkId {
    ChunkId { x: (viewer.x + o.0) as i32, y: (viewer.y + o.1) as i32 }
}

/// The identities that a pass over `priority` (offsets from `viewer`) hands
/// out for generation, in order: each valid target that is neither
/// `present`, nor `generating`, nor handed out earlier in the pass.
pub open spec fn to_generate(
    priority: Seq<(i32, i32)>,
    viewer: ChunkId,
    present: Set<(i32, i32)>,
    generating: Set<(i32, i32)>,
) -> Seq<ChunkId>
    decreases priority.len(),
{
    if priority.len() == 0 {
        Seq::empty()
    } else {
        let prev = to_generate(priority.drop_last(), viewer, present, generating);
        let t = target(viewer, priority.last());
        if target_valid(viewer, priority.last()) && !present.contains(t.key()) && !generating.contains(t.key())
            && !prev.contains(t) {
            prev.push(t)
        } else {
            prev
        }
    }
}

impl World {
    /// Whether the chunk with identity `id` has been generated.
    pub fn contains_chunk(&self, id: ChunkId) -> (r: bool)
        ensures
            r == self.chunk_map().contains_key(id.key()),
    {
        chunk_table_contains(&self.chunks, (id.x, id.y))
    }

    /// Whether the chunk with identity `id` is being generated.
    pub fn is_generating(&self, id: ChunkId) -> (r: bool)
        ensures
            r == self.generating().contains(id.key()),
    {
        id_set_contains(&self.generating_chunks, (id.x, id.y))
    }

    /// Marks for generation, and returns in priority order, every chunk at
    /// `viewer + offset` (offsets taken from `priority`) that is neither
    /// generated nor already being generated.
    pub fn update_chunk_state(&mut self, viewer: ChunkId, priority: &Vec<(i32, i32)>) -> (r: Vec<ChunkId>)
        requires
            old(self).wf(),
        ensures
            final(self).wf(),
            r@ == to_generate(priority@, viewer, old(self).generated(), old(self).generating()),
            forall|c: (i32, i32)| #[trigger] final(self).generating().contains(c) <==> old(self).generating().contains(c)
                || r@.contains(ChunkId { x: c.0, y: c.1 }),
            final(self).chunk_map() == old(self).chunk_map(),
            final(self).meshing() == old(self).meshing(),
            final(self).queued() == old(self).queued(),
            forall|c: (i32, i32)| #[trigger] final(self).count(c) == old(self).count(c),
    {
        let ghost present = self.generated();
        let ghost was_generating = self.generating();
        let mut r: Vec<ChunkId> = Vec::new();
        let mut i: usize = 0;
        while i < priority.len()
            invariant
                i <= priority.len(),
                self.chunks == old(self).chunks,
                self.neighbor_count == old(self).neighbor_count,
                self.meshing_chunks == old(self).meshing_chunks,
                self.meshing_queue == old(self).meshing_queue,
                present == old(self).generated(),
                was_generating == old(self).generating(),
                r@ == to_generate(priority@.take(i as int), viewer, present, was_generating),
                forall|c: (i32, i32)| #[trigger] set_members(self.generating_chunks).contains(c) <==> was_generating.contains(c)
                    || r@.contains(ChunkId { x: c.0, y: c.1 }),
            decreases priority.len() - i,
        {
            let o = priority[i];
            let ghost prefix = priority@.take(i as int + 1);
            assert(prefix.drop_last() =~= priority@.take(i as int));
            assert(prefix.last() == o);
            let tx = viewer.x as i64 + o.0 as i64;
            let ty = viewer.y as i64 + o.1 as i64;
            if -(CHUNK_ID_LIMIT as i64) <= tx && tx <= CHUNK_ID_LIMIT as i64 && -(CHUNK_ID_LIMIT as i64) <= ty
                && ty <= CHUNK_ID_LIMIT as i64 {
                let id = ChunkId::new(tx as i32, ty as i32);
                assert(id == target(viewer, o));
                let present_now = chunk_table_contains(&self.chunks, (id.x, id.y));
                let generating_now = id_set_contains(&self.generating_chunks, (id.x, id.y));
                if !present_now && !generating_now {
                    let ghost pre = set_members(self.generating_chunks);
                    let ghost old_r = r@;
                    id_set_insert(&mut self.generating_chunks, (id.x, id.y));
                    r.push(id);
                    proof {
                        lemma_push_contains(old_r, id);
                        assert forall|c: (i32, i32)| #[trigger] set_members(self.generating_chunks).contains(c) <==> was_generating.contains(c)
                            || r@.contains(ChunkId { x: c.0, y: c.1 }) by {
                            assert(pre.contains(c) <==> was_generating.contains(c) || old_r.contains(ChunkId { x: c.0, y: c.1 }));
                            assert(r@.contains(ChunkId { x: c.0, y: c.1 }) <==> old_r.contains(ChunkId { x: c.0, y: c.1 }) || ChunkId { x: c.0, y: c.1 } == id);
                        }
                    }
                } else {
                    assert(generating_now ==> was_generating.contains(id.key()) || r@.contains(id));
                }
            }
            i = i + 1;
        }
        assert(priority@.take(priority.len() as int) =~= priority@);
        proof {
            World::lemma_wf_kept(*old(self), *self);
        }
        r
    }

    /// Hands out every queued identity (in no particular order) and empties the queue.
    pub fn take_mesh_queue(&mut self) -> (r: Vec<ChunkId>)
        requires
            old(self).wf(),
        ensures
            final(self).wf(),
            forall|c: (i32, i32)| !final(self).queued().contains(c),
            forall|i: int| 0 <= i < r@.len() ==> old(self).queued().contains(#[trigger] r@[i].key()),
            forall|c: (i32, i32)| old(self).queued().contains(c) ==> r@.contains(ChunkId { x: c.0, y: c.1 }),
            forall|i: int, j: int| 0 <= i < j < r@.len() ==> r@[i] != r@[j],
            final(self).chunk_map() == old(self).chunk_map(),
            final(self).generating() == old(self).generating(),
            final(self).meshing() == old(self).meshing(),
            forall|c: (i32, i32)| #[trigger] final(self).count(c) == old(self).count(c),
    {
        let members = id_set_members(&self.meshing_queue);
        let ghost queued = self.queued();
        let mut r: Vec<ChunkId> = Vec::new();
        let mut i: usize = 0;
        while i < members.len()
            invariant
                i <= members.len(),
                members@.no_duplicates(),
                members@.to_set() == queued,
                queued == old(self).queued(),
                self.chunks == old(self).chunks,
                self.neighbor_count == old(self).neighbor_count,
                self.meshing_chunks == old(self).meshing_chunks,
                self.generating_chunks == old(self).generating_chunks,
                r@.len() == i,
                forall|k: int| 0 <= k < i ==> (#[trigger] r@[k]).key() == members@[k],
                forall|c: (i32, i32)| #[trigger] set_members(self.meshing_queue).contains(c) <==> queued.contains(c)
                    && !members@.take(i as int).contains(c),
            decreases members.len() - i,
        {
            let k = members[i];
            let ghost pre = set_members(self.meshing_queue);
            id_set_remove(&mut self.meshing_queue, k);
            r.push(ChunkId::new(k.0, k.1));
            proof {
                assert(members@.take(i as int + 1) =~= members@.take(i as int).push(k));
                lemma_push_contains(members@.take(i as int), k);
                assert forall|c: (i32, i32)| #[trigger] set_members(self.meshing_queue).contains(c) <==> queued.contains(c)
                    && !members@.take(i as int + 1).contains(c) by {
                    assert(pre.contains(c) <==> queued.contains(c) && !members@.take(i as int).contains(c));
                }
            }
            i = i + 1;
        }
        proof {
            assert(members@.take(members.len() as int) =~= members@);
            assert forall|c: (i32, i32)| !self.queued().contains(c) by {
                if queued.contains(c) {
                    assert(members@.to_set().contains(c));
                }
            }
            assert forall|c: (i32, i32)| old(self).queued().contains(c) implies r@.contains(ChunkId { x: c.0, y: c.1 }) by {
                assert(members@.to_set().contains(c));
                let k = choose|k: int| 0 <= k < members@.len() && members@[k] == c;
                assert(r@[k].key() == c);
            }
            assert forall|a: int| 0 <= a < r@.len() implies old(self).queued().contains(#[trigger] r@[a].key()) by {
                assert(members@.contains(members@[a]));
            }
            World::lemma_wf_kept(*old(self), *self);
        }
        r
    }

    /// Builds the mesh of the generated chunk `id` against the chunks
    /// generated so far.
    pub fn mesh_chunk(&self, id: ChunkId) -> (r: TmpMesh)
        requires
            self.wf(),
            self.chunk_map().contains_key(id.key()),
        ensures
            r.holds(self.chunk_map()[id.key()].quads(self.chunk_map())),
    {
        match self.chunk(id) {
            Some(chunk) => chunk.generate_mesh(self),
            None => {
                assert(false);
                TmpMesh::new(0)
            },
        }
    }
}

impl World {
    /// Readiness: the counter of an identity is the number of generated
    /// chunks among it and its eight neighbors, and the identity is admitted
    /// to meshing exactly when all nine are generated, i.e. its counter is 9.
    pub proof fn lemma_meshing_iff_neighborhood_generated(&self, c: (i32, i32))
        requires
            self.wf(),
            near(c),
        ensures
            self.generated() == self.chunk_map().dom(),
            self.count(c) == ready_count(self.generated(), c),
            0 <= self.count(c) <= 9,
            self.meshing().contains(c) <==> self.count(c) == 9,
            self.meshing().contains(c) <==> forall|j: int|
                0 <= j < 9 ==> self.generated().contains(
                    #[trigger] shifted(c, (-neighbor_offset(j).0, -neighbor_offset(j).1)),
                ),
    {
        if !self.meshing().contains(c) {
            assert(exists|j: int|
                0 <= j < 9 && !self.generated().contains(
                    #[trigger] shifted(c, (-neighbor_offset(j).0, -neighbor_offset(j).1)),
                )) by {
                if has_neighbor(self.generated(), c, 0) == 0 {
                    assert(!self.generated().contains(shifted(c, (-neighbor_offset(0).0, -neighbor_offset(0).1))));
                } else if has_neighbor(self.generated(), c, 1) == 0 {
                    assert(!self.generated().contains(shifted(c, (-neighbor_offset(1).0, -neighbor_offset(1).1))));
                } else if has_neighbor(self.generated(), c, 2) == 0 {
                    assert(!self.generated().contains(shifted(c, (-neighbor_offset(2).0, -neighbor_offset(2).1))));
                } else if has_neighbor(self.generated(), c, 3) == 0 {
                    assert(!self.generated().contains(shifted(c, (-neighbor_offset(3).0, -neighbor_offset(3).1))));
                } else if has_neighbor(self.generated(), c, 4) == 0 {
                    assert(!self.generated().contains(shifted(c, (-neighbor_offset(4).0, -neighbor_offset(4).1))));
                } else if has_neighbor(self.generated(), c, 5) == 0 {
                    assert(!self.generated().contains(shifted(c, (-neighbor_offset(5).0, -neighbor_offset(5).1))));
                } else if has_neighbor(self.generated(), c, 6) == 0 {
                    assert(!self.generated().contains(shifted(c, (-neighbor_offset(6).0, -neighbor_offset(6).1))));
                } else if has_neighbor(self.generated(), c, 7) == 0 {
                    assert(!self.generated().contains(shifted(c, (-neighbor_offset(7).0, -neighbor_offset(7).1))));
                } else {
                    assert(!self.generated().contains(shifted(c, (-neighbor_offset(8).0, -neighbor_offset(8).1))));
                }
            }
        } else {
            assert forall|j: int| 0 <= j < 9 implies self.generated().contains(
                #[trigger] shifted(c, (-neighbor_offset(j).0, -neighbor_offset(j).1)),
            ) by {
                assert(has_neighbor(self.generated(), c, j) == 1);
            }
        }
    }
}

} // verus!
