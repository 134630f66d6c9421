//! A dimension: its resident chunks, the in-flight deduplication set and
//! the streaming-window loading policy.
//!
//! A chunk request is issued only for a coordinate inside the world
//! bounds that is neither resident nor already in flight; issuing inserts
//! it into the in-flight set, and ingesting the generated chunk moves it
//! into the store.

use std::collections::HashMap;
use std::collections::HashSet;
use vstd::prelude::*;

use crate::chunk::Chunk;
use crate::chunk::ChunkPos;
use crate::sampler::chunk_key_spec;
use crate::sampler::chunk_key;
use crate::sampler::lemma_chunk_key_injective;
use crate::schema::BiomeMapAdjustments;
use crate::schema::DimensionSchema;

verus! {

broadcast use vstd::std_specs::hash::group_hash_axioms;

/// A coordinate lies inside the world bounds: strictly less than half
/// the world size away from the origin on both axes.
pub open spec fn in_bounds_spec(pos: ChunkPos, size_x: u32, size_y: u32) -> bool {
    let half_x = size_x as int / 2;
    let half_y = size_y as int / 2;
    -half_x < pos.x < half_x && -half_y < pos.y < half_y
}

/// A request may be issued for `pos`: inside the bounds, not resident,
/// not in flight.
pub open spec fn loadable_sets(
    in_flight: Set<u64>,
    resident: Set<u64>,
    size_x: u32,
    size_y: u32,
    pos: ChunkPos,
) -> bool {
    &&& in_bounds_spec(pos, size_x, size_y)
    &&& !resident.contains(chunk_key_spec(pos.x, pos.y))
    &&& !in_flight.contains(chunk_key_spec(pos.x, pos.y))
}

/// Bounds rejection: outside the world bounds no request is ever
/// issued, whatever the loading state.
pub proof fn lemma_bounds_reject(
    in_flight: Set<u64>,
    resident: Set<u64>,
    size_x: u32,
    size_y: u32,
    pos: ChunkPos,
)
    requires
        pos.x >= size_x as int / 2 || -pos.x >= size_x as int / 2 || pos.y >= size_y as int / 2
            || -pos.y >= size_y as int / 2,
    ensures
        !loadable_sets(in_flight, resident, size_x, size_y, pos),
{
}

/// Idempotence of enqueueing: once a request for `pos` is issued, a
/// repeat request is refused while the chunk is in flight, and it stays
/// refused once the generated chunk has been ingested into the store.
pub proof fn lemma_enqueue_idempotent(
    in_flight: Set<u64>,
    resident: Set<u64>,
    size_x: u32,
    size_y: u32,
    pos: ChunkPos,
)
    ensures
        !loadable_sets(
            in_flight.insert(chunk_key_spec(pos.x, pos.y)),
            resident,
            size_x,
            size_y,
            pos,
        ),
        !loadable_sets(
            in_flight.remove(chunk_key_spec(pos.x, pos.y)),
            resident.insert(chunk_key_spec(pos.x, pos.y)),
            size_x,
            size_y,
            pos,
        ),
{
}

/// A coordinate of the fixed streaming window centred on the origin.
pub open spec fn window_member_spec(pos: ChunkPos) -> bool {
    -2 <= pos.x <= 2 && -2 <= pos.y <= 2
}

/// The scan rank of a window coordinate: x runs outermost.
pub open spec fn window_rank_spec(pos: ChunkPos) -> int {
    (pos.x + 2) * 5 + (pos.y + 2)
}

/// A dimension's loading state.
#[derive(Debug)]
pub struct Dimension {
    pub name: String,
    pub size_x: u32,
    pub size_y: u32,
    pub biome_map_adjustments: Option<BiomeMapAdjustments>,
    pub chunks: HashMap<u64, Chunk>,
    pub in_flight: HashSet<u64>,
}

impl Dimension {
    /// Every resident chunk is well formed.
    pub open spec fn wf(self) -> bool {
        forall|k: u64|
            self.chunks@.dom().contains(k) ==> (#[trigger] self.chunks@[k]).wf()
    }

    /// A request may be issued for `pos` in the current state.
    pub open spec fn loadable_spec(self, pos: ChunkPos) -> bool {
        loadable_sets(self.in_flight@, self.chunks@.dom(), self.size_x, self.size_y, pos)
    }

    /// Creates an empty dimension from its schema.
    pub fn from_schema(schema: &DimensionSchema) -> (r: Dimension)
        ensures
            r.wf(),
            r.name@ == schema.name@,
            r.size_x == schema.size_x,
            r.size_y == schema.size_y,
            r.biome_map_adjustments == schema.biome_map_adjustments,
            r.chunks@ == Map::<u64, Chunk>::empty(),
            r.in_flight@ == Set::<u64>::empty(),
    {
        Dimension {
            name: schema.name.clone(),
            size_x: schema.size_x,
            size_y: schema.size_y,
            biome_map_adjustments: schema.biome_map_adjustments,
            chunks: HashMap::new(),
            in_flight: HashSet::new(),
        }
    }

    /// Whether `pos` lies inside the world bounds.
    pub fn chunk_within_world_bounds(&self, pos: ChunkPos) -> (r: bool)
        ensures
            r == in_bounds_spec(pos, self.size_x, self.size_y),
    {
        let half_x = (self.size_x / 2) as i64;
        let half_y = (self.size_y / 2) as i64;
        let x = pos.x as i64;
        let y = pos.y as i64;
        -half_x < x && x < half_x && -half_y < y && y < half_y
    }

    /// Whether the chunk at `pos` is resident.
    pub fn chunk_at(&self, pos: ChunkPos) -> (r: bool)
        ensures
            r == self.chunks@.dom().contains(chunk_key_spec(pos.x, pos.y)),
    {
        let key = chunk_key(pos.x, pos.y);
        self.chunks.contains_key(&key)
    }

    /// Tries to enqueue the chunk at `pos`: a no-op outside the world
    /// bounds, for a resident chunk or for one already in flight;
    /// otherwise the coordinate joins the in-flight set and the caller
    /// must send the request.
    pub fn try_load_chunk(&mut self, chunk_pos: ChunkPos) -> (issued: bool)
        ensures
            issued == old(self).loadable_spec(chunk_pos),
            final(self).in_flight@ == if issued {
                old(self).in_flight@.insert(chunk_key_spec(chunk_pos.x, chunk_pos.y))
            } else {
                old(self).in_flight@
            },
            final(self).chunks@ == old(self).chunks@,
            final(self).name == old(self).name,
            final(self).size_x == old(self).size_x,
            final(self).size_y == old(self).size_y,
            final(self).biome_map_adjustments == old(self).biome_map_adjustments,
    {
        if !self.chunk_within_world_bounds(chunk_pos) {
            return false;
        }
        if self.chunk_at(chunk_pos) {
            return false;
        }
        let key = chunk_key(chunk_pos.x, chunk_pos.y);
        if self.in_flight.contains(&key) {
            return false;
        }
        self.in_flight.insert(key);
        true
    }

    /// Walks the fixed 5x5 streaming window centred on the origin and
    /// enqueues every loadable coordinate, returning the coordinates
    /// whose requests must now be sent: exactly the window coordinates
    /// that were loadable beforehand, each at most once.
    pub fn load_chunks(&mut self) -> (r: Vec<ChunkPos>)
        ensures
            final(self).chunks@ == old(self).chunks@,
            final(self).name == old(self).name,
            final(self).size_x == old(self).size_x,
            final(self).size_y == old(self).size_y,
            final(self).biome_map_adjustments == old(self).biome_map_adjustments,
            r@.no_duplicates(),
            forall|idx: int|
                0 <= idx < r@.len() ==> window_member_spec(#[trigger] r@[idx]) && old(
                    self,
                ).loadable_spec(r@[idx]),
            forall|p: ChunkPos|
                window_member_spec(p) && old(self).loadable_spec(p) ==> r@.contains(p),
            forall|p: ChunkPos|
                final(self).in_flight@.contains(#[trigger] chunk_key_spec(p.x, p.y)) <==> (old(
                    self,
                ).in_flight@.contains(chunk_key_spec(p.x, p.y)) || r@.contains(p)),
    {
        let mut out: Vec<ChunkPos> = Vec::new();
        let mut k: usize = 0;
        while k < 25
            invariant
                k <= 25,
                self.chunks@ == old(self).chunks@,
                self.name == old(self).name,
                self.size_x == old(self).size_x,
                self.size_y == old(self).size_y,
                self.biome_map_adjustments == old(self).biome_map_adjustments,
                out@.no_duplicates(),
                forall|idx: int|
                    0 <= idx < out@.len() ==> window_member_spec(#[trigger] out@[idx]) && old(
                        self,
                    ).loadable_spec(out@[idx]) && window_rank_spec(out@[idx]) < k,
                forall|p: ChunkPos|
                    window_member_spec(p) && window_rank_spec(p) < k && old(self).loadable_spec(p)
                        ==> out@.contains(p),
                forall|p: ChunkPos|
                    self.in_flight@.contains(#[trigger] chunk_key_spec(p.x, p.y)) <==> (old(
                        self,
                    ).in_flight@.contains(chunk_key_spec(p.x, p.y)) || out@.contains(p)),
            decreases 25 - k,
        {
            let pos = ChunkPos { x: (k / 5) as i32 - 2, y: (k % 5) as i32 - 2 };
            proof {
                assert(window_member_spec(pos) && window_rank_spec(pos) == k);
                assert(!out@.contains(pos)) by {
                    if out@.contains(pos) {
                        let idx = choose|idx: int|
                            0 <= idx < out@.len() && out@[idx] == pos;
                        assert(window_rank_spec(out@[idx]) < k);
                    }
                }
            }
            let ghost pre_in_flight = self.in_flight@;
            let ghost pre_out = out@;
            let issued = self.try_load_chunk(pos);
            if issued {
                out.push(pos);
            }
            proof {
                // The starting-state invariant and key injectivity close
                // the gap between this iteration's state and the next.
                if !issued && old(self).loadable_spec(pos) {
                    // Impossible: the position's key can only have entered
                    // the in-flight set through an earlier window slot,
                    // and all earlier slots have smaller ranks.
                    assert(pre_in_flight.contains(chunk_key_spec(pos.x, pos.y)));
                    assert(pre_out.contains(pos));
                    let idx = choose|idx: int| 0 <= idx < pre_out.len() && pre_out[idx] == pos;
                    assert(window_rank_spec(pre_out[idx]) < k);
                }
                assert forall|p: ChunkPos|
                    self.in_flight@.contains(#[trigger] chunk_key_spec(p.x, p.y)) <==> (old(
                        self,
                    ).in_flight@.contains(chunk_key_spec(p.x, p.y)) || out@.contains(p)) by {
                    if chunk_key_spec(p.x, p.y) == chunk_key_spec(pos.x, pos.y) {
                        lemma_chunk_key_injective(p.x, p.y, pos.x, pos.y);
                    }
                    if issued {
                        assert(out@ == pre_out.push(pos));
                        assert(out@[out@.len() - 1] == pos);
                        if p == pos {
                            assert(self.in_flight@.contains(chunk_key_spec(p.x, p.y)));
                            assert(out@.contains(p));
                        } else {
                            assert(out@.contains(p) <==> pre_out.contains(p)) by {
                                if out@.contains(p) {
                                    let idx = choose|idx: int|
                                        0 <= idx < out@.len() && out@[idx] == p;
                                    assert(idx < pre_out.len() && pre_out[idx] == p);
                                }
                                if pre_out.contains(p) {
                                    let idx = choose|idx: int|
                                        0 <= idx < pre_out.len() && pre_out[idx] == p;
                                    assert(out@[idx] == p);
                                }
                            }
                            assert(self.in_flight@.contains(chunk_key_spec(p.x, p.y))
                                <==> pre_in_flight.contains(chunk_key_spec(p.x, p.y)));
                        }
                    } else {
                        assert(out@ == pre_out);
                        assert(self.in_flight@ == pre_in_flight);
                    }
                }
            }
            k = k + 1;
        }
        out
    }

    /// Ingests one generated chunk: it becomes resident and leaves the
    /// in-flight set.
    pub fn receive_chunk(&mut self, chunk_pos: ChunkPos, chunk: Chunk)
        requires
            old(self).wf(),
            chunk.wf(),
        ensures
            final(self).wf(),
            final(self).chunks@ == old(self).chunks@.insert(
                chunk_key_spec(chunk_pos.x, chunk_pos.y),
                chunk,
            ),
            final(self).in_flight@ == old(self).in_flight@.remove(
                chunk_key_spec(chunk_pos.x, chunk_pos.y),
            ),
            final(self).name == old(self).name,
            final(self).size_x == old(self).size_x,
            final(self).size_y == old(self).size_y,
            final(self).biome_map_adjustments == old(self).biome_map_adjustments,
    {
        let key = chunk_key(chunk_pos.x, chunk_pos.y);
        self.chunks.insert(key, chunk);
        self.in_flight.remove(&key);
    }

    /// The number of resident chunks.
    pub fn chunk_count(&self) -> (r: usize)
        ensures
            r == self.chunks@.len(),
    {
        self.chunks.len()
    }
}

} // verus!
