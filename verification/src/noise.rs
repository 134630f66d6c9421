//! Noise-side data of the world core: cached layers, the deterministic
//! generator-seed sequence, scattered biome sample points, and the
//! inverse-distance interpolation that turns point samples into per-chunk
//! temperature and humidity maps.
//!
//! Raw noise samples enter the core as fixed-point integers in
//! thousandths; the sampling itself is done outside, so everything here is
//! a mathematical function of the seed and the handed-in samples.

use vstd::prelude::*;

use crate::block::ChunkRelativePos;
use crate::constants::BIOME_SAMPLE_POINT_AMOUNT;
use crate::constants::CHUNK_BLOCK_COUNT;
use crate::constants::CHUNK_SIZE;
use crate::rng::SeededRng;
use crate::rng::wyrand_i32;

verus! {

/// A per-chunk 2D noise layer: one byte (temperature or humidity) per
/// block, indexed by `y * CHUNK_SIZE + x`.
#[derive(Clone, PartialEq, Eq, Debug)]
pub struct NoiseLayer2D {
    pub layer: Vec<u8>,
}

impl NoiseLayer2D {
    /// The layer holds exactly one value per block of a chunk.
    pub open spec fn wf(self) -> bool {
        self.layer@.len() == CHUNK_BLOCK_COUNT
    }

    pub fn new() -> (r: NoiseLayer2D)
        ensures
            r.wf(),
            forall|i: int| 0 <= i < CHUNK_BLOCK_COUNT ==> r.layer@[i] == 0u8,
    {
        let mut layer: Vec<u8> = Vec::new();
        let mut i: usize = 0;
        while i < CHUNK_BLOCK_COUNT
            invariant
                i <= CHUNK_BLOCK_COUNT,
                layer@.len() == i,
                forall|j: int| 0 <= j < i ==> layer@[j] == 0u8,
            decreases CHUNK_BLOCK_COUNT - i,
        {
            layer.push(0);
            i = i + 1;
        }
        NoiseLayer2D { layer }
    }

    pub fn write(&mut self, chunk_relative_pos: ChunkRelativePos, value: u8)
        requires
            old(self).wf(),
            chunk_relative_pos.valid(),
        ensures
            final(self).wf(),
            final(self).layer@ == old(self).layer@.update(
                chunk_relative_pos.index_spec(),
                value,
            ),
    {
        let index = chunk_relative_pos.index();
        self.layer.set(index, value);
    }

    pub fn read(&self, chunk_relative_pos: ChunkRelativePos) -> (r: u8)
        requires
            self.wf(),
            chunk_relative_pos.valid(),
        ensures
            r == self.layer@[chunk_relative_pos.index_spec()],
    {
        let index = chunk_relative_pos.index();
        self.layer[index]
    }

    pub fn read_index(&self, index: usize) -> (r: u8)
        requires
            self.wf(),
            index < CHUNK_BLOCK_COUNT,
        ensures
            r == self.layer@[index as int],
    {
        self.layer[index]
    }

    /// An element-wise copy of the layer.
    pub fn duplicate(&self) -> (r: NoiseLayer2D)
        ensures
            r.layer@ == self.layer@,
    {
        let mut layer: Vec<u8> = Vec::new();
        let mut i: usize = 0;
        while i < self.layer.len()
            invariant
                i <= self.layer@.len(),
                layer@.len() == i,
                forall|j: int| 0 <= j < i ==> layer@[j] == self.layer@[j],
            decreases self.layer@.len() - i,
        {
            layer.push(self.layer[i]);
            i = i + 1;
        }
        proof {
            assert(layer@ =~= self.layer@);
        }
        NoiseLayer2D { layer }
    }
}

/// A per-column 1D noise layer: one fixed-point sample (thousandths) per
/// local x of a chunk column.
#[derive(Clone, PartialEq, Eq, Debug)]
pub struct NoiseLayer1D {
    pub layer: Vec<i64>,
}

impl NoiseLayer1D {
    /// The layer holds exactly one value per local x.
    pub open spec fn wf(self) -> bool {
        self.layer@.len() == CHUNK_SIZE
    }

    pub fn new() -> (r: NoiseLayer1D)
        ensures
            r.wf(),
            forall|i: int| 0 <= i < CHUNK_SIZE ==> r.layer@[i] == 0i64,
    {
        let mut layer: Vec<i64> = Vec::new();
        let mut i: usize = 0;
        while i < CHUNK_SIZE
            invariant
                i <= CHUNK_SIZE,
                layer@.len() == i,
                forall|j: int| 0 <= j < i ==> layer@[j] == 0i64,
            decreases CHUNK_SIZE - i,
        {
            layer.push(0);
            i = i + 1;
        }
        NoiseLayer1D { layer }
    }

    pub fn write(&mut self, x: usize, value: i64)
        requires
            old(self).wf(),
            x < CHUNK_SIZE,
        ensures
            final(self).wf(),
            final(self).layer@ == old(self).layer@.update(x as int, value),
    {
        self.layer.set(x, value);
    }

    pub fn read(&self, x: usize) -> (r: i64)
        requires
            self.wf(),
            x < CHUNK_SIZE,
        ensures
            r == self.layer@[x as int],
    {
        self.layer[x]
    }

    /// An element-wise copy of the layer.
    pub fn duplicate(&self) -> (r: NoiseLayer1D)
        ensures
            r.layer@ == self.layer@,
    {
        let mut layer: Vec<i64> = Vec::new();
        let mut i: usize = 0;
        while i < self.layer.len()
            invariant
                i <= self.layer@.len(),
                layer@.len() == i,
                forall|j: int| 0 <= j < i ==> layer@[j] == self.layer@[j],
            decreases self.layer@.len() - i,
        {
            layer.push(self.layer[i]);
            i = i + 1;
        }
        proof {
            assert(layer@ =~= self.layer@);
        }
        NoiseLayer1D { layer }
    }
}

/// Seeds of the seven coherent-noise generators, derived deterministically
/// from the dimension seed.
#[derive(Clone, Copy, PartialEq, Eq, Structural, Debug)]
pub struct NoiseGeneratorSeeds {
    pub biome_sampling: i32,
    pub continental: i32,
    pub mountainous: i32,
    pub hilly: i32,
    pub texture: i32,
    pub cellular: i32,
    pub gridlike: i32,
}

/// Generator state after `k` full-range draws from the dimension seed.
pub open spec fn full_draw_state(seed: u64, k: nat) -> u64
    decreases k,
{
    if k == 0 {
        seed
    } else {
        wyrand_i32(full_draw_state(seed, (k - 1) as nat), i32::MIN, i32::MAX).1
    }
}

/// Value of the `k`-th full-range draw from the dimension seed.
pub open spec fn full_draw(seed: u64, k: nat) -> i32 {
    wyrand_i32(full_draw_state(seed, k), i32::MIN, i32::MAX).0
}

/// The dimension seed negated, wrapping on overflow.
pub open spec fn negated_seed_spec(world_seed: i32) -> i32 {
    if world_seed == i32::MIN {
        i32::MIN
    } else {
        (-world_seed) as i32
    }
}

/// Derives the seeds of the seven noise generators: the continental
/// generator takes the dimension seed itself, biome sampling its wrapping
/// negation, and the five remaining generators successive full-range
/// draws of a wyrand generator seeded by the dimension seed.  This
/// sequence is what keeps generated worlds identical for equal seeds.
pub fn noise_generator_seeds(world_seed: i32) -> (r: NoiseGeneratorSeeds)
    ensures
        r.biome_sampling == negated_seed_spec(world_seed),
        r.continental == world_seed,
        r.mountainous == full_draw(world_seed as u64, 0),
        r.hilly == full_draw(world_seed as u64, 1),
        r.texture == full_draw(world_seed as u64, 2),
        r.cellular == full_draw(world_seed as u64, 3),
        r.gridlike == full_draw(world_seed as u64, 4),
{
    let ghost s0: u64 = world_seed as u64;
    let mut rng = SeededRng::with_seed(world_seed as u64);
    let biome_sampling = if world_seed == i32::MIN {
        i32::MIN
    } else {
        -world_seed
    };
    let mountainous = rng.next_i32_full();
    let hilly = rng.next_i32_full();
    let texture = rng.next_i32_full();
    let cellular = rng.next_i32_full();
    let gridlike = rng.next_i32_full();
    proof {
        assert(full_draw_state(s0, 0) == s0);
        assert(full_draw_state(s0, 1) == wyrand_i32(full_draw_state(s0, 0), i32::MIN, i32::MAX).1);
        assert(full_draw_state(s0, 2) == wyrand_i32(full_draw_state(s0, 1), i32::MIN, i32::MAX).1);
        assert(full_draw_state(s0, 3) == wyrand_i32(full_draw_state(s0, 2), i32::MIN, i32::MAX).1);
        assert(full_draw_state(s0, 4) == wyrand_i32(full_draw_state(s0, 3), i32::MIN, i32::MAX).1);
    }
    NoiseGeneratorSeeds {
        biome_sampling,
        continental: world_seed,
        mountainous,
        hilly,
        texture,
        cellular,
        gridlike,
    }
}

/// Generator state after `k` point-coordinate draws (range
/// `[0, CHUNK_SIZE)`) from the chunk seed.
pub open spec fn point_draw_state(seed: u64, k: nat) -> u64
    decreases k,
{
    if k == 0 {
        seed
    } else {
        wyrand_i32(point_draw_state(seed, (k - 1) as nat), 0, (CHUNK_SIZE - 1) as i32).1
    }
}

/// Value of the `k`-th point-coordinate draw from the chunk seed.
pub open spec fn point_draw(seed: u64, k: nat) -> i32 {
    wyrand_i32(point_draw_state(seed, k), 0, (CHUNK_SIZE - 1) as i32).0
}

/// The `i`-th scattered point as drawn: two successive coordinate draws.
pub open spec fn raw_point(seed: u64, i: nat) -> (i32, i32) {
    (point_draw(seed, 2 * i), point_draw(seed, (2 * i + 1) as nat))
}

/// The grid cell with flat index `n` inside a chunk.
pub open spec fn grid_cell(n: int) -> (i32, i32) {
    ((n % (CHUNK_SIZE as int)) as i32, (n / (CHUNK_SIZE as int)) as i32)
}

/// The first grid cell at or after flat index `n` that is not already
/// taken; the origin when the whole chunk is taken.
pub open spec fn first_free_cell_from(taken: Seq<(i32, i32)>, n: nat) -> (i32, i32)
    decreases CHUNK_BLOCK_COUNT - n,
{
    if n >= CHUNK_BLOCK_COUNT {
        (0, 0)
    } else if !taken.contains(grid_cell(n as int)) {
        grid_cell(n as int)
    } else {
        first_free_cell_from(taken, (n + 1) as nat)
    }
}

/// The scattered points chosen after `k` draws: each draw keeps its raw
/// coordinates unless they repeat an earlier chosen point, in which case
/// the earliest free grid cell takes the slot instead, so the chosen
/// points stay pairwise distinct.
pub open spec fn scatter_points(seed: u64, k: nat) -> Seq<(i32, i32)>
    decreases k,
{
    if k == 0 {
        Seq::empty()
    } else {
        let prev = scatter_points(seed, (k - 1) as nat);
        let raw = raw_point(seed, (k - 1) as nat);
        prev.push(
            if prev.contains(raw) {
                first_free_cell_from(prev, 0)
            } else {
                raw
            },
        )
    }
}

/// One point is chosen per draw.
pub proof fn lemma_scatter_points_len(seed: u64, k: nat)
    ensures
        scatter_points(seed, k).len() == k,
    decreases k,
{
    if k > 0 {
        lemma_scatter_points_len(seed, (k - 1) as nat);
    }
}

/// A free cell at or after the scan start means the scan lands on a free
/// cell.
proof fn lemma_first_free_cell_finds(taken: Seq<(i32, i32)>, n: nat, w: nat)
    requires
        n <= w < CHUNK_BLOCK_COUNT,
        !taken.contains(grid_cell(w as int)),
    ensures
        !taken.contains(first_free_cell_from(taken, n)),
    decreases w - n,
{
    if n < w && taken.contains(grid_cell(n as int)) {
        lemma_first_free_cell_finds(taken, (n + 1) as nat, w);
    }
}

/// When every cell before `n` is taken and cell `n` is free, the scan
/// from the start lands exactly on cell `n`.
proof fn lemma_first_free_cell_scan(taken: Seq<(i32, i32)>, s: nat, n: nat)
    requires
        s <= n < CHUNK_BLOCK_COUNT,
        forall|m: int| 0 <= m < n ==> taken.contains(#[trigger] grid_cell(m)),
        !taken.contains(grid_cell(n as int)),
    ensures
        first_free_cell_from(taken, s) == grid_cell(n as int),
    decreases n - s,
{
    if s < n {
        lemma_first_free_cell_scan(taken, (s + 1) as nat, n);
    }
}

/// Fewer than eight taken points leave one of the first eight grid
/// cells free.
proof fn lemma_some_cell_free(taken: Seq<(i32, i32)>)
    requires
        taken.len() < 8,
    ensures
        exists|w: int| 0 <= w < 8 && !taken.contains(#[trigger] grid_cell(w)),
{
    if forall|w: int| 0 <= w < 8 ==> taken.contains(#[trigger] grid_cell(w)) {
        let i0 = choose|t: int| 0 <= t < taken.len() && taken[t] == grid_cell(0);
        let i1 = choose|t: int| 0 <= t < taken.len() && taken[t] == grid_cell(1);
        let i2 = choose|t: int| 0 <= t < taken.len() && taken[t] == grid_cell(2);
        let i3 = choose|t: int| 0 <= t < taken.len() && taken[t] == grid_cell(3);
        let i4 = choose|t: int| 0 <= t < taken.len() && taken[t] == grid_cell(4);
        let i5 = choose|t: int| 0 <= t < taken.len() && taken[t] == grid_cell(5);
        let i6 = choose|t: int| 0 <= t < taken.len() && taken[t] == grid_cell(6);
        let i7 = choose|t: int| 0 <= t < taken.len() && taken[t] == grid_cell(7);
        // Eight pairwise distinct cells need eight pairwise distinct
        // indices, which fewer than eight entries cannot offer.
        assert(false);
    }
}

/// The scan from the start of the chunk finds a cell no taken point
/// holds, whenever fewer than eight points are taken.
proof fn lemma_first_free_cell(taken: Seq<(i32, i32)>)
    requires
        taken.len() < 8,
    ensures
        !taken.contains(first_free_cell_from(taken, 0)),
{
    lemma_some_cell_free(taken);
    let w = choose|w: int| 0 <= w < 8 && !taken.contains(#[trigger] grid_cell(w));
    lemma_first_free_cell_finds(taken, 0, w as nat);
}

/// Distinctness of the scattered points: any two chosen points differ.
pub proof fn lemma_scatter_points_distinct(seed: u64, k: nat)
    requires
        k <= 8,
    ensures
        scatter_points(seed, k).len() == k,
        forall|i: int, j: int|
            0 <= i < j < k ==> scatter_points(seed, k)[i] != scatter_points(seed, k)[j],
    decreases k,
{
    if k > 0 {
        lemma_scatter_points_distinct(seed, (k - 1) as nat);
        let prev = scatter_points(seed, (k - 1) as nat);
        let raw = raw_point(seed, (k - 1) as nat);
        if prev.contains(raw) {
            lemma_first_free_cell(prev);
        }
        let cur = scatter_points(seed, k);
        assert forall|i: int, j: int| 0 <= i < j < k implies cur[i] != cur[j] by {
            if j == k - 1 && cur[i] == cur[j] {
                assert(prev[i] == cur[j]);
                assert(prev.contains(cur[j]));
            }
        }
    }
}

/// Draws the scattered sample points of a chunk from its seed: twice
/// `BIOME_SAMPLE_POINT_AMOUNT` pairwise distinct points inside the
/// chunk, the first half for temperature, the second half for humidity.
/// A draw that repeats an earlier point is replaced by the earliest grid
/// cell no earlier point holds.
pub fn get_biome_points(chunk_seed: u64) -> (r: (Vec<ChunkRelativePos>, Vec<ChunkRelativePos>))
    ensures
        r.0@.len() == BIOME_SAMPLE_POINT_AMOUNT,
        r.1@.len() == BIOME_SAMPLE_POINT_AMOUNT,
        forall|i: int|
            0 <= i < BIOME_SAMPLE_POINT_AMOUNT ==> {
                &&& (#[trigger] r.0@[i]).x == scatter_points(
                    chunk_seed,
                    (2 * BIOME_SAMPLE_POINT_AMOUNT) as nat,
                )[i].0
                &&& r.0@[i].y == scatter_points(
                    chunk_seed,
                    (2 * BIOME_SAMPLE_POINT_AMOUNT) as nat,
                )[i].1
                &&& r.0@[i].valid()
            },
        forall|i: int|
            0 <= i < BIOME_SAMPLE_POINT_AMOUNT ==> {
                &&& (#[trigger] r.1@[i]).x == scatter_points(
                    chunk_seed,
                    (2 * BIOME_SAMPLE_POINT_AMOUNT) as nat,
                )[i + BIOME_SAMPLE_POINT_AMOUNT].0
                &&& r.1@[i].y == scatter_points(
                    chunk_seed,
                    (2 * BIOME_SAMPLE_POINT_AMOUNT) as nat,
                )[i + BIOME_SAMPLE_POINT_AMOUNT].1
                &&& r.1@[i].valid()
            },
        forall|i: int, j: int|
            0 <= i < j < BIOME_SAMPLE_POINT_AMOUNT ==> r.0@[i] != r.0@[j],
        forall|i: int, j: int|
            0 <= i < j < BIOME_SAMPLE_POINT_AMOUNT ==> r.1@[i] != r.1@[j],
        forall|i: int, j: int|
            0 <= i < BIOME_SAMPLE_POINT_AMOUNT && 0 <= j < BIOME_SAMPLE_POINT_AMOUNT ==> r.0@[i]
                != r.1@[j],
{
    let total = 2 * BIOME_SAMPLE_POINT_AMOUNT;
    let mut chosen: Vec<ChunkRelativePos> = Vec::new();
    let mut rng = SeededRng::with_seed(chunk_seed);
    let mut i: usize = 0;
    while i < total
        invariant
            total == 2 * BIOME_SAMPLE_POINT_AMOUNT,
            i <= total,
            rng.state_spec() == point_draw_state(chunk_seed, (2 * i) as nat),
            chosen@.len() == i,
            forall|t: int|
                0 <= t < i ==> {
                    &&& (#[trigger] chosen@[t]).x == scatter_points(chunk_seed, i as nat)[t].0
                    &&& chosen@[t].y == scatter_points(chunk_seed, i as nat)[t].1
                    &&& chosen@[t].valid()
                },
        decreases total - i,
    {
        let x = rng.next_i32_range(0, CHUNK_SIZE as i32);
        let y = rng.next_i32_range(0, CHUNK_SIZE as i32);
        let ghost prev = scatter_points(chunk_seed, i as nat);
        let ghost raw = raw_point(chunk_seed, i as nat);
        proof {
            lemma_scatter_points_len(chunk_seed, i as nat);
            assert(point_draw_state(chunk_seed, (2 * i + 1) as nat) == wyrand_i32(
                point_draw_state(chunk_seed, (2 * i) as nat),
                0,
                (CHUNK_SIZE - 1) as i32,
            ).1);
            assert(point_draw_state(chunk_seed, (2 * (i + 1)) as nat) == wyrand_i32(
                point_draw_state(chunk_seed, (2 * i + 1) as nat),
                0,
                (CHUNK_SIZE - 1) as i32,
            ).1);
            assert((x, y) == raw);
        }

        // Scan the chosen points for a repeat of this draw.
        let mut seen = false;
        let mut j: usize = 0;
        while j < i
            invariant
                j <= i,
                chosen@.len() == i,
                prev == scatter_points(chunk_seed, i as nat),
                prev.len() == i,
                forall|t: int|
                    0 <= t < i ==> {
                        &&& (#[trigger] chosen@[t]).x == prev[t].0
                        &&& chosen@[t].y == prev[t].1
                    },
                (x, y) == raw,
                seen == exists|t: int| 0 <= t < j && #[trigger] prev[t] == raw,
            decreases i - j,
        {
            if chosen[j].x as i32 == x && chosen[j].y as i32 == y {
                proof {
                    assert(prev[j as int] == raw);
                }
                seen = true;
            }
            j = j + 1;
        }
        proof {
            assert(seen == prev.contains(raw));
        }

        let slot: ChunkRelativePos = if seen {
            // The draw repeats a chosen point: take the earliest free
            // grid cell instead.
            let mut n: usize = 0;
            let mut found = false;
            let mut cell_x: u8 = 0;
            let mut cell_y: u8 = 0;
            while n < CHUNK_BLOCK_COUNT && !found
                invariant
                    n <= CHUNK_BLOCK_COUNT,
                    i <= total,
                    total == 2 * BIOME_SAMPLE_POINT_AMOUNT,
                    chosen@.len() == i,
                    prev == scatter_points(chunk_seed, i as nat),
                    prev.len() == i,
                    forall|t: int|
                        0 <= t < i ==> {
                            &&& (#[trigger] chosen@[t]).x == prev[t].0
                            &&& chosen@[t].y == prev[t].1
                        },
                    !found ==> forall|m: int|
                        0 <= m < n ==> prev.contains(#[trigger] grid_cell(m)),
                    found ==> {
                        &&& (cell_x as i32, cell_y as i32) == first_free_cell_from(prev, 0)
                        &&& !prev.contains((cell_x as i32, cell_y as i32))
                        &&& cell_x < CHUNK_SIZE
                        &&& cell_y < CHUNK_SIZE
                    },
                decreases CHUNK_BLOCK_COUNT - n,
            {
                let gx = (n % CHUNK_SIZE) as u8;
                let gy = (n / CHUNK_SIZE) as u8;
                let mut used = false;
                let mut t: usize = 0;
                while t < i
                    invariant
                        t <= i,
                        chosen@.len() == i,
                        prev.len() == i,
                        n < CHUNK_BLOCK_COUNT,
                        forall|u: int|
                            0 <= u < i ==> {
                                &&& (#[trigger] chosen@[u]).x == prev[u].0
                                &&& chosen@[u].y == prev[u].1
                            },
                        gx == grid_cell(n as int).0,
                        gy == grid_cell(n as int).1,
                        used == exists|u: int|
                            0 <= u < t && #[trigger] prev[u] == grid_cell(n as int),
                    decreases i - t,
                {
                    if chosen[t].x == gx && chosen[t].y == gy {
                        proof {
                            assert(prev[t as int] == grid_cell(n as int));
                        }
                        used = true;
                    }
                    t = t + 1;
                }
                proof {
                    assert(used == prev.contains(grid_cell(n as int)));
                }
                if !used {
                    cell_x = gx;
                    cell_y = gy;
                    found = true;
                    proof {
                        lemma_first_free_cell_scan(prev, 0, n as nat);
                    }
                }
                n = n + 1;
            }
            proof {
                if !found {
                    lemma_some_cell_free(prev);
                    let w = choose|w: int| 0 <= w < 8 && !prev.contains(#[trigger] grid_cell(w));
                    assert(prev.contains(grid_cell(w)));
                    assert(false);
                }
            }
            ChunkRelativePos { x: cell_x, y: cell_y }
        } else {
            ChunkRelativePos { x: x as u8, y: y as u8 }
        };
        proof {
            assert(scatter_points(chunk_seed, (i + 1) as nat) == prev.push(
                if prev.contains(raw) {
                    first_free_cell_from(prev, 0)
                } else {
                    raw
                },
            ));
        }
        chosen.push(slot);
        i = i + 1;
    }

    // Split the chosen points into the temperature and humidity halves.
    let ghost all = scatter_points(chunk_seed, (2 * BIOME_SAMPLE_POINT_AMOUNT) as nat);
    proof {
        lemma_scatter_points_distinct(chunk_seed, (2 * BIOME_SAMPLE_POINT_AMOUNT) as nat);
    }
    let mut temperature_points: Vec<ChunkRelativePos> = Vec::new();
    let mut humidity_points: Vec<ChunkRelativePos> = Vec::new();
    let mut k: usize = 0;
    while k < total
        invariant
            total == 2 * BIOME_SAMPLE_POINT_AMOUNT,
            k <= total,
            chosen@.len() == total,
            all == scatter_points(chunk_seed, (2 * BIOME_SAMPLE_POINT_AMOUNT) as nat),
            forall|t: int|
                0 <= t < total ==> {
                    &&& (#[trigger] chosen@[t]).x == all[t].0
                    &&& chosen@[t].y == all[t].1
                    &&& chosen@[t].valid()
                },
            temperature_points@.len() == if k <= BIOME_SAMPLE_POINT_AMOUNT {
                k as int
            } else {
                BIOME_SAMPLE_POINT_AMOUNT as int
            },
            humidity_points@.len() == if k <= BIOME_SAMPLE_POINT_AMOUNT {
                0
            } else {
                k - BIOME_SAMPLE_POINT_AMOUNT
            },
            forall|t: int|
                0 <= t < temperature_points@.len() ==> #[trigger] temperature_points@[t]
                    == chosen@[t],
            forall|t: int|
                0 <= t < humidity_points@.len() ==> #[trigger] humidity_points@[t] == chosen@[t
                    + BIOME_SAMPLE_POINT_AMOUNT],
        decreases total - k,
    {
        if k < BIOME_SAMPLE_POINT_AMOUNT {
            temperature_points.push(chosen[k]);
        } else {
            humidity_points.push(chosen[k]);
        }
        k = k + 1;
    }
    proof {
        assert forall|a: int, b: int|
            0 <= a < total && 0 <= b < total && a != b implies chosen@[a] != chosen@[b] by {
            assert(all[a] != all[b]);
        }
    }
    (temperature_points, humidity_points)
}

/// A scattered sample: a position inside the chunk and the sampled value
/// in thousandths.
#[derive(Clone, Copy, PartialEq, Eq, Structural, Debug)]
pub struct SamplePoint {
    pub pos: ChunkRelativePos,
    pub value_milli: u64,
}

impl SamplePoint {
    /// The position lies inside the chunk and the value inside [0, 100].
    pub open spec fn wf(self) -> bool {
        self.pos.valid() && self.value_milli <= 100_000
    }
}

/// One full set of scattered samples for one 2D layer of one chunk.
pub open spec fn samples_wf(s: Seq<SamplePoint>) -> bool {
    &&& s.len() == BIOME_SAMPLE_POINT_AMOUNT
    &&& forall|i: int| 0 <= i < s.len() ==> (#[trigger] s[i]).wf()
}

/// Squared distance between a sample's position and a block position.
pub open spec fn sample_dist_sq(s: SamplePoint, bx: int, by: int) -> int {
    (s.pos.x - bx) * (s.pos.x - bx) + (s.pos.y - by) * (s.pos.y - by)
}

/// Earliest sample among the first `k` lying exactly on the block
/// position; `-1` if none does.
pub open spec fn hit_upto(s: Seq<SamplePoint>, bx: int, by: int, k: nat) -> int
    decreases k,
{
    if k == 0 {
        -1
    } else {
        let p = hit_upto(s, bx, by, (k - 1) as nat);
        if p >= 0 {
            p
        } else if sample_dist_sq(s[k - 1], bx, by) == 0 {
            k - 1
        } else {
            -1
        }
    }
}

/// Exact rational accumulation of inverse-distance weighting over the
/// first `k` samples: numerator, denominator, and the running product of
/// the squared distances that serves as their common scale.
pub open spec fn idw_acc(s: Seq<SamplePoint>, bx: int, by: int, k: nat) -> (int, int, int)
    decreases k,
{
    if k == 0 {
        (0, 0, 1)
    } else {
        let acc = idw_acc(s, bx, by, (k - 1) as nat);
        let dd = sample_dist_sq(s[k - 1], bx, by);
        (
            acc.0 * dd + s[k - 1].value_milli * acc.2,
            acc.1 * dd + acc.2,
            acc.2 * dd,
        )
    }
}

/// The interpolated value in thousandths: a sample lying exactly on the
/// block is returned directly; otherwise the weights are the reciprocals
/// of the squared distances.
pub open spec fn idw_value_spec(s: Seq<SamplePoint>, bx: int, by: int) -> int {
    let h = hit_upto(s, bx, by, s.len());
    if h >= 0 {
        s[h].value_milli as int
    } else if s.len() == 0 {
        0
    } else {
        let acc = idw_acc(s, bx, by, s.len());
        acc.0 / acc.1
    }
}

/// A squared distance is never negative.
proof fn lemma_sample_dist_nonneg(s: SamplePoint, bx: int, by: int)
    ensures
        sample_dist_sq(s, bx, by) >= 0,
{
    let dx = s.pos.x - bx;
    let dy = s.pos.y - by;
    assert(dx * dx >= 0 && dy * dy >= 0) by (nonlinear_arith);
}

/// Once a sample hits the block position exactly, every longer scan
/// returns that same earliest hit.
proof fn lemma_hit_found(s: Seq<SamplePoint>, bx: int, by: int, i: nat, k: nat)
    requires
        hit_upto(s, bx, by, i) == -1,
        sample_dist_sq(s[i as int], bx, by) == 0,
        i < k,
    ensures
        hit_upto(s, bx, by, k) == i,
    decreases k,
{
    if k > i + 1 {
        lemma_hit_found(s, bx, by, i, (k - 1) as nat);
    }
}

/// Table bound for the running product of up to four squared distances,
/// each at most 1922.
pub open spec fn idw_prod_bound(i: int) -> int {
    if i <= 0 {
        1
    } else if i == 1 {
        1922
    } else if i == 2 {
        3694084
    } else if i == 3 {
        7100029448
    } else {
        13646256599056
    }
}

/// Table bound for the accumulated denominator.
pub open spec fn idw_den_bound(i: int) -> int {
    if i <= 0 {
        0
    } else if i == 1 {
        1
    } else if i == 2 {
        3844
    } else if i == 3 {
        11082252
    } else {
        28400117792
    }
}

/// Interpolates the sampled values to the block position by inverse
/// squared-distance weighting with exact integer arithmetic.  A sample
/// lying exactly on the block is returned as is.
pub fn interpolate_idw(samples: &Vec<SamplePoint>, block_pos: ChunkRelativePos) -> (r: u64)
    requires
        samples_wf(samples@),
        block_pos.valid(),
    ensures
        r == idw_value_spec(samples@, block_pos.x as int, block_pos.y as int),
        r <= 100_000,
{
    let ghost bx: int = block_pos.x as int;
    let ghost by: int = block_pos.y as int;
    let mut num: u64 = 0;
    let mut den: u64 = 0;
    let mut prod: u64 = 1;
    let mut i: usize = 0;
    while i < samples.len()
        invariant
            samples_wf(samples@),
            block_pos.valid(),
            bx == block_pos.x as int,
            by == block_pos.y as int,
            i <= samples@.len(),
            samples@.len() == BIOME_SAMPLE_POINT_AMOUNT,
            hit_upto(samples@, bx, by, i as nat) == -1,
            (num as int, den as int, prod as int) == idw_acc(samples@, bx, by, i as nat),
            num <= 100_000 * den,
            den <= idw_den_bound(i as int),
            i >= 1 ==> den >= 1,
            1 <= prod <= idw_prod_bound(i as int),
        decreases samples@.len() - i,
    {
        let sp = samples[i];
        let dx = sp.pos.x as i64 - block_pos.x as i64;
        let dy = sp.pos.y as i64 - block_pos.y as i64;
        proof {
            assert(0 <= dx * dx <= 961) by (nonlinear_arith)
                requires
                    -31 <= dx <= 31,
            ;
            assert(0 <= dy * dy <= 961) by (nonlinear_arith)
                requires
                    -31 <= dy <= 31,
            ;
        }
        let dd = (dx * dx + dy * dy) as u64;
        if dd == 0 {
            proof {
                lemma_hit_found(samples@, bx, by, i as nat, samples@.len());
            }
            return sp.value_milli;
        }
        proof {
            let ii = i as int;
            assert(1 <= dd <= 1922);
            assert(prod * dd <= idw_prod_bound(ii + 1) && prod * dd >= 1) by (nonlinear_arith)
                requires
                    1 <= prod <= idw_prod_bound(ii),
                    1 <= dd <= 1922,
                    0 <= ii < 4,
                    idw_prod_bound(ii) * 1922 <= idw_prod_bound(ii + 1),
            ;
            assert(den * dd + prod <= idw_den_bound(ii + 1)) by (nonlinear_arith)
                requires
                    0 <= den <= idw_den_bound(ii),
                    1 <= dd <= 1922,
                    1 <= prod <= idw_prod_bound(ii),
                    0 <= ii < 4,
                    idw_den_bound(ii) * 1922 + idw_prod_bound(ii) <= idw_den_bound(ii + 1),
            ;
            assert(num * dd + sp.value_milli * prod <= 100_000 * (den * dd + prod))
                by (nonlinear_arith)
                requires
                    num <= 100_000 * den,
                    sp.value_milli <= 100_000,
                    dd >= 0,
                    prod >= 0,
                    den >= 0,
            ;
        }
        proof {
            assert(den * dd >= 0) by (nonlinear_arith)
                requires
                    den >= 0,
                    dd >= 0,
            ;
        }
        num = num * dd + sp.value_milli * prod;
        den = den * dd + prod;
        prod = prod * dd;
        i = i + 1;
    }
    proof {
        assert(den >= 1);
        vstd::arithmetic::div_mod::lemma_fundamental_div_mod(num as int, den as int);
        assert((num as int) / (den as int) <= 100_000) by (nonlinear_arith)
            requires
                num <= 100_000 * den,
                den >= 1,
                (den as int) * ((num as int) / (den as int)) + (num as int) % (den as int) == num
                    as int,
                (num as int) % (den as int) >= 0,
        ;
        assert((num as int) / (den as int) >= 0) by (nonlinear_arith)
            requires
                num >= 0,
                den >= 1,
                (den as int) * ((num as int) / (den as int)) + (num as int) % (den as int) == num
                    as int,
                (num as int) % (den as int) < den,
        ;
    }
    num / den
}

/// Largest world coordinate magnitude, in blocks: any chunk coordinate
/// times the chunk size stays within this bound.
pub const WORLD_COORD_LIMIT: i64 = 0x10_0000_0040;

/// Largest world size, in blocks.
pub const WORLD_SIZE_LIMIT: i64 = 0x20_0000_0000;

/// Temperature remapped about 50 by the factor 3/10, in thousandths,
/// rounding towards 50.
pub open spec fn remap_temperature_spec(t: int) -> int {
    if t >= 50_000 {
        50_000 + (t - 50_000) * 3 / 10
    } else {
        50_000 - (50_000 - t) * 3 / 10
    }
}

fn remap_temperature(t: u64) -> (r: u64)
    requires
        t <= 100_000,
    ensures
        r == remap_temperature_spec(t as int),
        35_000 <= r <= 65_000,
{
    if t >= 50_000 {
        50_000 + (t - 50_000) * 3 / 10
    } else {
        50_000 - (50_000 - t) * 3 / 10
    }
}

/// Horizontal temperature bias in thousandths: the left third of the
/// world is colder, the right third warmer, scaled by the configured
/// variation.
pub open spec fn horizontal_bias_spec(world_x: int, full_x: int, var: int) -> int {
    if full_x <= 0 {
        0
    } else {
        let wplus = world_x + full_x / 2;
        if 3 * wplus < full_x {
            1000 * var * (full_x - 3 * wplus) / full_x
        } else if 3 * wplus >= 2 * full_x {
            -(1000 * var * (3 * wplus - 2 * full_x) / full_x)
        } else {
            0
        }
    }
}

fn horizontal_bias(world_x: i64, full_x: i64, var: u8) -> (r: i64)
    requires
        -WORLD_COORD_LIMIT <= world_x <= WORLD_COORD_LIMIT,
        0 <= full_x <= WORLD_SIZE_LIMIT,
    ensures
        r == horizontal_bias_spec(world_x as int, full_x as int, var as int),
        -200_000_000_000_000_000 <= r <= 200_000_000_000_000_000,
{
    if full_x <= 0 {
        return 0;
    }
    let wplus = world_x + full_x / 2;
    let scaled = 1000i64 * (var as i64);
    if 3 * wplus < full_x {
        let numerator = full_x - 3 * wplus;
        proof {
            assert(0 <= (scaled as int) * (numerator as int) <= 255_000 * 560_000_000_000)
                by (nonlinear_arith)
                requires
                    0 <= scaled <= 255_000,
                    0 <= numerator <= 560_000_000_000,
            ;
            assert((scaled as int) * (numerator as int) / (full_x as int) <= (scaled as int) * (
            numerator as int) && (scaled as int) * (numerator as int) / (full_x as int) >= 0)
                by (nonlinear_arith)
                requires
                    (scaled as int) * (numerator as int) >= 0,
                    full_x >= 1,
            ;
        }
        let q = ((scaled as u64) * (numerator as u64)) / (full_x as u64);
        q as i64
    } else if 3 * wplus >= 2 * full_x {
        let numerator = 3 * wplus - 2 * full_x;
        proof {
            assert(0 <= (scaled as int) * (numerator as int) <= 255_000 * 560_000_000_000)
                by (nonlinear_arith)
                requires
                    0 <= scaled <= 255_000,
                    0 <= numerator <= 560_000_000_000,
            ;
            assert((scaled as int) * (numerator as int) / (full_x as int) <= (scaled as int) * (
            numerator as int) && (scaled as int) * (numerator as int) / (full_x as int) >= 0)
                by (nonlinear_arith)
                requires
                    (scaled as int) * (numerator as int) >= 0,
                    full_x >= 1,
            ;
        }
        let q = ((scaled as u64) * (numerator as u64)) / (full_x as u64);
        -(q as i64)
    } else {
        0
    }
}

/// Vertical temperature bias in thousandths: above world height 10 the
/// temperature falls off with height, scaled by the configured variation.
pub open spec fn vertical_bias_spec(world_y: int, full_y: int, var: int) -> int {
    if full_y > 0 && world_y > 10 {
        -(1000 * var * world_y / (full_y / 2))
    } else {
        0
    }
}

fn vertical_bias(world_y: i64, full_y: i64, var: u8) -> (r: i64)
    requires
        -WORLD_COORD_LIMIT <= world_y <= WORLD_COORD_LIMIT,
        0 <= full_y <= WORLD_SIZE_LIMIT,
        full_y % 32 == 0,
    ensures
        r == vertical_bias_spec(world_y as int, full_y as int, var as int),
        -200_000_000_000_000_000 <= r <= 0,
{
    if full_y > 0 && world_y > 10 {
        let half = full_y / 2;
        let scaled = 1000i64 * (var as i64);
        proof {
            assert(0 <= (scaled as int) * (world_y as int) <= 255_000 * 0x10_0000_0040)
                by (nonlinear_arith)
                requires
                    0 <= scaled <= 255_000,
                    0 < world_y <= 0x10_0000_0040,
            ;
            assert((scaled as int) * (world_y as int) / (half as int) <= (scaled as int) * (world_y
                as int) && (scaled as int) * (world_y as int) / (half as int) >= 0)
                by (nonlinear_arith)
                requires
                    (scaled as int) * (world_y as int) >= 0,
                    half >= 1,
            ;
        }
        let q = ((scaled as u64) * (world_y as u64)) / (half as u64);
        -(q as i64)
    } else {
        0
    }
}

/// The final temperature byte of one block: interpolated, remapped about
/// 50, biased, rounded to the nearest unit and clamped into [0, 100].
pub open spec fn temperature_cell_spec(
    ts: Seq<SamplePoint>,
    local_x: int,
    local_y: int,
    world_x: int,
    world_y: int,
    full_x: int,
    full_y: int,
    horiz_var: int,
    vert_var: int,
) -> u8 {
    let raw = idw_value_spec(ts, local_x, local_y);
    let total = remap_temperature_spec(raw) + horizontal_bias_spec(world_x, full_x, horiz_var)
        + vertical_bias_spec(world_y, full_y, vert_var);
    if total <= 0 {
        0u8
    } else if (total + 500) / 1000 > 100 {
        100u8
    } else {
        ((total + 500) / 1000) as u8
    }
}

/// The final humidity byte of one block: interpolated and truncated to
/// whole units, without bias or remapping.
pub open spec fn humidity_cell_spec(hs: Seq<SamplePoint>, local_x: int, local_y: int) -> u8 {
    (idw_value_spec(hs, local_x, local_y) / 1000) as u8
}

/// The temperature byte of flat block index `i` of the chunk at
/// `(chunk_x, chunk_y)`.
pub open spec fn temp_map_cell(
    ts: Seq<SamplePoint>,
    chunk_x: int,
    chunk_y: int,
    i: int,
    size_x: int,
    size_y: int,
    horiz_var: int,
    vert_var: int,
) -> u8 {
    let lx = i % (CHUNK_SIZE as int);
    let ly = i / (CHUNK_SIZE as int);
    temperature_cell_spec(
        ts,
        lx,
        ly,
        chunk_x * (CHUNK_SIZE as int) + lx,
        chunk_y * (CHUNK_SIZE as int) + ly,
        size_x * (CHUNK_SIZE as int),
        size_y * (CHUNK_SIZE as int),
        horiz_var,
        vert_var,
    )
}

/// The humidity byte of flat block index `i` of a chunk.
pub open spec fn hum_map_cell(hs: Seq<SamplePoint>, i: int) -> u8 {
    humidity_cell_spec(hs, i % (CHUNK_SIZE as int), i / (CHUNK_SIZE as int))
}

/// Interpolates the sampled temperature and humidity points into the two
/// per-block maps of one chunk, applying the configured biases to the
/// temperature.
pub fn generate_temperature_and_humidity_map(
    chunk_x: i32,
    chunk_y: i32,
    temp_samples: &Vec<SamplePoint>,
    hum_samples: &Vec<SamplePoint>,
    size_x: u32,
    size_y: u32,
    horiz_var: u8,
    vert_var: u8,
) -> (r: (NoiseLayer2D, NoiseLayer2D))
    requires
        samples_wf(temp_samples@),
        samples_wf(hum_samples@),
    ensures
        r.0.wf(),
        r.1.wf(),
        forall|i: int|
            0 <= i < CHUNK_BLOCK_COUNT ==> (#[trigger] r.0.layer@[i]) == temp_map_cell(
                temp_samples@,
                chunk_x as int,
                chunk_y as int,
                i,
                size_x as int,
                size_y as int,
                horiz_var as int,
                vert_var as int,
            ),
        forall|i: int|
            0 <= i < CHUNK_BLOCK_COUNT ==> (#[trigger] r.1.layer@[i]) == hum_map_cell(
                hum_samples@,
                i,
            ),
{
    let full_x: i64 = (size_x as i64) * (CHUNK_SIZE as i64);
    let full_y: i64 = (size_y as i64) * (CHUNK_SIZE as i64);
    let mut temperature = NoiseLayer2D::new();
    let mut humidity = NoiseLayer2D::new();
    let mut i: usize = 0;
    while i < CHUNK_BLOCK_COUNT
        invariant
            samples_wf(temp_samples@),
            samples_wf(hum_samples@),
            full_x == (size_x as int) * (CHUNK_SIZE as int),
            full_y == (size_y as int) * (CHUNK_SIZE as int),
            0 <= full_x <= WORLD_SIZE_LIMIT,
            0 <= full_y <= WORLD_SIZE_LIMIT,
            full_y % 32 == 0,
            i <= CHUNK_BLOCK_COUNT,
            temperature.wf(),
            humidity.wf(),
            forall|j: int|
                0 <= j < i ==> (#[trigger] temperature.layer@[j]) == temp_map_cell(
                    temp_samples@,
                    chunk_x as int,
                    chunk_y as int,
                    j,
                    size_x as int,
                    size_y as int,
                    horiz_var as int,
                    vert_var as int,
                ),
            forall|j: int|
                0 <= j < i ==> (#[trigger] humidity.layer@[j]) == hum_map_cell(hum_samples@, j),
        decreases CHUNK_BLOCK_COUNT - i,
    {
        let lx = i % CHUNK_SIZE;
        let ly = i / CHUNK_SIZE;
        let pos = ChunkRelativePos { x: lx as u8, y: ly as u8 };
        let world_x: i64 = (chunk_x as i64) * (CHUNK_SIZE as i64) + (lx as i64);
        let world_y: i64 = (chunk_y as i64) * (CHUNK_SIZE as i64) + (ly as i64);

        let raw_temp = interpolate_idw(temp_samples, pos);
        let remapped = remap_temperature(raw_temp);
        let bias_h = horizontal_bias(world_x, full_x, horiz_var);
        let bias_v = vertical_bias(world_y, full_y, vert_var);
        let total: i64 = (remapped as i64) + bias_h + bias_v;
        let temp_byte: u8 = if total <= 0 {
            0
        } else {
            let units = ((total + 500) as u64) / 1000;
            if units > 100 {
                100
            } else {
                units as u8
            }
        };

        let raw_hum = interpolate_idw(hum_samples, pos);
        let hum_byte: u8 = (raw_hum / 1000) as u8;

        temperature.write(pos, temp_byte);
        humidity.write(pos, hum_byte);
        i = i + 1;
    }
    (temperature, humidity)
}

} // verus!
