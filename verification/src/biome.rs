//! The biome registry and its precomputed temperature/humidity lookup map.
//!
//! For every integer cell of the 100x100 temperature/humidity plane the map
//! holds the closest biome, the second-closest biome and a blend
//! percentage, computed by inverse-distance weighting of the two squared
//! distances.  Biomes are referred to by index into the registry's vector.

use vstd::prelude::*;

use crate::constants::BIOME_MAP_GRID_SIZE;
use crate::constants::BIOME_TRANSITION_THRESHOLD;
use crate::constants::CELLULAR_NINDEX;
use crate::constants::CONTINENTAL_NINDEX;
use crate::constants::GRIDLIKE_NINDEX;
use crate::constants::HILLY_NINDEX;
use crate::constants::MOUNTAINOUS_NINDEX;
use crate::constants::NUM_1D_NOISE_LAYERS;
use crate::constants::TEXTURE_NINDEX;
use crate::schema::BiomeConfig;
use crate::schema::BiomeSchema;
use crate::schema::NoiseConfig;
use crate::schema::NoiseFunctions;

verus! {

/// A biome: its material configuration and its six 1D noise layers in
/// fixed index order.
#[derive(Clone, Debug)]
pub struct Biome {
    pub biome_config: BiomeConfig,
    pub noise_schema: Vec<NoiseConfig>,
}

/// The six noise layers of a schema, in fixed index order: continental,
/// mountainous, hilly, texture, cellular, gridlike.
pub open spec fn noise_layer_seq_spec(nf: NoiseFunctions) -> Seq<NoiseConfig> {
    seq![nf.continental, nf.mountainous, nf.hilly, nf.texture, nf.cellular, nf.gridlike]
}

impl Biome {
    /// The noise layer vector holds exactly one entry per layer index.
    pub open spec fn wf(self) -> bool {
        self.noise_schema@.len() == NUM_1D_NOISE_LAYERS
    }

    /// Materialises a biome from its schema, ordering the noise layers by
    /// their fixed indices.
    pub fn from_schema(schema: &BiomeSchema) -> (r: Biome)
        ensures
            r.wf(),
            r.biome_config == schema.biome_config,
            r.noise_schema@ == noise_layer_seq_spec(schema.noise_functions),
    {
        let mut noise_schema: Vec<NoiseConfig> = Vec::new();
        noise_schema.push(schema.noise_functions.continental);
        noise_schema.push(schema.noise_functions.mountainous);
        noise_schema.push(schema.noise_functions.hilly);
        noise_schema.push(schema.noise_functions.texture);
        noise_schema.push(schema.noise_functions.cellular);
        noise_schema.push(schema.noise_functions.gridlike);
        proof {
            assert(noise_schema@ =~= noise_layer_seq_spec(schema.noise_functions));
            assert(CONTINENTAL_NINDEX == 0 && MOUNTAINOUS_NINDEX == 1 && HILLY_NINDEX == 2
                && TEXTURE_NINDEX == 3 && CELLULAR_NINDEX == 4 && GRIDLIKE_NINDEX == 5);
        }
        Biome { biome_config: schema.biome_config, noise_schema }
    }
}

/// The material configurations of a biome vector, in registry order.
pub open spec fn configs_of(biomes: Seq<Biome>) -> Seq<BiomeConfig> {
    Seq::new(biomes.len(), |i: int| biomes[i].biome_config)
}

/// Squared Euclidean distance between a biome's home cell and the plane
/// cell `(x, y)`.
pub open spec fn dist_sq_spec(b: BiomeConfig, x: int, y: int) -> int {
    (b.temperature - x) * (b.temperature - x) + (b.humidity - y) * (b.humidity - y)
}

/// Earliest index of minimal squared distance among the first `k` biomes.
pub open spec fn argmin_upto(bs: Seq<BiomeConfig>, x: int, y: int, k: nat) -> int
    decreases k,
{
    if k <= 1 {
        0
    } else {
        let p = argmin_upto(bs, x, y, (k - 1) as nat);
        if dist_sq_spec(bs[k - 1], x, y) < dist_sq_spec(bs[p], x, y) {
            k - 1
        } else {
            p
        }
    }
}

/// Earliest index of minimal squared distance among the first `k` biomes,
/// skipping index `excl`; `-1` when no candidate exists.
pub open spec fn argmin_excl_upto(bs: Seq<BiomeConfig>, x: int, y: int, excl: int, k: nat) -> int
    decreases k,
{
    if k == 0 {
        -1
    } else {
        let p = argmin_excl_upto(bs, x, y, excl, (k - 1) as nat);
        let c = k - 1;
        if c == excl {
            p
        } else if p < 0 {
            c
        } else if dist_sq_spec(bs[c], x, y) < dist_sq_spec(bs[p], x, y) {
            c
        } else {
            p
        }
    }
}

/// Index of the closest biome to cell `(x, y)`: minimal squared distance,
/// earliest index on ties.
pub open spec fn primary_index_spec(bs: Seq<BiomeConfig>, x: int, y: int) -> int {
    argmin_upto(bs, x, y, bs.len())
}

/// Index of the second-closest biome to cell `(x, y)`, distinct from the
/// closest whenever more than one biome is loaded.
pub open spec fn secondary_index_spec(bs: Seq<BiomeConfig>, x: int, y: int) -> int {
    if bs.len() == 1 {
        0
    } else {
        argmin_excl_upto(bs, x, y, primary_index_spec(bs, x, y), bs.len())
    }
}

/// Blend percentage from the primary squared distance `a` and the
/// secondary squared distance `b`.  Inside the primary's core region, with
/// a single biome, or right on the primary's home cell the primary is used
/// alone; otherwise the two distances are weighted inversely by their
/// squares.
pub open spec fn blend_spec(a: int, b: int, single: bool) -> int {
    if a < BIOME_TRANSITION_THRESHOLD && b > BIOME_TRANSITION_THRESHOLD {
        100
    } else if single || a == 0 {
        100
    } else {
        let aa = if a * a < 1 {
            1
        } else {
            a * a
        };
        let bb = if b * b < 1 {
            1
        } else {
            b * b
        };
        (200 * bb + aa + bb) / (2 * (aa + bb))
    }
}

/// One cell of the biome lookup map.
#[derive(Clone, Copy, PartialEq, Eq, Structural, Debug)]
pub struct BiomeMapEntry {
    pub primary: usize,
    pub secondary: usize,
    pub blend: u8,
}

/// The map entry of cell `(x, y)` for the given biome configurations.
pub open spec fn map_entry_spec(bs: Seq<BiomeConfig>, x: int, y: int) -> BiomeMapEntry {
    BiomeMapEntry {
        primary: primary_index_spec(bs, x, y) as usize,
        secondary: secondary_index_spec(bs, x, y) as usize,
        blend: blend_spec(
            dist_sq_spec(bs[primary_index_spec(bs, x, y)], x, y),
            dist_sq_spec(bs[secondary_index_spec(bs, x, y)], x, y),
            bs.len() == 1,
        ) as u8,
    }
}

/// The biome lookup map: one entry per integer cell of the plane, indexed
/// by `y * BIOME_MAP_GRID_SIZE + x`.
#[derive(Clone, Debug)]
pub struct BiomeMap {
    pub map: Vec<BiomeMapEntry>,
}

/// The whole lookup map agrees with the per-cell specification.
pub open spec fn biome_map_matches(m: BiomeMap, bs: Seq<BiomeConfig>) -> bool {
    &&& m.map@.len() == BIOME_MAP_GRID_SIZE * BIOME_MAP_GRID_SIZE
    &&& forall|x: int, y: int|
        0 <= x < BIOME_MAP_GRID_SIZE && 0 <= y < BIOME_MAP_GRID_SIZE ==> m.map@[y
            * BIOME_MAP_GRID_SIZE + x] == map_entry_spec(bs, x, y)
}

/// The earliest argmin lies inside the scanned prefix.
proof fn lemma_argmin_upto_bounds(bs: Seq<BiomeConfig>, x: int, y: int, k: nat)
    requires
        k >= 1,
    ensures
        0 <= argmin_upto(bs, x, y, k) < k,
    decreases k,
{
    if k > 1 {
        lemma_argmin_upto_bounds(bs, x, y, (k - 1) as nat);
    }
}

/// The exclusion-aware argmin lies inside the scanned prefix and differs
/// from the excluded index.
proof fn lemma_argmin_excl_upto_bounds(bs: Seq<BiomeConfig>, x: int, y: int, excl: int, k: nat)
    requires
        excl >= 0,
    ensures
        argmin_excl_upto(bs, x, y, excl, k) < k,
        argmin_excl_upto(bs, x, y, excl, k) != excl,
    decreases k,
{
    if k > 0 {
        lemma_argmin_excl_upto_bounds(bs, x, y, excl, (k - 1) as nat);
    }
}

/// A candidate index below `k` other than the excluded one guarantees the
/// exclusion-aware argmin exists.
proof fn lemma_argmin_excl_upto_nonneg(
    bs: Seq<BiomeConfig>,
    x: int,
    y: int,
    excl: int,
    k: nat,
    j: int,
)
    requires
        0 <= j < k,
        j != excl,
    ensures
        argmin_excl_upto(bs, x, y, excl, k) >= 0,
    decreases k,
{
    if j < k - 1 {
        lemma_argmin_excl_upto_nonneg(bs, x, y, excl, (k - 1) as nat, j);
    }
}

/// The earliest argmin really is minimal over the scanned prefix.
proof fn lemma_argmin_upto_minimal(bs: Seq<BiomeConfig>, x: int, y: int, k: nat)
    requires
        k >= 1,
    ensures
        forall|j: int|
            0 <= j < k ==> dist_sq_spec(bs[argmin_upto(bs, x, y, k)], x, y) <= dist_sq_spec(
                #[trigger] bs[j],
                x,
                y,
            ),
    decreases k,
{
    if k > 1 {
        lemma_argmin_upto_minimal(bs, x, y, (k - 1) as nat);
    }
}

/// The exclusion-aware argmin really is minimal among the other indices.
proof fn lemma_argmin_excl_upto_minimal(bs: Seq<BiomeConfig>, x: int, y: int, excl: int, k: nat)
    ensures
        forall|j: int|
            0 <= j < k && j != excl && argmin_excl_upto(bs, x, y, excl, k) >= 0 ==> dist_sq_spec(
                bs[argmin_excl_upto(bs, x, y, excl, k)],
                x,
                y,
            ) <= dist_sq_spec(#[trigger] bs[j], x, y),
    decreases k,
{
    if k > 0 {
        lemma_argmin_excl_upto_minimal(bs, x, y, excl, (k - 1) as nat);
        let p = argmin_excl_upto(bs, x, y, excl, (k - 1) as nat);
        let res = argmin_excl_upto(bs, x, y, excl, k);
        if res >= 0 {
            assert forall|j: int| 0 <= j < k && j != excl implies dist_sq_spec(bs[res], x, y)
                <= dist_sq_spec(#[trigger] bs[j], x, y) by {
                if j < k - 1 && p < 0 {
                    lemma_argmin_excl_upto_nonneg(bs, x, y, excl, (k - 1) as nat, j);
                }
            }
        }
    }
}

/// The lookup map picks by distance: for every plane cell, the primary
/// biome is one of minimal squared distance to the cell, and with more
/// than one biome loaded the secondary is distinct from the primary and
/// of minimal squared distance among the others.
pub proof fn lemma_map_picks_closest(bs: Seq<BiomeConfig>, x: int, y: int)
    requires
        bs.len() >= 1,
    ensures
        0 <= primary_index_spec(bs, x, y) < bs.len(),
        forall|j: int|
            0 <= j < bs.len() ==> dist_sq_spec(bs[primary_index_spec(bs, x, y)], x, y)
                <= dist_sq_spec(#[trigger] bs[j], x, y),
        0 <= secondary_index_spec(bs, x, y) < bs.len(),
        bs.len() >= 2 ==> secondary_index_spec(bs, x, y) != primary_index_spec(bs, x, y),
        bs.len() >= 2 ==> forall|j: int|
            0 <= j < bs.len() && j != primary_index_spec(bs, x, y) ==> dist_sq_spec(
                bs[secondary_index_spec(bs, x, y)],
                x,
                y,
            ) <= dist_sq_spec(#[trigger] bs[j], x, y),
{
    lemma_argmin_upto_bounds(bs, x, y, bs.len());
    lemma_argmin_upto_minimal(bs, x, y, bs.len());
    if bs.len() >= 2 {
        let p = primary_index_spec(bs, x, y);
        lemma_argmin_excl_upto_bounds(bs, x, y, p, bs.len());
        let witness: int = if p == 0 {
            1
        } else {
            0
        };
        lemma_argmin_excl_upto_nonneg(bs, x, y, p, bs.len(), witness);
        lemma_argmin_excl_upto_minimal(bs, x, y, p, bs.len());
    }
}

impl BiomeMap {
    /// Every entry names two loaded biomes and a blend percentage.
    pub open spec fn wf(self, n: int) -> bool {
        &&& self.map@.len() == BIOME_MAP_GRID_SIZE * BIOME_MAP_GRID_SIZE
        &&& forall|i: int|
            0 <= i < self.map@.len() ==> {
                &&& (#[trigger] self.map@[i]).primary < n
                &&& self.map@[i].secondary < n
                &&& self.map@[i].blend <= 100
            }
    }

    /// Builds the lookup map for the loaded biomes: for every cell of the
    /// plane, the closest biome, the second-closest (distinct whenever
    /// more than one biome is loaded), and the blend percentage.
    pub fn populate_biome_map(loaded_biomes: &Vec<Biome>) -> (r: BiomeMap)
        requires
            loaded_biomes@.len() >= 1,
            forall|i: int|
                0 <= i < loaded_biomes@.len() ==> (#[trigger] loaded_biomes@[i]).biome_config.valid(),
        ensures
            r.wf(loaded_biomes@.len() as int),
            biome_map_matches(r, configs_of(loaded_biomes@)),
    {
        let ghost bs = configs_of(loaded_biomes@);
        let n = loaded_biomes.len();
        let mut map: Vec<BiomeMapEntry> = Vec::new();
        let mut y: usize = 0;
        while y < BIOME_MAP_GRID_SIZE
            invariant
                loaded_biomes@.len() >= 1,
                forall|i: int|
                    0 <= i < loaded_biomes@.len() ==> (
                    #[trigger] loaded_biomes@[i]).biome_config.valid(),
                bs == configs_of(loaded_biomes@),
                n == loaded_biomes@.len(),
                y <= BIOME_MAP_GRID_SIZE,
                map@.len() == y * BIOME_MAP_GRID_SIZE,
                forall|xx: int, yy: int|
                    0 <= xx < BIOME_MAP_GRID_SIZE && 0 <= yy < y ==> map@[yy * BIOME_MAP_GRID_SIZE
                        + xx] == map_entry_spec(bs, xx, yy),
                forall|i: int|
                    0 <= i < map@.len() ==> {
                        &&& (#[trigger] map@[i]).primary < n
                        &&& map@[i].secondary < n
                        &&& map@[i].blend <= 100
                    },
            decreases BIOME_MAP_GRID_SIZE - y,
        {
            let mut x: usize = 0;
            while x < BIOME_MAP_GRID_SIZE
                invariant
                    loaded_biomes@.len() >= 1,
                    forall|i: int|
                        0 <= i < loaded_biomes@.len() ==> (
                        #[trigger] loaded_biomes@[i]).biome_config.valid(),
                    bs == configs_of(loaded_biomes@),
                    n == loaded_biomes@.len(),
                    y < BIOME_MAP_GRID_SIZE,
                    x <= BIOME_MAP_GRID_SIZE,
                    map@.len() == y * BIOME_MAP_GRID_SIZE + x,
                    forall|xx: int, yy: int|
                        0 <= xx < BIOME_MAP_GRID_SIZE && 0 <= yy < y ==> map@[yy
                            * BIOME_MAP_GRID_SIZE + xx] == map_entry_spec(bs, xx, yy),
                    forall|xx: int|
                        0 <= xx < x ==> map@[y * BIOME_MAP_GRID_SIZE + xx] == map_entry_spec(
                            bs,
                            xx,
                            y as int,
                        ),
                    forall|i: int|
                        0 <= i < map@.len() ==> {
                            &&& (#[trigger] map@[i]).primary < n
                            &&& map@[i].secondary < n
                            &&& map@[i].blend <= 100
                        },
                decreases BIOME_MAP_GRID_SIZE - x,
            {
                let entry = map_cell(loaded_biomes, x, y);
                map.push(entry);
                x = x + 1;
            }
            y = y + 1;
        }
        proof {
            assert(map@.len() == BIOME_MAP_GRID_SIZE * BIOME_MAP_GRID_SIZE);
        }
        BiomeMap { map }
    }

    /// The closest biome's registry index for a (clamped) plane cell.
    pub fn get_best_biome(&self, temperature: u8, humidity: u8) -> (r: usize)
        requires
            self.map@.len() == BIOME_MAP_GRID_SIZE * BIOME_MAP_GRID_SIZE,
        ensures
            r == self.map@[clamp_cell_spec(humidity) * BIOME_MAP_GRID_SIZE + clamp_cell_spec(
                temperature,
            )].primary,
    {
        let x = clamp_cell(temperature);
        let y = clamp_cell(humidity);
        self.map[y * BIOME_MAP_GRID_SIZE + x].primary
    }

    /// The second-closest biome's registry index for a (clamped) plane cell.
    pub fn get_second_best_biome(&self, temperature: u8, humidity: u8) -> (r: usize)
        requires
            self.map@.len() == BIOME_MAP_GRID_SIZE * BIOME_MAP_GRID_SIZE,
        ensures
            r == self.map@[clamp_cell_spec(humidity) * BIOME_MAP_GRID_SIZE + clamp_cell_spec(
                temperature,
            )].secondary,
    {
        let x = clamp_cell(temperature);
        let y = clamp_cell(humidity);
        self.map[y * BIOME_MAP_GRID_SIZE + x].secondary
    }

    /// The blend percentage for a (clamped) plane cell.
    pub fn get_blend_percent(&self, temperature: u8, humidity: u8) -> (r: u8)
        requires
            self.map@.len() == BIOME_MAP_GRID_SIZE * BIOME_MAP_GRID_SIZE,
        ensures
            r == self.map@[clamp_cell_spec(humidity) * BIOME_MAP_GRID_SIZE + clamp_cell_spec(
                temperature,
            )].blend,
    {
        let x = clamp_cell(temperature);
        let y = clamp_cell(humidity);
        self.map[y * BIOME_MAP_GRID_SIZE + x].blend
    }
}

/// A lookup coordinate clamped onto the plane.
pub open spec fn clamp_cell_spec(v: u8) -> int {
    if v >= BIOME_MAP_GRID_SIZE {
        BIOME_MAP_GRID_SIZE - 1
    } else {
        v as int
    }
}

fn clamp_cell(v: u8) -> (r: usize)
    ensures
        r == clamp_cell_spec(v),
        r < BIOME_MAP_GRID_SIZE,
{
    if v as usize >= BIOME_MAP_GRID_SIZE {
        BIOME_MAP_GRID_SIZE - 1
    } else {
        v as usize
    }
}

/// Squared distance between a biome's home cell and plane cell `(x, y)`.
fn dist_sq(b: &BiomeConfig, x: usize, y: usize) -> (r: u64)
    requires
        b.valid(),
        x < BIOME_MAP_GRID_SIZE,
        y < BIOME_MAP_GRID_SIZE,
    ensures
        r == dist_sq_spec(*b, x as int, y as int),
        r <= 19602,
{
    let dx = b.temperature as i64 - x as i64;
    let dy = b.humidity as i64 - y as i64;
    proof {
        assert(0 <= dx * dx <= 9801) by (nonlinear_arith)
            requires
                -99 <= dx <= 99,
        ;
        assert(0 <= dy * dy <= 9801) by (nonlinear_arith)
            requires
                -99 <= dy <= 99,
        ;
    }
    (dx * dx + dy * dy) as u64
}

/// Computes one cell of the biome lookup map.
fn map_cell(loaded_biomes: &Vec<Biome>, x: usize, y: usize) -> (r: BiomeMapEntry)
    requires
        loaded_biomes@.len() >= 1,
        forall|i: int|
            0 <= i < loaded_biomes@.len() ==> (#[trigger] loaded_biomes@[i]).biome_config.valid(),
        x < BIOME_MAP_GRID_SIZE,
        y < BIOME_MAP_GRID_SIZE,
    ensures
        r == map_entry_spec(configs_of(loaded_biomes@), x as int, y as int),
        r.primary < loaded_biomes@.len(),
        r.secondary < loaded_biomes@.len(),
        r.blend <= 100,
{
    let ghost bs = configs_of(loaded_biomes@);
    let n = loaded_biomes.len();

    // Closest biome: strict improvement keeps the earliest index on ties.
    let mut best: usize = 0;
    let mut best_dist: u64 = dist_sq(&loaded_biomes[0].biome_config, x, y);
    let mut i: usize = 1;
    while i < n
        invariant
            loaded_biomes@.len() >= 1,
            forall|j: int|
                0 <= j < loaded_biomes@.len() ==> (
                #[trigger] loaded_biomes@[j]).biome_config.valid(),
            bs == configs_of(loaded_biomes@),
            n == loaded_biomes@.len(),
            x < BIOME_MAP_GRID_SIZE,
            y < BIOME_MAP_GRID_SIZE,
            1 <= i <= n,
            best == argmin_upto(bs, x as int, y as int, i as nat),
            best < i,
            best_dist == dist_sq_spec(bs[best as int], x as int, y as int),
            best_dist <= 19602,
        decreases n - i,
    {
        let d = dist_sq(&loaded_biomes[i].biome_config, x, y);
        if d < best_dist {
            best = i;
            best_dist = d;
        }
        i = i + 1;
    }

    // Second-closest biome, skipping the closest; with a single biome the
    // closest serves as its own runner-up.
    let mut second: usize = 0;
    let mut second_dist: u64 = best_dist;
    if n > 1 {
        let mut found = false;
        let mut j: usize = 0;
        while j < n
            invariant
                loaded_biomes@.len() >= 1,
                forall|k: int|
                    0 <= k < loaded_biomes@.len() ==> (
                    #[trigger] loaded_biomes@[k]).biome_config.valid(),
                bs == configs_of(loaded_biomes@),
                n == loaded_biomes@.len(),
                x < BIOME_MAP_GRID_SIZE,
                y < BIOME_MAP_GRID_SIZE,
                j <= n,
                best < n,
                found == (argmin_excl_upto(bs, x as int, y as int, best as int, j as nat) >= 0),
                found ==> second == argmin_excl_upto(bs, x as int, y as int, best as int, j as nat),
                found ==> second < j && second != best,
                found ==> second_dist == dist_sq_spec(bs[second as int], x as int, y as int),
                found ==> second_dist <= 19602,
            decreases n - j,
        {
            if j != best {
                let d = dist_sq(&loaded_biomes[j].biome_config, x, y);
                if !found || d < second_dist {
                    second = j;
                    second_dist = d;
                    found = true;
                }
            }
            j = j + 1;
        }
        proof {
            let witness: int = if best == 0 {
                1
            } else {
                0
            };
            lemma_argmin_excl_upto_nonneg(bs, x as int, y as int, best as int, n as nat, witness);
            assert(found);
        }
    }

    let single = n == 1;
    let blend = blend_percent(best_dist, second_dist, single);
    proof {
        lemma_argmin_upto_bounds(bs, x as int, y as int, n as nat);
    }
    BiomeMapEntry { primary: best, secondary: second, blend }
}

/// Blend percentage of a cell from its two squared distances.
fn blend_percent(a: u64, b: u64, single: bool) -> (r: u8)
    requires
        a <= 19602,
        b <= 19602,
    ensures
        r == blend_spec(a as int, b as int, single),
        r <= 100,
{
    if a < BIOME_TRANSITION_THRESHOLD && b > BIOME_TRANSITION_THRESHOLD {
        return 100;
    }
    if single || a == 0 {
        return 100;
    }
    proof {
        assert(0 <= a * a <= 19602 * 19602) by (nonlinear_arith)
            requires
                a <= 19602,
        ;
        assert(0 <= b * b <= 19602 * 19602) by (nonlinear_arith)
            requires
                b <= 19602,
        ;
    }
    let aa0 = a * a;
    let bb0 = b * b;
    let aa = if aa0 < 1 {
        1
    } else {
        aa0
    };
    let bb = if bb0 < 1 {
        1
    } else {
        bb0
    };
    let num = 200 * bb + aa + bb;
    let den = 2 * (aa + bb);
    let q = num / den;
    proof {
        assert(num < 101 * den);
        assert(den * (num / den) + num % den == num) by {
            vstd::arithmetic::div_mod::lemma_fundamental_div_mod(num as int, den as int);
        }
        assert(q <= 100) by (nonlinear_arith)
            requires
                num < 101 * den,
                den > 0,
                den * q + num % den == num,
                num % den >= 0,
        ;
    }
    q as u8
}

/// The biome registry: an ordered vector of loaded biomes plus the
/// precomputed lookup map over the temperature/humidity plane.
#[derive(Clone, Debug)]
pub struct BiomeRegistry {
    pub biomes: Vec<Biome>,
    pub biome_map: BiomeMap,
}

impl BiomeRegistry {
    /// At least one biome is loaded, every biome is well formed and lies
    /// on the plane, and the lookup map matches the loaded biomes.
    pub open spec fn wf(self) -> bool {
        &&& self.biomes@.len() >= 1
        &&& forall|i: int|
            0 <= i < self.biomes@.len() ==> (#[trigger] self.biomes@[i]).wf()
                && self.biomes@[i].biome_config.valid()
        &&& self.biome_map.wf(self.biomes@.len() as int)
        &&& biome_map_matches(self.biome_map, configs_of(self.biomes@))
    }

    /// Materialises the biomes from their schemas, in order, and builds
    /// the lookup map over them.
    pub fn new(biome_schemas: &Vec<BiomeSchema>) -> (r: BiomeRegistry)
        requires
            biome_schemas@.len() >= 1,
            forall|i: int|
                0 <= i < biome_schemas@.len() ==> (
                #[trigger] biome_schemas@[i]).biome_config.valid(),
        ensures
            r.wf(),
            r.biomes@.len() == biome_schemas@.len(),
            forall|i: int|
                0 <= i < biome_schemas@.len() ==> {
                    &&& (#[trigger] r.biomes@[i]).biome_config == biome_schemas@[i].biome_config
                    &&& r.biomes@[i].noise_schema@ == noise_layer_seq_spec(
                        biome_schemas@[i].noise_functions,
                    )
                },
    {
        let mut biomes: Vec<Biome> = Vec::new();
        let mut i: usize = 0;
        while i < biome_schemas.len()
            invariant
                forall|j: int|
                    0 <= j < biome_schemas@.len() ==> (
                    #[trigger] biome_schemas@[j]).biome_config.valid(),
                i <= biome_schemas@.len(),
                biomes@.len() == i,
                forall|j: int|
                    0 <= j < i ==> {
                        &&& (#[trigger] biomes@[j]).wf()
                        &&& biomes@[j].biome_config == biome_schemas@[j].biome_config
                        &&& biomes@[j].noise_schema@ == noise_layer_seq_spec(
                            biome_schemas@[j].noise_functions,
                        )
                    },
            decreases biome_schemas@.len() - i,
        {
            biomes.push(Biome::from_schema(&biome_schemas[i]));
            i = i + 1;
        }
        let biome_map = BiomeMap::populate_biome_map(&biomes);
        BiomeRegistry { biomes, biome_map }
    }

    /// The biome at a registry index.
    pub fn biome(&self, index: usize) -> (r: &Biome)
        requires
            index < self.biomes@.len(),
        ensures
            *r == self.biomes@[index as int],
    {
        &self.biomes[index]
    }
}

/// Closure of the biome map: for every cell of the temperature/humidity
/// plane, the blend percentage stays within [0, 100] and both the primary
/// and the secondary entry resolve to loaded biomes.
pub proof fn lemma_biome_map_closure(reg: BiomeRegistry, t: int, h: int)
    requires
        reg.wf(),
        0 <= t < BIOME_MAP_GRID_SIZE,
        0 <= h < BIOME_MAP_GRID_SIZE,
    ensures
        0 <= h * BIOME_MAP_GRID_SIZE + t < reg.biome_map.map@.len(),
        reg.biome_map.map@[h * BIOME_MAP_GRID_SIZE + t].primary < reg.biomes@.len(),
        reg.biome_map.map@[h * BIOME_MAP_GRID_SIZE + t].secondary < reg.biomes@.len(),
        reg.biome_map.map@[h * BIOME_MAP_GRID_SIZE + t].blend <= 100,
{
    assert(h * BIOME_MAP_GRID_SIZE + t < BIOME_MAP_GRID_SIZE * BIOME_MAP_GRID_SIZE)
        by (nonlinear_arith)
        requires
            0 <= t < BIOME_MAP_GRID_SIZE,
            0 <= h < BIOME_MAP_GRID_SIZE,
    ;
}

} // verus!
