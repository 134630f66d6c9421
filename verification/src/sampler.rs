//! The noise sampler: per-chunk caches of the 2D temperature/humidity
//! maps and per-column caches of the six 1D terrain noise layers.
//!
//! A cache fill for a chunk takes the raw point samples (produced outside
//! from the chunk's scattered sample positions), interpolates them into
//! both 2D maps, and inserts both at once; a fill that races a completed
//! one is a no-op, which is sound because equal inputs give equal maps.

use std::collections::HashMap;
use vstd::prelude::*;

use crate::block::ChunkRelativePos;
use crate::constants::BIOME_SAMPLE_POINT_AMOUNT;
use crate::constants::CHUNK_BLOCK_COUNT;
use crate::constants::CHUNK_SIZE;
use crate::constants::NUM_1D_NOISE_LAYERS;
use crate::constants::TEMPERATURE_INDEX;
use crate::noise::NoiseLayer1D;
use crate::noise::NoiseLayer2D;
use crate::noise::SamplePoint;
use crate::noise::generate_temperature_and_humidity_map;
use crate::noise::get_biome_points;
use crate::noise::hum_map_cell;
use crate::noise::scatter_points;
use crate::noise::temp_map_cell;
use crate::schema::DimensionSchema;
use crate::seed::chunk_seed_spec;
use crate::seed::get_chunk_seed;

verus! {

broadcast use vstd::std_specs::hash::group_hash_axioms;

/// Cache key of the chunk at `(x, y)`: both coordinates packed into one
/// 64-bit word.
pub open spec fn chunk_key_spec(x: i32, y: i32) -> u64 {
    (((x as u32) as u64) << 32) | ((y as u32) as u64)
}

pub fn chunk_key(x: i32, y: i32) -> (r: u64)
    ensures
        r == chunk_key_spec(x, y),
{
    (((x as u32) as u64) << 32) | ((y as u32) as u64)
}

/// Packing chunk coordinates into a cache key loses nothing.
pub proof fn lemma_chunk_key_injective(x1: i32, y1: i32, x2: i32, y2: i32)
    requires
        chunk_key_spec(x1, y1) == chunk_key_spec(x2, y2),
    ensures
        x1 == x2,
        y1 == y2,
{
    assert(((((x1 as u32) as u64) << 32) | ((y1 as u32) as u64)) == ((((x2 as u32) as u64) << 32)
        | ((y2 as u32) as u64)) ==> (x1 as u32) == (x2 as u32) && (y1 as u32) == (y2 as u32))
        by (bit_vector);
    assert((x1 as u32) == (x2 as u32) && (y1 as u32) == (y2 as u32) ==> x1 == x2 && y1 == y2)
        by (bit_vector);
}

/// Cache key of the chunk column at chunk x-coordinate `x`.
pub open spec fn column_key_spec(x: i32) -> u64 {
    (x as u32) as u64
}

pub fn column_key(x: i32) -> (r: u64)
    ensures
        r == column_key_spec(x),
{
    (x as u32) as u64
}

/// Chunk coordinate holding the world coordinate `w`: floor division by
/// the chunk size.
pub open spec fn world_to_chunk_pos_spec(w: int) -> int {
    w / (CHUNK_SIZE as int)
}

/// Position of the world coordinate `w` inside its chunk.
pub open spec fn world_to_local_pos_spec(w: int) -> int {
    w % (CHUNK_SIZE as int)
}

/// Splits a world coordinate into its chunk coordinate and its position
/// inside the chunk.
pub fn world_to_chunk_and_local(w: i32) -> (r: (i32, usize))
    ensures
        r.0 == world_to_chunk_pos_spec(w as int),
        r.1 == world_to_local_pos_spec(w as int),
        r.1 < CHUNK_SIZE,
{
    if w >= 0 {
        let q = w / (CHUNK_SIZE as i32);
        let l = (w % (CHUNK_SIZE as i32)) as usize;
        (q, l)
    } else {
        let neg: i64 = -(w as i64);
        let q: i64 = (neg + (CHUNK_SIZE as i64) - 1) / (CHUNK_SIZE as i64);
        let local: i64 = (CHUNK_SIZE as i64) * q - neg;
        proof {
            vstd::arithmetic::div_mod::lemma_fundamental_div_mod(
                neg + (CHUNK_SIZE as int) - 1,
                CHUNK_SIZE as int,
            );
            assert(0 <= local < CHUNK_SIZE);
            vstd::arithmetic::div_mod::lemma_fundamental_div_mod_converse(
                w as int,
                CHUNK_SIZE as int,
                -q as int,
                local as int,
            );
        }
        ((-q) as i32, local as usize)
    }
}

/// The cached pair of 2D maps of one chunk.
#[derive(Clone, PartialEq, Eq, Debug)]
pub struct TempHumMaps {
    pub temperature: NoiseLayer2D,
    pub humidity: NoiseLayer2D,
}

impl TempHumMaps {
    pub open spec fn wf(self) -> bool {
        self.temperature.wf() && self.humidity.wf()
    }
}

/// The cached six 1D noise layers of one chunk column.
#[derive(Clone, PartialEq, Eq, Debug)]
pub struct NoiseColumns {
    pub layers: Vec<NoiseLayer1D>,
}

impl NoiseColumns {
    pub open spec fn wf(self) -> bool {
        &&& self.layers@.len() == NUM_1D_NOISE_LAYERS
        &&& forall|i: int| 0 <= i < self.layers@.len() ==> (#[trigger] self.layers@[i]).wf()
    }
}

/// A raw point sample value clamped into the carried range of
/// [0, 100] in thousandths.
pub open spec fn clamp_sample_spec(v: u64) -> u64 {
    if v > 100_000 {
        100_000
    } else {
        v
    }
}

/// The scattered samples of one 2D layer of one chunk: the seed-derived
/// chosen points starting at `offset`, paired with the clamped values.
pub open spec fn build_samples_spec(seed: u64, offset: int, values: Seq<u64>) -> Seq<SamplePoint> {
    Seq::new(
        values.len(),
        |i: int|
            SamplePoint {
                pos: ChunkRelativePos {
                    x: scatter_points(seed, (2 * BIOME_SAMPLE_POINT_AMOUNT) as nat)[i + offset].0
                        as u8,
                    y: scatter_points(seed, (2 * BIOME_SAMPLE_POINT_AMOUNT) as nat)[i + offset].1
                        as u8,
                },
                value_milli: clamp_sample_spec(values[i]),
            },
    )
}

/// The noise sampler: the dimension's seed and size parameters plus the
/// two lazily filled caches.
#[derive(Debug)]
pub struct NoiseSampler {
    pub world_seed: i32,
    pub size_x: u32,
    pub size_y: u32,
    pub horizontal_variation: u8,
    pub vertical_variation: u8,
    pub cache_2d: HashMap<u64, TempHumMaps>,
    pub cache_1d: HashMap<u64, NoiseColumns>,
}

impl NoiseSampler {
    /// Every cached entry is well formed.
    pub open spec fn wf(self) -> bool {
        &&& forall|k: u64|
            self.cache_2d@.dom().contains(k) ==> (#[trigger] self.cache_2d@[k]).wf()
        &&& forall|k: u64|
            self.cache_1d@.dom().contains(k) ==> (#[trigger] self.cache_1d@[k]).wf()
    }

    /// The temperature map a cache fill stores for the chunk at
    /// `(x, y)` when handed the raw values `tv`.
    pub open spec fn temp_layer_spec(self, x: i32, y: i32, tv: Seq<u64>) -> Seq<u8> {
        Seq::new(
            CHUNK_BLOCK_COUNT as nat,
            |i: int|
                temp_map_cell(
                    build_samples_spec(chunk_seed_spec(self.world_seed, x, y), 0, tv),
                    x as int,
                    y as int,
                    i,
                    self.size_x as int,
                    self.size_y as int,
                    self.horizontal_variation as int,
                    self.vertical_variation as int,
                ),
        )
    }

    /// The humidity map a cache fill stores for the chunk at `(x, y)`
    /// when handed the raw values `hv`.
    pub open spec fn hum_layer_spec(self, x: i32, y: i32, hv: Seq<u64>) -> Seq<u8> {
        Seq::new(
            CHUNK_BLOCK_COUNT as nat,
            |i: int|
                hum_map_cell(
                    build_samples_spec(
                        chunk_seed_spec(self.world_seed, x, y),
                        BIOME_SAMPLE_POINT_AMOUNT as int,
                        hv,
                    ),
                    i,
                ),
        )
    }

    /// Creates a sampler with empty caches for a dimension.
    pub fn new(world_seed: i32, dimension_schema: &DimensionSchema) -> (r: NoiseSampler)
        ensures
            r.wf(),
            r.world_seed == world_seed,
            r.size_x == dimension_schema.size_x,
            r.size_y == dimension_schema.size_y,
            r.horizontal_variation == match dimension_schema.biome_map_adjustments {
                Some(a) => a.horizontal_temperature_variation,
                None => 0,
            },
            r.vertical_variation == match dimension_schema.biome_map_adjustments {
                Some(a) => a.vertical_temperature_variation,
                None => 0,
            },
            r.cache_2d@ == Map::<u64, TempHumMaps>::empty(),
            r.cache_1d@ == Map::<u64, NoiseColumns>::empty(),
    {
        let (horizontal_variation, vertical_variation) = match &dimension_schema
            .biome_map_adjustments {
            Some(a) => (a.horizontal_temperature_variation, a.vertical_temperature_variation),
            None => (0, 0),
        };
        NoiseSampler {
            world_seed,
            size_x: dimension_schema.size_x,
            size_y: dimension_schema.size_y,
            horizontal_variation,
            vertical_variation,
            cache_2d: HashMap::new(),
            cache_1d: HashMap::new(),
        }
    }

    /// The scattered sample positions of the chunk at `(x, y)`: the
    /// first half for temperature, the second half for humidity, all
    /// pairwise distinct.
    pub fn sample_positions(&self, chunk_x: i32, chunk_y: i32) -> (r: (
        Vec<ChunkRelativePos>,
        Vec<ChunkRelativePos>,
    ))
        ensures
            r.0@.len() == BIOME_SAMPLE_POINT_AMOUNT,
            r.1@.len() == BIOME_SAMPLE_POINT_AMOUNT,
            forall|i: int|
                0 <= i < BIOME_SAMPLE_POINT_AMOUNT ==> {
                    &&& (#[trigger] r.0@[i]).x == scatter_points(
                        chunk_seed_spec(self.world_seed, chunk_x, chunk_y),
                        (2 * BIOME_SAMPLE_POINT_AMOUNT) as nat,
                    )[i].0
                    &&& r.0@[i].y == scatter_points(
                        chunk_seed_spec(self.world_seed, chunk_x, chunk_y),
                        (2 * BIOME_SAMPLE_POINT_AMOUNT) as nat,
                    )[i].1
                    &&& r.0@[i].valid()
                },
            forall|i: int|
                0 <= i < BIOME_SAMPLE_POINT_AMOUNT ==> {
                    &&& (#[trigger] r.1@[i]).x == scatter_points(
                        chunk_seed_spec(self.world_seed, chunk_x, chunk_y),
                        (2 * BIOME_SAMPLE_POINT_AMOUNT) as nat,
                    )[i + BIOME_SAMPLE_POINT_AMOUNT].0
                    &&& r.1@[i].y == scatter_points(
                        chunk_seed_spec(self.world_seed, chunk_x, chunk_y),
                        (2 * BIOME_SAMPLE_POINT_AMOUNT) as nat,
                    )[i + BIOME_SAMPLE_POINT_AMOUNT].1
                    &&& r.1@[i].valid()
                },
            forall|i: int, j: int|
                0 <= i < j < BIOME_SAMPLE_POINT_AMOUNT ==> r.0@[i] != r.0@[j],
            forall|i: int, j: int|
                0 <= i < j < BIOME_SAMPLE_POINT_AMOUNT ==> r.1@[i] != r.1@[j],
            forall|i: int, j: int|
                0 <= i < BIOME_SAMPLE_POINT_AMOUNT && 0 <= j < BIOME_SAMPLE_POINT_AMOUNT ==> r.0@[i]
                    != r.1@[j],
    {
        let seed = get_chunk_seed(self.world_seed, chunk_x, chunk_y);
        get_biome_points(seed)
    }

    /// Whether the 2D maps of the chunk at `(x, y)` are cached.
    pub fn has_chunk_maps(&self, chunk_x: i32, chunk_y: i32) -> (r: bool)
        ensures
            r == self.cache_2d@.dom().contains(chunk_key_spec(chunk_x, chunk_y)),
    {
        let key = chunk_key(chunk_x, chunk_y);
        self.cache_2d.contains_key(&key)
    }

    /// Fills the 2D cache of the chunk at `(x, y)` from the raw point
    /// sample values, interpolating both maps and inserting them
    /// atomically; a fill for an already cached chunk is a no-op.
    pub fn insert_chunk_maps(
        &mut self,
        chunk_x: i32,
        chunk_y: i32,
        temp_values: &Vec<u64>,
        hum_values: &Vec<u64>,
    )
        requires
            old(self).wf(),
            temp_values@.len() == BIOME_SAMPLE_POINT_AMOUNT,
            hum_values@.len() == BIOME_SAMPLE_POINT_AMOUNT,
        ensures
            final(self).wf(),
            final(self).world_seed == old(self).world_seed,
            final(self).size_x == old(self).size_x,
            final(self).size_y == old(self).size_y,
            final(self).horizontal_variation == old(self).horizontal_variation,
            final(self).vertical_variation == old(self).vertical_variation,
            final(self).cache_1d@ == old(self).cache_1d@,
            old(self).cache_2d@.dom().contains(chunk_key_spec(chunk_x, chunk_y)) ==> final(self).cache_2d@ == old(self).cache_2d@,
            !old(self).cache_2d@.dom().contains(chunk_key_spec(chunk_x, chunk_y)) ==> {
                &&& final(self).cache_2d@.dom() == old(self).cache_2d@.dom().insert(
                    chunk_key_spec(chunk_x, chunk_y),
                )
                &&& final(self).cache_2d@[chunk_key_spec(chunk_x, chunk_y)].temperature.layer@
                    == old(self).temp_layer_spec(chunk_x, chunk_y, temp_values@)
                &&& final(self).cache_2d@[chunk_key_spec(chunk_x, chunk_y)].humidity.layer@ == old(self).hum_layer_spec(chunk_x, chunk_y, hum_values@)
                &&& forall|k: u64|
                    k != chunk_key_spec(chunk_x, chunk_y) && old(self).cache_2d@.dom().contains(k)
                        ==> final(self).cache_2d@[k] == old(self).cache_2d@[k]
            },
    {
        let key = chunk_key(chunk_x, chunk_y);
        if self.cache_2d.contains_key(&key) {
            return ;
        }
        let ghost seed_g = chunk_seed_spec(self.world_seed, chunk_x, chunk_y);
        let (temp_points, hum_points) = self.sample_positions(chunk_x, chunk_y);
        let temp_samples = attach_values(&temp_points, temp_values);
        let hum_samples = attach_values(&hum_points, hum_values);
        proof {
            assert forall|i: int| 0 <= i < BIOME_SAMPLE_POINT_AMOUNT implies temp_samples@[i]
                == build_samples_spec(seed_g, 0, temp_values@)[i] by {
                let slot = scatter_points(seed_g, (2 * BIOME_SAMPLE_POINT_AMOUNT) as nat)[i];
                assert(temp_points@[i].x == slot.0 && temp_points@[i].y == slot.1);
                assert(0 <= slot.0 < 256 && 0 <= slot.1 < 256);
            }
            assert(temp_samples@ =~= build_samples_spec(seed_g, 0, temp_values@));
            assert forall|i: int| 0 <= i < BIOME_SAMPLE_POINT_AMOUNT implies hum_samples@[i]
                == build_samples_spec(seed_g, BIOME_SAMPLE_POINT_AMOUNT as int, hum_values@)[i] by {
                let slot = scatter_points(seed_g, (2 * BIOME_SAMPLE_POINT_AMOUNT) as nat)[i
                    + BIOME_SAMPLE_POINT_AMOUNT];
                assert(hum_points@[i].x == slot.0 && hum_points@[i].y == slot.1);
                assert(0 <= slot.0 < 256 && 0 <= slot.1 < 256);
            }
            assert(hum_samples@ =~= build_samples_spec(
                seed_g,
                BIOME_SAMPLE_POINT_AMOUNT as int,
                hum_values@,
            ));
        }
        let (temperature, humidity) = generate_temperature_and_humidity_map(
            chunk_x,
            chunk_y,
            &temp_samples,
            &hum_samples,
            self.size_x,
            self.size_y,
            self.horizontal_variation,
            self.vertical_variation,
        );
        proof {
            assert(temperature.layer@ =~= old(self).temp_layer_spec(
                chunk_x,
                chunk_y,
                temp_values@,
            ));
            assert(humidity.layer@ =~= old(self).hum_layer_spec(chunk_x, chunk_y, hum_values@));
        }
        self.cache_2d.insert(key, TempHumMaps { temperature, humidity });
    }

    /// The cached 2D layer of the chunk at `(x, y)`: temperature for
    /// layer index 0, humidity for 1.
    pub fn get_noise_layer_2d(&self, chunk_x: i32, chunk_y: i32, noise_layer_index: usize) -> (r:
        NoiseLayer2D)
        requires
            self.wf(),
            self.cache_2d@.dom().contains(chunk_key_spec(chunk_x, chunk_y)),
            noise_layer_index < 2,
        ensures
            r.wf(),
            noise_layer_index == TEMPERATURE_INDEX ==> r.layer@ == self.cache_2d@[chunk_key_spec(
                chunk_x,
                chunk_y,
            )].temperature.layer@,
            noise_layer_index != TEMPERATURE_INDEX ==> r.layer@ == self.cache_2d@[chunk_key_spec(
                chunk_x,
                chunk_y,
            )].humidity.layer@,
    {
        let key = chunk_key(chunk_x, chunk_y);
        match self.cache_2d.get(&key) {
            Some(maps) => {
                if noise_layer_index == TEMPERATURE_INDEX {
                    maps.temperature.duplicate()
                } else {
                    maps.humidity.duplicate()
                }
            },
            None => vstd::pervasive::unreached(),
        }
    }

    /// The cached 2D noise value at a world position.
    pub fn get_noise_2d(&self, world_x: i32, world_y: i32, noise_layer_index: usize) -> (r: u8)
        requires
            self.wf(),
            self.cache_2d@.dom().contains(
                chunk_key_spec(
                    world_to_chunk_pos_spec(world_x as int) as i32,
                    world_to_chunk_pos_spec(world_y as int) as i32,
                ),
            ),
            noise_layer_index < 2,
        ensures
            ({
                let maps = self.cache_2d@[chunk_key_spec(
                    world_to_chunk_pos_spec(world_x as int) as i32,
                    world_to_chunk_pos_spec(world_y as int) as i32,
                )];
                let index = world_to_local_pos_spec(world_y as int) * CHUNK_SIZE
                    + world_to_local_pos_spec(world_x as int);
                r == if noise_layer_index == TEMPERATURE_INDEX {
                    maps.temperature.layer@[index]
                } else {
                    maps.humidity.layer@[index]
                }
            }),
    {
        let (chunk_x, local_x) = world_to_chunk_and_local(world_x);
        let (chunk_y, local_y) = world_to_chunk_and_local(world_y);
        let layer = self.get_noise_layer_2d(chunk_x, chunk_y, noise_layer_index);
        layer.read(ChunkRelativePos { x: local_x as u8, y: local_y as u8 })
    }

    /// Whether the 1D noise columns of chunk column `x` are cached.
    pub fn has_columns(&self, chunk_x: i32) -> (r: bool)
        ensures
            r == self.cache_1d@.dom().contains(column_key_spec(chunk_x)),
    {
        let key = column_key(chunk_x);
        self.cache_1d.contains_key(&key)
    }

    /// Fills the 1D cache of chunk column `x` with the handed-in columns,
    /// one per noise layer index; a fill for an already cached column is
    /// a no-op.
    pub fn insert_columns(&mut self, chunk_x: i32, values: &Vec<Vec<i64>>)
        requires
            old(self).wf(),
            values@.len() == NUM_1D_NOISE_LAYERS,
            forall|j: int|
                0 <= j < NUM_1D_NOISE_LAYERS ==> (#[trigger] values@[j])@.len() == CHUNK_SIZE,
        ensures
            final(self).wf(),
            final(self).world_seed == old(self).world_seed,
            final(self).size_x == old(self).size_x,
            final(self).size_y == old(self).size_y,
            final(self).horizontal_variation == old(self).horizontal_variation,
            final(self).vertical_variation == old(self).vertical_variation,
            final(self).cache_2d@ == old(self).cache_2d@,
            old(self).cache_1d@.dom().contains(column_key_spec(chunk_x)) ==> final(self).cache_1d@
                == old(self).cache_1d@,
            !old(self).cache_1d@.dom().contains(column_key_spec(chunk_x)) ==> {
                &&& final(self).cache_1d@.dom() == old(self).cache_1d@.dom().insert(
                    column_key_spec(chunk_x),
                )
                &&& final(self).cache_1d@[column_key_spec(chunk_x)].layers@.len()
                    == NUM_1D_NOISE_LAYERS
                &&& forall|j: int|
                    0 <= j < NUM_1D_NOISE_LAYERS ==> (#[trigger] final(self).cache_1d@[column_key_spec(chunk_x)].layers@[j]).layer@ == values@[j]@
                &&& forall|k: u64|
                    k != column_key_spec(chunk_x) && old(self).cache_1d@.dom().contains(k) ==> final(self).cache_1d@[k] == old(self).cache_1d@[k]
            },
    {
        let key = column_key(chunk_x);
        if self.cache_1d.contains_key(&key) {
            return ;
        }
        let mut layers: Vec<NoiseLayer1D> = Vec::new();
        let mut j: usize = 0;
        while j < NUM_1D_NOISE_LAYERS
            invariant
                values@.len() == NUM_1D_NOISE_LAYERS,
                forall|t: int|
                    0 <= t < NUM_1D_NOISE_LAYERS ==> (#[trigger] values@[t])@.len() == CHUNK_SIZE,
                j <= NUM_1D_NOISE_LAYERS,
                layers@.len() == j,
                forall|t: int|
                    0 <= t < j ==> (#[trigger] layers@[t]).layer@ == values@[t]@ && layers@[t].wf(),
            decreases NUM_1D_NOISE_LAYERS - j,
        {
            layers.push(NoiseLayer1D { layer: values[j].clone() });
            j = j + 1;
        }
        self.cache_1d.insert(key, NoiseColumns { layers });
    }

    /// The cached 1D noise value for a world x-coordinate and a noise
    /// layer index.
    pub fn get_noise_1d(&self, world_pos_x: i32, noise_layer_index: usize) -> (r: i64)
        requires
            self.wf(),
            self.cache_1d@.dom().contains(
                column_key_spec(world_to_chunk_pos_spec(world_pos_x as int) as i32),
            ),
            noise_layer_index < NUM_1D_NOISE_LAYERS,
        ensures
            r == self.cache_1d@[column_key_spec(
                world_to_chunk_pos_spec(world_pos_x as int) as i32,
            )].layers@[noise_layer_index as int].layer@[world_to_local_pos_spec(
                world_pos_x as int,
            )],
    {
        let (chunk_x, local_x) = world_to_chunk_and_local(world_pos_x);
        let layer = self.get_noise_layer_1d(chunk_x, noise_layer_index);
        layer.read(local_x)
    }

    /// The whole cached 1D noise column for a chunk x-coordinate and a
    /// noise layer index.
    pub fn get_noise_layer_1d(&self, chunk_pos_x: i32, noise_layer_index: usize) -> (r:
        NoiseLayer1D)
        requires
            self.wf(),
            self.cache_1d@.dom().contains(column_key_spec(chunk_pos_x)),
            noise_layer_index < NUM_1D_NOISE_LAYERS,
        ensures
            r.wf(),
            r.layer@ == self.cache_1d@[column_key_spec(
                chunk_pos_x,
            )].layers@[noise_layer_index as int].layer@,
    {
        let key = column_key(chunk_pos_x);
        match self.cache_1d.get(&key) {
            Some(columns) => columns.layers[noise_layer_index].duplicate(),
            None => vstd::pervasive::unreached(),
        }
    }
}

/// Pairs each sample position with its clamped raw value.
fn attach_values(points: &Vec<ChunkRelativePos>, values: &Vec<u64>) -> (r: Vec<SamplePoint>)
    requires
        points@.len() == values@.len(),
        forall|i: int| 0 <= i < points@.len() ==> (#[trigger] points@[i]).valid(),
    ensures
        r@.len() == points@.len(),
        forall|i: int|
            0 <= i < r@.len() ==> (#[trigger] r@[i]) == (SamplePoint {
                pos: points@[i],
                value_milli: clamp_sample_spec(values@[i]),
            }),
        forall|i: int| 0 <= i < r@.len() ==> (#[trigger] r@[i]).wf(),
{
    let mut out: Vec<SamplePoint> = Vec::new();
    let mut i: usize = 0;
    while i < points.len()
        invariant
            points@.len() == values@.len(),
            forall|j: int| 0 <= j < points@.len() ==> (#[trigger] points@[j]).valid(),
            i <= points@.len(),
            out@.len() == i,
            forall|j: int|
                0 <= j < i ==> (#[trigger] out@[j]) == (SamplePoint {
                    pos: points@[j],
                    value_milli: clamp_sample_spec(values@[j]),
                }),
            forall|j: int| 0 <= j < i ==> (#[trigger] out@[j]).wf(),
        decreases points@.len() - i,
    {
        let v = values[i];
        let clamped = if v > 100_000 {
            100_000
        } else {
            v
        };
        out.push(SamplePoint { pos: points[i], value_milli: clamped });
        i = i + 1;
    }
    out
}

} // verus!
