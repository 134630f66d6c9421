//! Per-chunk generation: the per-block biome pick, the material rules,
//! and the generator core that owns the biome registry, the noise sampler
//! and the shared cache of baked column heights.
//!
//! Everything a generated chunk holds is a mathematical function of the
//! dimension seed, the chunk coordinate, the loaded biomes and the raw
//! noise samples cached in the sampler; that function is what the
//! contracts below state.

use std::collections::HashMap;
use vstd::prelude::*;

use crate::biome::Biome;
use crate::biome::BiomeMapEntry;
use crate::biome::BiomeRegistry;
use crate::biome::clamp_cell_spec;
use crate::block::BlockArray;
use crate::block::BlockType;
use crate::chunk::Chunk;
use crate::chunk::ChunkPos;
use crate::constants::BIOME_MAP_GRID_SIZE;
use crate::constants::CHUNK_BLOCK_COUNT;
use crate::constants::CHUNK_SIZE;
use crate::constants::HEIGHT_CAP_MILLI;
use crate::constants::HUMIDITY_INDEX;
use crate::constants::ICE_BLOCK_ID;
use crate::constants::NUM_1D_NOISE_LAYERS;
use crate::constants::PARALLEL_CHUNKGEN_THRESHOLD;
use crate::constants::TEMPERATURE_INDEX;
use crate::constants::WATER_BLOCK_ID;
use crate::heights::baked_height_spec;
use crate::heights::div1000_toward_zero_spec;
use crate::heights::get_terrain_heights;
use crate::noise::NoiseLayer1D;
use crate::rng::SeededRng;
use crate::rng::wyrand_u8;
use crate::sampler::NoiseSampler;
use crate::sampler::chunk_key_spec;
use crate::sampler::column_key;
use crate::sampler::column_key_spec;
use crate::schema::BiomeConfig;
use crate::schema::BiomeTypes;
use crate::seed::chunk_seed_spec;
use crate::seed::get_chunk_seed;

verus! {

broadcast use vstd::std_specs::hash::group_hash_axioms;

/// Whether a batch of that many queued requests is generated with data
/// parallelism rather than sequentially.
pub fn use_parallel_generation(batch_len: usize) -> (r: bool)
    ensures
        r == (batch_len >= PARALLEL_CHUNKGEN_THRESHOLD),
{
    batch_len >= PARALLEL_CHUNKGEN_THRESHOLD
}

/// The chunk coordinate of the `k`-th generation event of a timing sweep:
/// x sweeps 0 to 99 and y increments at each wrap.
pub fn test_sweep_position(k: u32) -> (r: ChunkPos)
    ensures
        r.x == k % 100,
        r.y == k / 100,
{
    ChunkPos { x: (k % 100) as i32, y: (k / 100) as i32 }
}

/// Generator state after `k` per-block biome-pick draws (range
/// `[0, 100)`) from the chunk seed.
pub open spec fn pick_draw_state(seed: u64, k: nat) -> u64
    decreases k,
{
    if k == 0 {
        seed
    } else {
        wyrand_u8(pick_draw_state(seed, (k - 1) as nat), 0, 99).1
    }
}

/// Value of the `k`-th per-block biome-pick draw from the chunk seed.
pub open spec fn pick_draw(seed: u64, k: nat) -> u8 {
    wyrand_u8(pick_draw_state(seed, k), 0, 99).0
}

/// The biome index picked for block `i`: the primary biome when the
/// block's draw falls below the cell's blend percentage, else the
/// secondary.
pub open spec fn picked_biome_spec(
    mapv: Seq<BiomeMapEntry>,
    temp: Seq<u8>,
    hum: Seq<u8>,
    seed: u64,
    i: int,
) -> int {
    let cell = mapv[clamp_cell_spec(hum[i]) * BIOME_MAP_GRID_SIZE + clamp_cell_spec(temp[i])];
    if pick_draw(seed, i as nat) < cell.blend {
        cell.primary as int
    } else {
        cell.secondary as int
    }
}

/// The foreground material of a block: `Some(block_id)` for a tile,
/// `None` where the block stays air.  At or below the terrain height the
/// id follows the depth rule (surface, five subsurface rows, base);
/// above the height but at or below world height zero, the biome's
/// climate decides between ice, water and air.
pub open spec fn material_spec(height_milli: int, world_y: int, b: BiomeConfig) -> Option<u32> {
    if height_milli >= world_y * 1000 {
        let depth = div1000_toward_zero_spec(height_milli) - world_y;
        if depth == 0 {
            Some(b.surface_block)
        } else if 1 <= depth <= 5 {
            Some(b.subsurface_block)
        } else {
            Some(b.base_block)
        }
    } else if world_y <= 0 {
        if world_y == 0 && b.biome_type == BiomeTypes::Cold {
            Some(ICE_BLOCK_ID)
        } else if world_y > -5 && b.biome_type == BiomeTypes::Warm {
            None
        } else if b.biome_type == BiomeTypes::Freezing {
            Some(ICE_BLOCK_ID)
        } else if b.biome_type == BiomeTypes::Hot {
            None
        } else {
            Some(WATER_BLOCK_ID)
        }
    } else {
        None
    }
}

/// What generation writes into foreground block `i` of the chunk at
/// vertical chunk coordinate `chunk_y`.
pub open spec fn generated_block_spec(
    biomes: Seq<Biome>,
    mapv: Seq<BiomeMapEntry>,
    temp: Seq<u8>,
    hum: Seq<u8>,
    heights: Seq<int>,
    seed: u64,
    chunk_y: int,
    i: int,
) -> Option<u32> {
    let b = biomes[picked_biome_spec(mapv, temp, hum, seed, i)].biome_config;
    material_spec(
        heights[i % (CHUNK_SIZE as int)],
        chunk_y * (CHUNK_SIZE as int) + i / (CHUNK_SIZE as int),
        b,
    )
}

/// Number of tiles among the first `k` generated foreground blocks.
pub open spec fn tile_count_upto(
    biomes: Seq<Biome>,
    mapv: Seq<BiomeMapEntry>,
    temp: Seq<u8>,
    hum: Seq<u8>,
    heights: Seq<int>,
    seed: u64,
    chunk_y: int,
    k: nat,
) -> int
    decreases k,
{
    if k == 0 {
        0
    } else {
        tile_count_upto(biomes, mapv, temp, hum, heights, seed, chunk_y, (k - 1) as nat) + if
            generated_block_spec(biomes, mapv, temp, hum, heights, seed, chunk_y, k - 1)
            is Some {
            1int
        } else {
            0int
        }
    }
}

/// The whole relation between a generated chunk and its inputs: the
/// foreground follows the material rules block by block, the
/// middleground and the background are air, and the tile counter counts
/// the foreground tiles.
pub open spec fn is_generated_chunk(
    c: Chunk,
    biomes: Seq<Biome>,
    mapv: Seq<BiomeMapEntry>,
    temp: Seq<u8>,
    hum: Seq<u8>,
    heights: Seq<int>,
    seed: u64,
    chunk_y: int,
) -> bool {
    &&& c.wf()
    &&& forall|i: int|
        0 <= i < CHUNK_BLOCK_COUNT ==> (#[trigger] c.foreground.block_type@[i]) == (
        match generated_block_spec(biomes, mapv, temp, hum, heights, seed, chunk_y, i) {
            Some(_) => BlockType::Tile,
            None => BlockType::Air,
        })
    &&& forall|i: int|
        0 <= i < CHUNK_BLOCK_COUNT ==> (#[trigger] c.foreground.block_id@[i]) == (
        match generated_block_spec(biomes, mapv, temp, hum, heights, seed, chunk_y, i) {
            Some(id) => id,
            None => 0u32,
        })
    &&& forall|i: int|
        0 <= i < CHUNK_BLOCK_COUNT ==> (#[trigger] c.foreground.texture_index@[i]) == 0u8
    &&& forall|i: int|
        0 <= i < CHUNK_BLOCK_COUNT ==> (#[trigger] c.middleground.block_type@[i])
            == BlockType::Air && c.middleground.block_id@[i] == 0u32
            && c.middleground.texture_index@[i] == 0u8
    &&& forall|i: int|
        0 <= i < CHUNK_BLOCK_COUNT ==> (#[trigger] c.background.block_type@[i]) == BlockType::Air
            && c.background.block_id@[i] == 0u32 && c.background.texture_index@[i] == 0u8
    &&& c.total_block_count == tile_count_upto(
        biomes,
        mapv,
        temp,
        hum,
        heights,
        seed,
        chunk_y,
        CHUNK_BLOCK_COUNT as nat,
    )
}

/// Generation is a function of its inputs: two chunks generated from the
/// same biomes, lookup map, noise maps, heights, seed and vertical
/// coordinate hold identical blocks, layer by layer and field by field.
pub proof fn lemma_generation_deterministic(
    c1: Chunk,
    c2: Chunk,
    biomes: Seq<Biome>,
    mapv: Seq<BiomeMapEntry>,
    temp: Seq<u8>,
    hum: Seq<u8>,
    heights: Seq<int>,
    seed: u64,
    chunk_y: int,
)
    requires
        is_generated_chunk(c1, biomes, mapv, temp, hum, heights, seed, chunk_y),
        is_generated_chunk(c2, biomes, mapv, temp, hum, heights, seed, chunk_y),
    ensures
        c1.foreground.block_type@ == c2.foreground.block_type@,
        c1.foreground.block_id@ == c2.foreground.block_id@,
        c1.foreground.texture_index@ == c2.foreground.texture_index@,
        c1.middleground.block_type@ == c2.middleground.block_type@,
        c1.background.block_type@ == c2.background.block_type@,
        c1.total_block_count == c2.total_block_count,
{
    assert(c1.foreground.block_type@ =~= c2.foreground.block_type@);
    assert(c1.foreground.block_id@ =~= c2.foreground.block_id@);
    assert(c1.foreground.texture_index@ =~= c2.foreground.texture_index@);
    assert(c1.middleground.block_type@ =~= c2.middleground.block_type@);
    assert(c1.background.block_type@ =~= c2.background.block_type@);
}

/// Material monotonicity through the surface: in a world column whose
/// baked height is integral and not below world height zero, the blocks
/// from high y downwards are air above the surface, the surface block at
/// the surface, the subsurface block for the five rows below it, and the
/// base block further down.
pub proof fn lemma_material_monotonic(height_milli: int, b: BiomeConfig, world_y: int)
    requires
        height_milli % 1000 == 0,
        0 <= height_milli,
    ensures
        world_y > height_milli / 1000 ==> material_spec(height_milli, world_y, b) is None,
        world_y == height_milli / 1000 ==> material_spec(height_milli, world_y, b) == Some(
            b.surface_block,
        ),
        height_milli / 1000 - 5 <= world_y < height_milli / 1000 ==> material_spec(
            height_milli,
            world_y,
            b,
        ) == Some(b.subsurface_block),
        world_y < height_milli / 1000 - 5 ==> material_spec(height_milli, world_y, b) == Some(
            b.base_block,
        ),
{
    let h = height_milli / 1000;
    vstd::arithmetic::div_mod::lemma_fundamental_div_mod(height_milli, 1000);
    assert(height_milli == 1000 * h);
    if world_y <= h {
        assert(height_milli >= world_y * 1000) by (nonlinear_arith)
            requires
                height_milli == 1000 * h,
                world_y <= h,
        ;
    }
    if world_y > h {
        assert(height_milli < world_y * 1000) by (nonlinear_arith)
            requires
                height_milli == 1000 * h,
                world_y > h,
        ;
    }
}

/// The foreground material of one block, as an executable decision.
pub fn material_for(height_milli: i64, world_y: i64, biome_config: &BiomeConfig) -> (r: Option<
    u32,
>)
    requires
        -HEIGHT_CAP_MILLI <= height_milli <= HEIGHT_CAP_MILLI,
        -0x10_0000_0040 <= world_y <= 0x10_0000_0040,
    ensures
        r == material_spec(height_milli as int, world_y as int, *biome_config),
{
    if height_milli >= world_y * 1000 {
        let trunc: i64 = if height_milli >= 0 {
            ((height_milli as u64) / 1000) as i64
        } else {
            -((((-height_milli) as u64) / 1000) as i64)
        };
        let depth: i64 = trunc - world_y;
        if depth == 0 {
            Some(biome_config.surface_block)
        } else if 1 <= depth && depth <= 5 {
            Some(biome_config.subsurface_block)
        } else {
            Some(biome_config.base_block)
        }
    } else if world_y <= 0 {
        if world_y == 0 && matches!(biome_config.biome_type, BiomeTypes::Cold) {
            Some(ICE_BLOCK_ID)
        } else if world_y > -5 && matches!(biome_config.biome_type, BiomeTypes::Warm) {
            None
        } else if matches!(biome_config.biome_type, BiomeTypes::Freezing) {
            Some(ICE_BLOCK_ID)
        } else if matches!(biome_config.biome_type, BiomeTypes::Hot) {
            None
        } else {
            Some(WATER_BLOCK_ID)
        }
    } else {
        None
    }
}

/// The six cached 1D noise columns of chunk column `cx`, as plain value
/// sequences.
pub open spec fn cols_view(s: NoiseSampler, cx: i32) -> Seq<Seq<i64>> {
    Seq::new(
        NUM_1D_NOISE_LAYERS as nat,
        |j: int| s.cache_1d@[column_key_spec(cx)].layers@[j].layer@,
    )
}

/// The baked heights of chunk column `cx`, derived from the registry and
/// the sampler's cached surface maps and noise columns.  The vertical
/// chunk coordinate plays no part here: that is what keeps columns free
/// of vertical seams.
pub open spec fn column_heights_spec(reg: BiomeRegistry, s: NoiseSampler, cx: i32) -> Seq<int> {
    Seq::new(
        CHUNK_SIZE as nat,
        |x: int|
            baked_height_spec(
                reg.biomes@,
                reg.biome_map.map@,
                s.cache_2d@[chunk_key_spec(cx, 0)].temperature.layer@,
                s.cache_2d@[chunk_key_spec(cx, 0)].humidity.layer@,
                cols_view(s, cx),
                x,
            ),
    )
}

/// Height continuity: the baked heights a chunk's columns see depend on
/// its x-coordinate alone, so any two chunks sharing a chunk x-coordinate
/// derive element-wise identical height columns, whatever their vertical
/// coordinates.
pub proof fn lemma_height_continuity(
    reg: BiomeRegistry,
    s: NoiseSampler,
    pos1: ChunkPos,
    pos2: ChunkPos,
)
    requires
        pos1.x == pos2.x,
    ensures
        column_heights_spec(reg, s, pos1.x) == column_heights_spec(reg, s, pos2.x),
{
}

/// Distinct chunk x-coordinates give distinct column cache keys.
proof fn lemma_column_key_injective(a: i32, b: i32)
    requires
        column_key_spec(a) == column_key_spec(b),
    ensures
        a == b,
{
    assert((a as u32) as u64 == (b as u32) as u64 ==> a == b) by (bit_vector);
}

/// Copies a height column.
fn duplicate_i64_vec(v: &Vec<i64>) -> (r: Vec<i64>)
    ensures
        r@ == v@,
{
    let mut out: Vec<i64> = Vec::new();
    let mut i: usize = 0;
    while i < v.len()
        invariant
            i <= v@.len(),
            out@.len() == i,
            forall|j: int| 0 <= j < i ==> out@[j] == v@[j],
        decreases v@.len() - i,
    {
        out.push(v[i]);
        i = i + 1;
    }
    proof {
        assert(out@ =~= v@);
    }
    out
}

/// The chunk-generator core of one dimension: the dimension seed, the
/// loaded biomes with their lookup map, the noise sampler, and the cache
/// of baked column heights shared across the chunks of a column.
#[derive(Debug)]
pub struct ChunkGeneratorCore {
    pub dimension_seed: i32,
    pub registry: BiomeRegistry,
    pub sampler: NoiseSampler,
    pub baked_heights: HashMap<u64, Vec<i64>>,
}

impl ChunkGeneratorCore {
    /// The cached height column of chunk column `cx` matches its
    /// specification, and the sampler data it was derived from is
    /// present.
    pub open spec fn heights_entry_ok(self, cx: i32) -> bool {
        &&& self.sampler.cache_2d@.dom().contains(chunk_key_spec(cx, 0))
        &&& self.sampler.cache_1d@.dom().contains(column_key_spec(cx))
        &&& self.baked_heights@[column_key_spec(cx)]@.len() == CHUNK_SIZE
        &&& forall|x: int|
            0 <= x < CHUNK_SIZE ==> (#[trigger] self.baked_heights@[column_key_spec(cx)]@[x])
                == column_heights_spec(self.registry, self.sampler, cx)[x]
    }

    /// The registry and the sampler are well formed, agree on the seed,
    /// and every cached height column matches its specification.
    pub open spec fn wf(self) -> bool {
        &&& self.registry.wf()
        &&& self.sampler.wf()
        &&& self.sampler.world_seed == self.dimension_seed
        &&& forall|cx: i32|
            #[trigger] self.baked_heights@.dom().contains(column_key_spec(cx))
                ==> self.heights_entry_ok(cx)
    }

    /// Creates the generator core of one dimension: materialises the
    /// biome registry from the schemas, seeds an empty sampler, and
    /// starts with no baked heights.
    pub fn new(
        dimension_seed: i32,
        biome_schemas: &Vec<crate::schema::BiomeSchema>,
        dimension_schema: &crate::schema::DimensionSchema,
    ) -> (r: ChunkGeneratorCore)
        requires
            biome_schemas@.len() >= 1,
            forall|i: int|
                0 <= i < biome_schemas@.len() ==> (
                #[trigger] biome_schemas@[i]).biome_config.valid(),
        ensures
            r.wf(),
            r.dimension_seed == dimension_seed,
            r.registry.biomes@.len() == biome_schemas@.len(),
            r.sampler.cache_2d@ == Map::<u64, crate::sampler::TempHumMaps>::empty(),
            r.sampler.cache_1d@ == Map::<u64, crate::sampler::NoiseColumns>::empty(),
            r.baked_heights@ == Map::<u64, Vec<i64>>::empty(),
            forall|i: int|
                0 <= i < biome_schemas@.len() ==> {
                    &&& (#[trigger] r.registry.biomes@[i]).biome_config
                        == biome_schemas@[i].biome_config
                    &&& r.registry.biomes@[i].noise_schema@ == crate::biome::noise_layer_seq_spec(
                        biome_schemas@[i].noise_functions,
                    )
                },
    {
        let registry = BiomeRegistry::new(biome_schemas);
        let sampler = NoiseSampler::new(dimension_seed, dimension_schema);
        ChunkGeneratorCore {
            dimension_seed,
            registry,
            sampler,
            baked_heights: HashMap::new(),
        }
    }

    /// Bakes (or finds cached) the height column of chunk column
    /// `chunk_x` from the sampler's surface maps and noise columns.
    pub fn ensure_heights(&mut self, chunk_x: i32)
        requires
            old(self).wf(),
            old(self).sampler.cache_2d@.dom().contains(chunk_key_spec(chunk_x, 0)),
            old(self).sampler.cache_1d@.dom().contains(column_key_spec(chunk_x)),
        ensures
            final(self).wf(),
            final(self).dimension_seed == old(self).dimension_seed,
            final(self).registry == old(self).registry,
            final(self).sampler == old(self).sampler,
            final(self).baked_heights@.dom().contains(column_key_spec(chunk_x)),
            final(self).heights_entry_ok(chunk_x),
            forall|k: u64|
                old(self).baked_heights@.dom().contains(k) ==> final(self).baked_heights@.dom().contains(k) && final(self).baked_heights@[k] == old(self).baked_heights@[k],
            forall|k: u64|
                final(self).baked_heights@.dom().contains(k) ==> old(self).baked_heights@.dom().contains(k) || k == column_key_spec(chunk_x),
    {
        let ck = column_key(chunk_x);
        if self.baked_heights.contains_key(&ck) {
            return ;
        }
        let t0 = self.sampler.get_noise_layer_2d(chunk_x, 0, TEMPERATURE_INDEX);
        let h0 = self.sampler.get_noise_layer_2d(chunk_x, 0, HUMIDITY_INDEX);
        let mut columns: Vec<NoiseLayer1D> = Vec::new();
        let mut j: usize = 0;
        while j < NUM_1D_NOISE_LAYERS
            invariant
                self == old(self),
                old(self).wf(),
                old(self).sampler.cache_1d@.dom().contains(column_key_spec(chunk_x)),
                j <= NUM_1D_NOISE_LAYERS,
                columns@.len() == j,
                forall|t: int|
                    0 <= t < j ==> (#[trigger] columns@[t]).layer@ == cols_view(
                        old(self).sampler,
                        chunk_x,
                    )[t] && columns@[t].wf(),
            decreases NUM_1D_NOISE_LAYERS - j,
        {
            columns.push(self.sampler.get_noise_layer_1d(chunk_x, j));
            j = j + 1;
        }
        let heights = get_terrain_heights(&self.registry, &t0, &h0, &columns);
        proof {
            assert(Seq::new(NUM_1D_NOISE_LAYERS as nat, |t: int| columns@[t].layer@) =~= cols_view(
                old(self).sampler,
                chunk_x,
            ));
            assert forall|x: int| 0 <= x < CHUNK_SIZE implies heights@[x] == column_heights_spec(
                old(self).registry,
                old(self).sampler,
                chunk_x,
            )[x] by {
            }
        }
        self.baked_heights.insert(ck, heights);
        proof {
            assert forall|cx2: i32|
                self.baked_heights@.dom().contains(column_key_spec(cx2)) implies self
                .heights_entry_ok(cx2) by {
                if column_key_spec(cx2) == column_key_spec(chunk_x) {
                    lemma_column_key_injective(cx2, chunk_x);
                } else {
                    assert(old(self).baked_heights@.dom().contains(column_key_spec(cx2)));
                    assert(old(self).heights_entry_ok(cx2));
                }
            }
        }
    }

    /// Generates the chunk at `chunk_pos` from the cached noise data:
    /// per block, a seeded draw picks the primary or the secondary biome
    /// of the block's temperature/humidity cell, and the material rules
    /// decide what the foreground holds.  The middleground and the
    /// background are left as air.
    pub fn generate_chunk(&mut self, chunk_pos: ChunkPos) -> (r: Chunk)
        requires
            old(self).wf(),
            old(self).sampler.cache_2d@.dom().contains(chunk_key_spec(chunk_pos.x, chunk_pos.y)),
            old(self).sampler.cache_2d@.dom().contains(chunk_key_spec(chunk_pos.x, 0)),
            old(self).sampler.cache_1d@.dom().contains(column_key_spec(chunk_pos.x)),
        ensures
            final(self).wf(),
            final(self).dimension_seed == old(self).dimension_seed,
            final(self).registry == old(self).registry,
            final(self).sampler == old(self).sampler,
            is_generated_chunk(
                r,
                old(self).registry.biomes@,
                old(self).registry.biome_map.map@,
                old(self).sampler.cache_2d@[chunk_key_spec(
                    chunk_pos.x,
                    chunk_pos.y,
                )].temperature.layer@,
                old(self).sampler.cache_2d@[chunk_key_spec(chunk_pos.x, chunk_pos.y)].humidity.layer@,
                column_heights_spec(old(self).registry, old(self).sampler, chunk_pos.x),
                chunk_seed_spec(old(self).dimension_seed, chunk_pos.x, chunk_pos.y),
                chunk_pos.y as int,
            ),
    {
        self.ensure_heights(chunk_pos.x);
        let ck = column_key(chunk_pos.x);
        let heights: Vec<i64> = match self.baked_heights.get(&ck) {
            Some(v) => duplicate_i64_vec(v),
            None => vstd::pervasive::unreached(),
        };
        let ghost heightsv: Seq<int> = column_heights_spec(
            old(self).registry,
            old(self).sampler,
            chunk_pos.x,
        );
        proof {
            assert forall|x: int| 0 <= x < CHUNK_SIZE implies -HEIGHT_CAP_MILLI <= (
            #[trigger] heightsv[x]) <= HEIGHT_CAP_MILLI by {
                crate::heights::lemma_baked_height_bounded(
                    old(self).registry.biomes@,
                    old(self).registry.biome_map.map@,
                    old(self).sampler.cache_2d@[chunk_key_spec(chunk_pos.x, 0)].temperature.layer@,
                    old(self).sampler.cache_2d@[chunk_key_spec(chunk_pos.x, 0)].humidity.layer@,
                    cols_view(old(self).sampler, chunk_pos.x),
                    x,
                );
            }
        }
        let temp = self.sampler.get_noise_layer_2d(chunk_pos.x, chunk_pos.y, TEMPERATURE_INDEX);
        let hum = self.sampler.get_noise_layer_2d(chunk_pos.x, chunk_pos.y, HUMIDITY_INDEX);
        let seed = get_chunk_seed(self.dimension_seed, chunk_pos.x, chunk_pos.y);
        let mut rng = SeededRng::with_seed(seed);
        let mut foreground = BlockArray::filled_basic_air();
        let mut count: u64 = 0;
        let ghost biomes = self.registry.biomes@;
        let ghost mapv = self.registry.biome_map.map@;
        let ghost tempv = temp.layer@;
        let ghost humv = hum.layer@;
        let ghost cy: int = chunk_pos.y as int;
        let mut i: usize = 0;
        while i < CHUNK_BLOCK_COUNT
            invariant
                self.wf(),
                self.registry == old(self).registry,
                biomes == self.registry.biomes@,
                mapv == self.registry.biome_map.map@,
                tempv.len() == CHUNK_BLOCK_COUNT,
                humv.len() == CHUNK_BLOCK_COUNT,
                temp.layer@ == tempv,
                hum.layer@ == humv,
                heights@.len() == CHUNK_SIZE,
                heightsv.len() == CHUNK_SIZE,
                forall|x: int| 0 <= x < CHUNK_SIZE ==> (#[trigger] heights@[x]) == heightsv[x],
                forall|x: int|
                    0 <= x < CHUNK_SIZE ==> -HEIGHT_CAP_MILLI <= (#[trigger] heightsv[x])
                        <= HEIGHT_CAP_MILLI,
                cy == chunk_pos.y as int,
                i <= CHUNK_BLOCK_COUNT,
                rng.state_spec() == pick_draw_state(seed, i as nat),
                foreground.wf(),
                forall|j: int|
                    0 <= j < i ==> (#[trigger] foreground.block_type@[j]) == (
                    match generated_block_spec(biomes, mapv, tempv, humv, heightsv, seed, cy, j) {
                        Some(_) => BlockType::Tile,
                        None => BlockType::Air,
                    }),
                forall|j: int|
                    0 <= j < i ==> (#[trigger] foreground.block_id@[j]) == (
                    match generated_block_spec(biomes, mapv, tempv, humv, heightsv, seed, cy, j) {
                        Some(id) => id,
                        None => 0u32,
                    }),
                forall|j: int|
                    i <= j < CHUNK_BLOCK_COUNT ==> (#[trigger] foreground.block_type@[j])
                        == BlockType::Air,
                forall|j: int|
                    i <= j < CHUNK_BLOCK_COUNT ==> (#[trigger] foreground.block_id@[j]) == 0u32,
                forall|j: int|
                    0 <= j < CHUNK_BLOCK_COUNT ==> (#[trigger] foreground.texture_index@[j]) == 0u8,
                count == tile_count_upto(biomes, mapv, tempv, humv, heightsv, seed, cy, i as nat),
                count <= i,
            decreases CHUNK_BLOCK_COUNT - i,
        {
            let lx = i % CHUNK_SIZE;
            let t = temp.read_index(i);
            let h = hum.read_index(i);
            let blend = self.registry.biome_map.get_blend_percent(t, h);
            let primary = self.registry.biome_map.get_best_biome(t, h);
            let secondary = self.registry.biome_map.get_second_best_biome(t, h);
            let draw = rng.next_u8_range(0, 100);
            proof {
                assert(pick_draw_state(seed, (i + 1) as nat) == wyrand_u8(
                    pick_draw_state(seed, i as nat),
                    0,
                    99,
                ).1);
            }
            let pick = if draw < blend {
                primary
            } else {
                secondary
            };
            proof {
                assert(clamp_cell_spec(h) * BIOME_MAP_GRID_SIZE + clamp_cell_spec(t)
                    < BIOME_MAP_GRID_SIZE * BIOME_MAP_GRID_SIZE);
                assert(pick == picked_biome_spec(mapv, tempv, humv, seed, i as int));
                assert(pick < biomes.len());
            }
            let b = self.registry.biome(pick).biome_config;
            let world_y: i64 = (chunk_pos.y as i64) * (CHUNK_SIZE as i64) + (i / CHUNK_SIZE) as i64;
            let mat = material_for(heights[lx], world_y, &b);
            proof {
                assert(mat == generated_block_spec(
                    biomes,
                    mapv,
                    tempv,
                    humv,
                    heightsv,
                    seed,
                    cy,
                    i as int,
                ));
                assert(tile_count_upto(biomes, mapv, tempv, humv, heightsv, seed, cy, (i + 1) as nat)
                    == tile_count_upto(biomes, mapv, tempv, humv, heightsv, seed, cy, i as nat) + if
                    generated_block_spec(biomes, mapv, tempv, humv, heightsv, seed, cy, i as int)
                    is Some {
                    1int
                } else {
                    0int
                });
            }
            match mat {
                Some(id) => {
                    foreground.set_block_id_byindex(i, id);
                    foreground.set_block_type_byindex(i, BlockType::Tile);
                    count = count + 1;
                },
                None => {},
            }
            i = i + 1;
        }
        let middleground = BlockArray::filled_basic_air();
        let background = BlockArray::filled_basic_air();
        Chunk { foreground, middleground, background, total_block_count: count }
    }
}

} // verus!
