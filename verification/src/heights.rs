//! Terrain-height baking: folding the six 1D noise layers of a biome into
//! one height per world column, in fixed-point thousandths of a block.
//!
//! All arithmetic saturates into a fixed cap so that degenerate noise
//! configurations stay finite; a block whose height would have escaped the
//! cap simply sees the capped height.

use vstd::prelude::*;

use crate::biome::Biome;
use crate::biome::BiomeMapEntry;
use crate::biome::BiomeRegistry;
use crate::biome::clamp_cell_spec;
use crate::constants::BIOME_MAP_GRID_SIZE;
use crate::constants::CHUNK_SIZE;
use crate::constants::HEIGHT_CAP_MILLI;
use crate::constants::NUM_1D_NOISE_LAYERS;
use crate::noise::NoiseLayer1D;
use crate::noise::NoiseLayer2D;
use crate::schema::BlendingMode;
use crate::schema::NoiseConfig;

verus! {

/// A value saturated into the height cap.
pub open spec fn saturate_spec(v: int) -> int {
    if v > HEIGHT_CAP_MILLI {
        HEIGHT_CAP_MILLI as int
    } else if v < -HEIGHT_CAP_MILLI {
        -HEIGHT_CAP_MILLI as int
    } else {
        v
    }
}

/// Division by 1000 rounding towards zero.
pub open spec fn div1000_toward_zero_spec(v: int) -> int {
    if v >= 0 {
        v / 1000
    } else {
        -((-v) / 1000)
    }
}

/// A raw noise sample scaled by a layer's amplitude: the fixed-point
/// product, saturated into the height cap.
pub open spec fn scaled_sample_spec(sample: int, amplitude: int) -> int {
    saturate_spec(div1000_toward_zero_spec(sample * amplitude))
}

/// One blending step: folds the scaled sample `g` into the running height
/// `h` according to the layer's mode, saturating the result.
pub open spec fn apply_blending_spec(h: int, g: int, mode: BlendingMode) -> int {
    saturate_spec(
        match mode {
            BlendingMode::Mix => h + g,
            BlendingMode::MixPositive => h + if g > 0 {
                g
            } else {
                0
            },
            BlendingMode::MixNegative => h + if g < 0 {
                g
            } else {
                0
            },
            BlendingMode::Add => h + if g >= 0 {
                g
            } else {
                -g
            },
            BlendingMode::Subtract => h - if g >= 0 {
                g
            } else {
                -g
            },
            BlendingMode::Multiply => div1000_toward_zero_spec(h * g),
        },
    )
}

/// The height after folding the first `k` noise layers of a biome over
/// the per-layer samples of one column.
pub open spec fn height_fold_spec(noise: Seq<NoiseConfig>, samples: Seq<i64>, k: nat) -> int
    decreases k,
{
    if k == 0 {
        0
    } else {
        apply_blending_spec(
            height_fold_spec(noise, samples, (k - 1) as nat),
            scaled_sample_spec(samples[k - 1] as int, noise[k - 1].amplitude_milli as int),
            noise[k - 1].blending_mode,
        )
    }
}

/// The baked height of local column `x`: the biome is the primary biome
/// at the column's world-surface temperature and humidity (the maps of
/// the chunk at world height zero), and its six noise layers are folded
/// over the column's samples.
pub open spec fn baked_height_spec(
    biomes: Seq<Biome>,
    mapv: Seq<BiomeMapEntry>,
    temp_y0: Seq<u8>,
    hum_y0: Seq<u8>,
    cols: Seq<Seq<i64>>,
    x: int,
) -> int {
    let cell = mapv[clamp_cell_spec(hum_y0[x]) * BIOME_MAP_GRID_SIZE + clamp_cell_spec(
        temp_y0[x],
    )];
    let biome = biomes[cell.primary as int];
    height_fold_spec(
        biome.noise_schema@,
        Seq::new(NUM_1D_NOISE_LAYERS as nat, |j: int| cols[j][x]),
        NUM_1D_NOISE_LAYERS as nat,
    )
}

/// A baked height always lies inside the height cap.
pub proof fn lemma_baked_height_bounded(
    biomes: Seq<Biome>,
    mapv: Seq<BiomeMapEntry>,
    temp_y0: Seq<u8>,
    hum_y0: Seq<u8>,
    cols: Seq<Seq<i64>>,
    x: int,
)
    ensures
        -HEIGHT_CAP_MILLI <= baked_height_spec(biomes, mapv, temp_y0, hum_y0, cols, x)
            <= HEIGHT_CAP_MILLI,
{
    let cell = mapv[clamp_cell_spec(hum_y0[x]) * BIOME_MAP_GRID_SIZE + clamp_cell_spec(
        temp_y0[x],
    )];
    let biome = biomes[cell.primary as int];
    let samples = Seq::new(NUM_1D_NOISE_LAYERS as nat, |j: int| cols[j][x]);
    assert(height_fold_spec(biome.noise_schema@, samples, NUM_1D_NOISE_LAYERS as nat)
        == apply_blending_spec(
        height_fold_spec(biome.noise_schema@, samples, (NUM_1D_NOISE_LAYERS - 1) as nat),
        scaled_sample_spec(
            samples[NUM_1D_NOISE_LAYERS - 1] as int,
            biome.noise_schema@[NUM_1D_NOISE_LAYERS - 1].amplitude_milli as int,
        ),
        biome.noise_schema@[NUM_1D_NOISE_LAYERS - 1].blending_mode,
    ));
}

/// Saturates a wide intermediate into the height cap.
fn saturate(v: i128) -> (r: i64)
    ensures
        r == saturate_spec(v as int),
        -HEIGHT_CAP_MILLI <= r <= HEIGHT_CAP_MILLI,
{
    if v > HEIGHT_CAP_MILLI as i128 {
        HEIGHT_CAP_MILLI
    } else if v < -(HEIGHT_CAP_MILLI as i128) {
        -HEIGHT_CAP_MILLI
    } else {
        v as i64
    }
}

/// Divides a wide intermediate by 1000, rounding towards zero.
fn div1000_toward_zero(v: i128) -> (r: i128)
    requires
        -0x4000_0000_0000_0000_0000_0000_0000_0000 <= v
            <= 0x4000_0000_0000_0000_0000_0000_0000_0000,
    ensures
        r == div1000_toward_zero_spec(v as int),
{
    if v >= 0 {
        let q = (v as u128) / 1000;
        q as i128
    } else {
        let q = ((-v) as u128) / 1000;
        -(q as i128)
    }
}

/// One blending step over fixed-point heights.
pub fn apply_blending(height: i64, generated_height: i64, blending_mode: &BlendingMode) -> (r: i64)
    requires
        -HEIGHT_CAP_MILLI <= height <= HEIGHT_CAP_MILLI,
        -HEIGHT_CAP_MILLI <= generated_height <= HEIGHT_CAP_MILLI,
    ensures
        r == apply_blending_spec(height as int, generated_height as int, *blending_mode),
        -HEIGHT_CAP_MILLI <= r <= HEIGHT_CAP_MILLI,
{
    let h = height as i128;
    let g = generated_height as i128;
    match blending_mode {
        BlendingMode::Mix => saturate(h + g),
        BlendingMode::MixPositive => saturate(
            h + if g > 0 {
                g
            } else {
                0
            },
        ),
        BlendingMode::MixNegative => saturate(
            h + if g < 0 {
                g
            } else {
                0
            },
        ),
        BlendingMode::Add => saturate(
            h + if g >= 0 {
                g
            } else {
                -g
            },
        ),
        BlendingMode::Subtract => saturate(
            h - if g >= 0 {
                g
            } else {
                -g
            },
        ),
        BlendingMode::Multiply => {
            proof {
                assert(-0x4000_0000_0000_0000_0000_0000_0000_0000 <= h * g
                    <= 0x4000_0000_0000_0000_0000_0000_0000_0000) by (nonlinear_arith)
                    requires
                        -0x8_0000_0000_0000 <= h as int <= 0x8_0000_0000_0000,
                        -0x8_0000_0000_0000 <= g as int <= 0x8_0000_0000_0000,
                ;
            }
            saturate(div1000_toward_zero(h * g))
        },
    }
}

/// A raw noise sample scaled by a layer's amplitude.
fn scale_sample(sample: i64, amplitude: i64) -> (r: i64)
    ensures
        r == scaled_sample_spec(sample as int, amplitude as int),
        -HEIGHT_CAP_MILLI <= r <= HEIGHT_CAP_MILLI,
{
    proof {
        assert(-0x4000_0000_0000_0000_0000_0000_0000_0000 <= (sample as int) * (amplitude as int)
            <= 0x4000_0000_0000_0000_0000_0000_0000_0000) by (nonlinear_arith)
            requires
                -0x8000_0000_0000_0000 <= sample as int <= 0x7FFF_FFFF_FFFF_FFFF,
                -0x8000_0000_0000_0000 <= amplitude as int <= 0x7FFF_FFFF_FFFF_FFFF,
        ;
    }
    let p: i128 = (sample as i128) * (amplitude as i128);
    saturate(div1000_toward_zero(p))
}

/// Bakes the per-column terrain heights of one chunk column from the
/// world-surface temperature and humidity maps and the six cached 1D
/// noise columns.
pub fn get_terrain_heights(
    registry: &BiomeRegistry,
    temp_y0: &NoiseLayer2D,
    hum_y0: &NoiseLayer2D,
    columns: &Vec<NoiseLayer1D>,
) -> (r: Vec<i64>)
    requires
        registry.wf(),
        temp_y0.wf(),
        hum_y0.wf(),
        columns@.len() == NUM_1D_NOISE_LAYERS,
        forall|j: int| 0 <= j < NUM_1D_NOISE_LAYERS ==> (#[trigger] columns@[j]).wf(),
    ensures
        r@.len() == CHUNK_SIZE,
        forall|x: int|
            0 <= x < CHUNK_SIZE ==> (#[trigger] r@[x]) == baked_height_spec(
                registry.biomes@,
                registry.biome_map.map@,
                temp_y0.layer@,
                hum_y0.layer@,
                Seq::new(NUM_1D_NOISE_LAYERS as nat, |j: int| columns@[j].layer@),
                x,
            ),
        forall|x: int|
            0 <= x < CHUNK_SIZE ==> -HEIGHT_CAP_MILLI <= (#[trigger] r@[x]) <= HEIGHT_CAP_MILLI,
{
    let ghost colsv: Seq<Seq<i64>> = Seq::new(
        NUM_1D_NOISE_LAYERS as nat,
        |j: int| columns@[j].layer@,
    );
    let mut heights: Vec<i64> = Vec::new();
    let mut x: usize = 0;
    while x < CHUNK_SIZE
        invariant
            registry.wf(),
            temp_y0.wf(),
            hum_y0.wf(),
            columns@.len() == NUM_1D_NOISE_LAYERS,
            forall|j: int| 0 <= j < NUM_1D_NOISE_LAYERS ==> (#[trigger] columns@[j]).wf(),
            colsv == Seq::new(NUM_1D_NOISE_LAYERS as nat, |j: int| columns@[j].layer@),
            x <= CHUNK_SIZE,
            heights@.len() == x,
            forall|t: int|
                0 <= t < x ==> (#[trigger] heights@[t]) == baked_height_spec(
                    registry.biomes@,
                    registry.biome_map.map@,
                    temp_y0.layer@,
                    hum_y0.layer@,
                    colsv,
                    t,
                ),
            forall|t: int|
                0 <= t < x ==> -HEIGHT_CAP_MILLI <= (#[trigger] heights@[t]) <= HEIGHT_CAP_MILLI,
        decreases CHUNK_SIZE - x,
    {
        let pos = crate::block::ChunkRelativePos { x: x as u8, y: 0 };
        let temperature = temp_y0.read(pos);
        let humidity = hum_y0.read(pos);
        let biome_index = registry.biome_map.get_best_biome(temperature, humidity);
        proof {
            crate::biome::lemma_biome_map_closure(
                *registry,
                clamp_cell_spec(temperature),
                clamp_cell_spec(humidity),
            );
        }
        let biome = registry.biome(biome_index);
        let ghost samples: Seq<i64> = Seq::new(NUM_1D_NOISE_LAYERS as nat, |j: int| colsv[j][x as int]);

        let mut height: i64 = 0;
        let mut j: usize = 0;
        while j < NUM_1D_NOISE_LAYERS
            invariant
                biome.wf(),
                columns@.len() == NUM_1D_NOISE_LAYERS,
                forall|t: int| 0 <= t < NUM_1D_NOISE_LAYERS ==> (#[trigger] columns@[t]).wf(),
                colsv == Seq::new(NUM_1D_NOISE_LAYERS as nat, |t: int| columns@[t].layer@),
                x < CHUNK_SIZE,
                samples == Seq::new(NUM_1D_NOISE_LAYERS as nat, |t: int| colsv[t][x as int]),
                j <= NUM_1D_NOISE_LAYERS,
                height == height_fold_spec(biome.noise_schema@, samples, j as nat),
                -HEIGHT_CAP_MILLI <= height <= HEIGHT_CAP_MILLI,
            decreases NUM_1D_NOISE_LAYERS - j,
        {
            let config = biome.noise_schema[j];
            let raw = columns[j].read(x);
            let generated_height = scale_sample(raw, config.amplitude_milli);
            height = apply_blending(height, generated_height, &config.blending_mode);
            j = j + 1;
        }
        heights.push(height);
        x = x + 1;
    }
    heights
}

} // verus!
