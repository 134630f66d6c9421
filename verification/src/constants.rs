//! Normative constants of the world core.

use vstd::prelude::*;

verus! {

/// Side length of a square chunk, in blocks.
pub const CHUNK_SIZE: usize = 32;

/// Number of blocks in one layer of a chunk.
pub const CHUNK_BLOCK_COUNT: usize = CHUNK_SIZE * CHUNK_SIZE;

/// Number of scattered sample points drawn per 2D noise layer of a chunk.
pub const BIOME_SAMPLE_POINT_AMOUNT: usize = CHUNK_SIZE / 8;

/// Side length of the temperature/humidity lookup plane.
pub const BIOME_MAP_GRID_SIZE: usize = 100;

pub const CONTINENTAL_NINDEX: usize = 0;

pub const MOUNTAINOUS_NINDEX: usize = 1;

pub const HILLY_NINDEX: usize = 2;

pub const TEXTURE_NINDEX: usize = 3;

pub const CELLULAR_NINDEX: usize = 4;

pub const GRIDLIKE_NINDEX: usize = 5;

/// Number of 1D terrain noise layers per biome.
pub const NUM_1D_NOISE_LAYERS: usize = 6;

pub const TEMPERATURE_INDEX: usize = 0;

pub const HUMIDITY_INDEX: usize = 1;

/// Number of 2D noise layers (temperature and humidity).
pub const NUM_2D_NOISE_LAYERS: usize = 2;

/// Server tick rate, in ticks per second.
pub const TICK_RATE: u64 = 60;

/// Batches at least this large are generated with data parallelism.
pub const PARALLEL_CHUNKGEN_THRESHOLD: usize = 4;

/// Fixed-point scale: noise samples, amplitudes and terrain heights are
/// carried as integers counting thousandths of a block.
pub const MILLI: i64 = 1000;

/// Squared-distance threshold below which a grid cell is considered inside
/// a biome's core region, so no blending with the runner-up takes place.
pub const BIOME_TRANSITION_THRESHOLD: u64 = 100;

/// Terrain heights are saturated into [-HEIGHT_CAP_MILLI, HEIGHT_CAP_MILLI]
/// while blending, so that degenerate noise configurations cannot overflow.
pub const HEIGHT_CAP_MILLI: i64 = 0x8_0000_0000_0000;

/// Block id written for water.
pub const WATER_BLOCK_ID: u32 = 3;

/// Block id written for ice.
pub const ICE_BLOCK_ID: u32 = 6;

/// Packets whose raw encoding is longer than this are LZ4-compressed.
pub const COMPRESSION_THRESHOLD: usize = 100;

} // verus!
