//! Schema records read once at dimension creation: the dimension's own
//! parameters and the per-biome configuration.
//!
//! Noise amplitudes and weights are carried as fixed-point integers in
//! thousandths (see [`crate::constants::MILLI`]).

use vstd::prelude::*;

verus! {

/// Climate class of a biome; decides ice and water placement.
#[derive(Clone, Copy, PartialEq, Eq, Structural, Debug)]
pub enum BiomeTypes {
    Hot,
    Warm,
    Neutral,
    Cold,
    Freezing,
}

/// How one 1D noise layer folds into the running terrain height.
#[derive(Clone, Copy, PartialEq, Eq, Structural, Debug)]
pub enum BlendingMode {
    Mix,
    MixPositive,
    MixNegative,
    Add,
    Subtract,
    Multiply,
}

/// Configuration of one 1D noise layer of a biome.
#[derive(Clone, Copy, PartialEq, Eq, Structural, Debug)]
pub struct NoiseConfig {
    /// Scale applied to the raw noise sample, in thousandths.
    pub amplitude_milli: i64,
    /// Reserved relative weight, in thousandths.
    pub weight_milli: i64,
    pub blending_mode: BlendingMode,
}

/// The six 1D noise layers of a biome, in fixed index order.
#[derive(Clone, Copy, PartialEq, Eq, Structural, Debug)]
pub struct NoiseFunctions {
    pub continental: NoiseConfig,
    pub mountainous: NoiseConfig,
    pub hilly: NoiseConfig,
    pub texture: NoiseConfig,
    pub cellular: NoiseConfig,
    pub gridlike: NoiseConfig,
}

/// Material and climate configuration of a biome.
#[derive(Clone, Copy, PartialEq, Eq, Structural, Debug)]
pub struct BiomeConfig {
    pub temperature: u8,
    pub humidity: u8,
    pub biome_type: BiomeTypes,
    pub surface_block: u32,
    pub subsurface_block: u32,
    pub base_block: u32,
}

impl BiomeConfig {
    /// The biome's home cell lies on the lookup plane.
    pub open spec fn valid(self) -> bool {
        self.temperature < 100 && self.humidity < 100
    }
}

/// One biome as read from its schema file.
#[derive(Clone, Copy, PartialEq, Eq, Structural, Debug)]
pub struct BiomeSchema {
    pub biome_config: BiomeConfig,
    pub noise_functions: NoiseFunctions,
}

/// Additive temperature bias applied near the world's edges and heights.
#[derive(Clone, Copy, PartialEq, Eq, Structural, Debug)]
pub struct BiomeMapAdjustments {
    pub horizontal_temperature_variation: u8,
    pub vertical_temperature_variation: u8,
}

/// Parameters of a dimension: its name, its world size in chunks, and the
/// optional temperature bias.
#[derive(Clone, Debug)]
pub struct DimensionSchema {
    pub name: String,
    pub size_x: u32,
    pub size_y: u32,
    pub biome_map_adjustments: Option<BiomeMapAdjustments>,
}

} // verus!
