//! Deterministic seed derivation: the splitmix64 mixer and the per-chunk
//! seed that drives sample-point scattering and per-block biome picks.

use vstd::prelude::*;

verus! {

/// Mathematical definition of the splitmix64 finalizer.
pub open spec fn splitmix64_spec(x: u64) -> u64 {
    let s = x.wrapping_add(0x9E3779B97F4A7C15);
    let z1 = (s ^ (s >> 30)).wrapping_mul(0xBF58476D1CE4E5B9);
    let z2 = (z1 ^ (z1 >> 27)).wrapping_mul(0x94D049BB133111EB);
    z2 ^ (z2 >> 31)
}

/// splitmix64: scrambles a 64-bit value with the well-known odd constants.
pub fn splitmix64(x: u64) -> (r: u64)
    ensures
        r == splitmix64_spec(x),
{
    let s = x.wrapping_add(0x9E3779B97F4A7C15);
    let z1 = (s ^ (s >> 30)).wrapping_mul(0xBF58476D1CE4E5B9);
    let z2 = (z1 ^ (z1 >> 27)).wrapping_mul(0x94D049BB133111EB);
    z2 ^ (z2 >> 31)
}

/// Mathematical definition of the seed of the chunk at `(chunk_x, chunk_y)`
/// in the world seeded by `world_seed`.
pub open spec fn chunk_seed_spec(world_seed: i32, chunk_x: i32, chunk_y: i32) -> u64 {
    let s = (world_seed as u32) as u64;
    let xx = (chunk_x as u32) as u64;
    let yy = (chunk_y as u32) as u64;
    let key = s.wrapping_mul(0xC2B2AE3D27D4EB4F) ^ xx.wrapping_mul(0x165667B19E3779F9)
        ^ yy.wrapping_mul(0x9E3779B97F4A7C15);
    splitmix64_spec(key)
}

/// Derives the 64-bit seed of one chunk by mixing the world seed with the
/// chunk coordinates and finalizing with splitmix64.
pub fn get_chunk_seed(world_seed: i32, chunk_x: i32, chunk_y: i32) -> (r: u64)
    ensures
        r == chunk_seed_spec(world_seed, chunk_x, chunk_y),
{
    let s = (world_seed as u32) as u64;
    let xx = (chunk_x as u32) as u64;
    let yy = (chunk_y as u32) as u64;
    let key = s.wrapping_mul(0xC2B2AE3D27D4EB4F) ^ xx.wrapping_mul(0x165667B19E3779F9)
        ^ yy.wrapping_mul(0x9E3779B97F4A7C15);
    splitmix64(key)
}

} // verus!
