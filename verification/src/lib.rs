//! Server-side world-generation and chunk-streaming core of a 2D tile-based
//! sandbox world.
//!
//! The library produces, deterministically from a 32-bit seed, fixed-size
//! chunks of three stacked tile layers.  Generation combines layered noise
//! (sampled by the surrounding application and handed in as plain fixed-point
//! values), a biome classification over a temperature/humidity plane,
//! distance-weighted spatial blending, and per-coordinate caches.  A
//! dimension tracks resident chunks, enqueues missing ones inside a streaming
//! window, and ingests completed ones; packets to the consumer are framed by
//! a little-endian canonical byte encoding with optional LZ4 compression.

pub mod biome;
pub mod block;
pub mod chunk;
pub mod codec;
pub mod constants;
pub mod dimension;
pub mod entity;
pub mod gen;
pub mod heights;
pub mod noise;
pub mod packets;
pub mod rng;
pub mod sampler;
pub mod schema;
pub mod seed;
pub mod server;
