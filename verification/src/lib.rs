//! Chunk-streamed procedural terrain, in fixed-point arithmetic.
//!
//! The crate synthesizes an infinite-seeming landscape around a moving
//! viewpoint: a deterministic height field is sampled over a square grid of
//! chunks, each chunk is triangulated into a mesh with smoothed normals and a
//! height-classified material, and a streaming pass keeps exactly the chunks
//! within a Chebyshev window of the viewpoint loaded.
//!
//! All world quantities (coordinates, elevations, texture coordinates,
//! colors) are carried as `i64` milli-units: one world unit is 1000. This
//! keeps every computation in integer arithmetic, where each step of the
//! pipeline is verified exactly.

pub mod builder;
pub mod chunk;
pub mod config;
pub mod fixed;
pub mod heightfield;
pub mod material;
pub mod mesh;
pub mod registry;
pub mod streaming;
