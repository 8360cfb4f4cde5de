//! Terrain configuration, fixed once per session.
//!
//! World lengths are milli-units (one world unit is 1000), so the default
//! chunk edge of 32 world units is `32_000`. `noise_scale_milli` is the
//! sampling frequency of the height field, also scaled by 1000, and
//! `height_scale_milli` is the elevation amplitude in milli-units.

use vstd::prelude::*;

verus! {

/// Grid subdivisions per chunk edge used by the streaming passes.
pub const DEFAULT_RESOLUTION: u32 = 32;

/// Immutable per-session terrain parameters.
pub struct TerrainConfig {
    /// World units per chunk edge, in milli-units; must be positive.
    pub chunk_size_milli: i64,
    /// Chebyshev radius of the loaded-chunk window, in chunks.
    pub render_distance: i32,
    /// Elevation amplitude, in milli-units per unit of noise.
    pub height_scale_milli: i64,
    /// Frequency divisor applied to world coordinates before sampling,
    /// scaled by 1000.
    pub noise_scale_milli: i64,
    /// Grid subdivisions per chunk edge; `resolution * resolution` cells.
    pub resolution: u32,
}

impl TerrainConfig {
    /// Configuration well-formedness: the invariants of the data model plus
    /// the ranges the fixed-point arithmetic is sized for.
    ///
    /// A degenerate configuration (zero chunk size, zero resolution,
    /// negative render distance) is a startup error, not a runtime case:
    /// every terrain operation requires `wf()`.
    pub open spec fn wf(&self) -> bool {
        &&& 0 < self.chunk_size_milli <= 1_000_000
        &&& 0 <= self.render_distance <= 64
        &&& 0 < self.height_scale_milli <= 1_000_000
        &&& 0 <= self.noise_scale_milli <= 1000
        &&& 0 < self.resolution <= 255
        &&& self.resolution <= self.chunk_size_milli
    }

    /// Runtime check of [`TerrainConfig::wf`], for hosts that take the
    /// configuration from outside and must reject a degenerate one before
    /// the terrain system starts.
    pub fn validate(&self) -> (ok: bool)
        ensures
            ok == self.wf(),
    {
        self.chunk_size_milli > 0 && self.chunk_size_milli <= 1_000_000
            && self.render_distance >= 0 && self.render_distance <= 64
            && self.height_scale_milli > 0 && self.height_scale_milli <= 1_000_000
            && self.noise_scale_milli >= 0 && self.noise_scale_milli <= 1000
            && self.resolution > 0 && self.resolution <= 255
            && self.resolution as i64 <= self.chunk_size_milli
    }
}

impl Default for TerrainConfig {
    /// The session defaults: 32-unit chunks, window radius 3, amplitude 5
    /// units, noise frequency 0.1.
    fn default() -> (c: Self)
        ensures
            c.chunk_size_milli == 32_000,
            c.render_distance == 3,
            c.height_scale_milli == 5_000,
            c.noise_scale_milli == 100,
            c.resolution == DEFAULT_RESOLUTION,
            c.wf(),
    {
        TerrainConfig {
            chunk_size_milli: 32_000,
            render_distance: 3,
            height_scale_milli: 5_000,
            noise_scale_milli: 100,
            resolution: DEFAULT_RESOLUTION,
        }
    }
}

} // verus!
