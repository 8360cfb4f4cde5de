//! The deterministic height field: a seeded, fixed-point coherent value
//! noise over world coordinates.
//!
//! Elevation is a pure function of the seed and the world coordinate alone.
//! That purity is the invariant that keeps chunk seams crack-free: two
//! chunks that share an edge sample the very same world coordinates there
//! and therefore receive bit-identical elevations.
//!
//! The noise lattice lives in micro-units (a world coordinate in
//! milli-units times the milli-scaled frequency), with one lattice cell
//! per `LATTICE_MICRO`. A corner value in `[-1000, 1000]` is hashed from
//! the seed and the lattice indices, and the cell interior is interpolated
//! with the smoothstep fade, all in integer arithmetic.

use vstd::prelude::*;

verus! {

use vstd::arithmetic::div_mod::{
    lemma_div_is_ordered, lemma_div_multiples_vanish, lemma_fundamental_div_mod_converse_div,
    lemma_mod_bound,
};
use vstd::math::abs;
use crate::config::TerrainConfig;
use crate::fixed::{floor_div, floor_mod};

/// The fixed-point one: noise values span `[-NOISE_ONE_MILLI, NOISE_ONE_MILLI]`.
pub const NOISE_ONE_MILLI: i64 = 1000;

/// Edge length of one noise lattice cell, in micro-units.
pub const LATTICE_MICRO: i64 = 1_000_000;

/// Largest world coordinate magnitude (milli-units) the sampler is sized for.
pub const MAX_WORLD_MILLI: i64 = 31_000_000_000_000;

/// Lattice hash multiplier for the x index.
pub const HASH_MIX_X: i64 = 7_368_787;

/// Lattice hash multiplier for the z index.
pub const HASH_MIX_Z: i64 = 9_474_701;

/// Lattice hash multiplier for the seed.
pub const HASH_MIX_SEED: i64 = 1_442_695;

/// Modulus of the lattice hash.
pub const HASH_PRIME: i64 = 2_147_483_647;

/// Second-round stirring constant of the lattice hash.
pub const HASH_STIR: i64 = 7_919;

/// Number of distinct corner values: `[-1000, 1000]`.
pub const VALUE_RANGE: i64 = 2_001;

/// Pseudo-random value in `[-1000, 1000]` at lattice corner `(xi, zi)`.
pub open spec fn corner_value(seed: u32, xi: int, zi: int) -> int {
    let mixed = (xi * HASH_MIX_X + zi * HASH_MIX_Z + seed * HASH_MIX_SEED) % (HASH_PRIME as int);
    let stirred = (mixed * mixed + mixed * HASH_STIR) % (HASH_PRIME as int);
    stirred % (VALUE_RANGE as int) - NOISE_ONE_MILLI
}

/// Smoothstep fade of a milli-fraction: `t * t * (3000 - 2 * t) / 1_000_000`,
/// mapping `[0, 1000]` onto `[0, 1000]` with zero slope at both ends.
pub open spec fn fade_milli(t: int) -> int {
    t * t * (3000 - 2 * t) / 1_000_000
}

/// Linear interpolation from `a` to `b` by the milli-fraction `s`.
pub open spec fn lerp_milli(a: int, b: int, s: int) -> int {
    a + (b - a) * s / 1000
}

/// The value noise at a micro-unit position: smoothed bilinear blend of the
/// four corner values of the lattice cell the position falls in.
pub open spec fn noise_milli(seed: u32, qx: int, qz: int) -> int {
    let x0 = qx / (LATTICE_MICRO as int);
    let z0 = qz / (LATTICE_MICRO as int);
    let sx = fade_milli(qx % (LATTICE_MICRO as int) / 1000);
    let sz = fade_milli(qz % (LATTICE_MICRO as int) / 1000);
    let near = lerp_milli(corner_value(seed, x0, z0), corner_value(seed, x0 + 1, z0), sx);
    let far = lerp_milli(corner_value(seed, x0, z0 + 1), corner_value(seed, x0 + 1, z0 + 1), sx);
    lerp_milli(near, far, sz)
}

/// World elevation in milli-units: the noise at the frequency-scaled world
/// coordinate, scaled by the configured amplitude.
pub open spec fn elevation_milli(seed: u32, config: TerrainConfig, wx_milli: int, wz_milli: int) -> int {
    noise_milli(seed, wx_milli * config.noise_scale_milli, wz_milli * config.noise_scale_milli)
        * config.height_scale_milli / 1000
}

pub proof fn lemma_corner_value_bounds(seed: u32, xi: int, zi: int)
    ensures
        -NOISE_ONE_MILLI <= corner_value(seed, xi, zi) <= NOISE_ONE_MILLI,
{
    let mixed = (xi * HASH_MIX_X + zi * HASH_MIX_Z + seed * HASH_MIX_SEED) % (HASH_PRIME as int);
    let stirred = (mixed * mixed + mixed * HASH_STIR) % (HASH_PRIME as int);
    lemma_mod_bound(xi * HASH_MIX_X + zi * HASH_MIX_Z + seed * HASH_MIX_SEED, HASH_PRIME as int);
    lemma_mod_bound(mixed * mixed + mixed * HASH_STIR, HASH_PRIME as int);
    lemma_mod_bound(stirred, VALUE_RANGE as int);
}

pub proof fn lemma_fade_bounds(t: int)
    requires
        0 <= t <= 1000,
    ensures
        0 <= fade_milli(t) <= 1000,
{
    let f = t * t * (3000 - 2 * t);
    assert(0 <= t * t * (3000 - 2 * t)) by (nonlinear_arith)
        requires
            0 <= t <= 1000;
    // The margin to the top of the range factors cleanly, which shows it
    // can never be negative.
    assert(1_000_000_000 - t * t * (3000 - 2 * t) == (1000 - t) * (1000 - t) * (1000 + 2 * t))
        by (nonlinear_arith);
    assert(0 <= (1000 - t) * (1000 - t) * (1000 + 2 * t)) by (nonlinear_arith)
        requires
            0 <= t <= 1000;
    lemma_div_is_ordered(0, f, 1_000_000);
    lemma_div_is_ordered(f, 1_000_000_000, 1_000_000);
    lemma_div_multiples_vanish(1000, 1_000_000);
}

pub proof fn lemma_lerp_bounds(a: int, b: int, s: int, lo: int, hi: int)
    requires
        lo <= a <= hi,
        lo <= b <= hi,
        0 <= s <= 1000,
    ensures
        lo <= lerp_milli(a, b, s) <= hi,
{
    let d = b - a;
    if d >= 0 {
        assert(0 <= d * s && d * s <= d * 1000) by (nonlinear_arith)
            requires
                d >= 0,
                0 <= s <= 1000;
        lemma_div_is_ordered(0, d * s, 1000);
        lemma_div_is_ordered(d * s, d * 1000, 1000);
        lemma_div_multiples_vanish(d, 1000);
        assert(d * 1000 == 1000 * d) by (nonlinear_arith);
    } else {
        assert(d * 1000 <= d * s && d * s <= 0) by (nonlinear_arith)
            requires
                d < 0,
                0 <= s <= 1000;
        lemma_div_is_ordered(d * 1000, d * s, 1000);
        lemma_div_is_ordered(d * s, 0, 1000);
        lemma_div_multiples_vanish(d, 1000);
        assert(d * 1000 == 1000 * d) by (nonlinear_arith);
    }
}

pub proof fn lemma_noise_bounds(seed: u32, qx: int, qz: int)
    ensures
        -NOISE_ONE_MILLI <= noise_milli(seed, qx, qz) <= NOISE_ONE_MILLI,
{
    let x0 = qx / (LATTICE_MICRO as int);
    let z0 = qz / (LATTICE_MICRO as int);
    let fx = qx % (LATTICE_MICRO as int) / 1000;
    let fz = qz % (LATTICE_MICRO as int) / 1000;
    lemma_mod_bound(qx, LATTICE_MICRO as int);
    lemma_mod_bound(qz, LATTICE_MICRO as int);
    lemma_div_is_ordered(0, qx % (LATTICE_MICRO as int), 1000);
    lemma_div_is_ordered(qx % (LATTICE_MICRO as int), 999_999, 1000);
    lemma_div_is_ordered(0, qz % (LATTICE_MICRO as int), 1000);
    lemma_div_is_ordered(qz % (LATTICE_MICRO as int), 999_999, 1000);
    lemma_fundamental_div_mod_converse_div(999_999, 1000, 999, 999);
    lemma_fade_bounds(fx);
    lemma_fade_bounds(fz);
    lemma_corner_value_bounds(seed, x0, z0);
    lemma_corner_value_bounds(seed, x0 + 1, z0);
    lemma_corner_value_bounds(seed, x0, z0 + 1);
    lemma_corner_value_bounds(seed, x0 + 1, z0 + 1);
    let sx = fade_milli(fx);
    let sz = fade_milli(fz);
    lemma_lerp_bounds(
        corner_value(seed, x0, z0),
        corner_value(seed, x0 + 1, z0),
        sx,
        -NOISE_ONE_MILLI as int,
        NOISE_ONE_MILLI as int,
    );
    lemma_lerp_bounds(
        corner_value(seed, x0, z0 + 1),
        corner_value(seed, x0 + 1, z0 + 1),
        sx,
        -NOISE_ONE_MILLI as int,
        NOISE_ONE_MILLI as int,
    );
    lemma_lerp_bounds(
        lerp_milli(corner_value(seed, x0, z0), corner_value(seed, x0 + 1, z0), sx),
        lerp_milli(corner_value(seed, x0, z0 + 1), corner_value(seed, x0 + 1, z0 + 1), sx),
        sz,
        -NOISE_ONE_MILLI as int,
        NOISE_ONE_MILLI as int,
    );
}

/// Elevations never exceed the configured amplitude in magnitude.
pub proof fn lemma_elevation_bounds(seed: u32, config: TerrainConfig, wx_milli: int, wz_milli: int)
    requires
        config.wf(),
    ensures
        -config.height_scale_milli
            <= elevation_milli(seed, config, wx_milli, wz_milli)
            <= config.height_scale_milli,
{
    let hs = config.height_scale_milli as int;
    let v = noise_milli(
        seed,
        wx_milli * config.noise_scale_milli,
        wz_milli * config.noise_scale_milli,
    );
    lemma_noise_bounds(seed, wx_milli * config.noise_scale_milli, wz_milli * config.noise_scale_milli);
    assert(-1000 * hs <= v * hs && v * hs <= 1000 * hs) by (nonlinear_arith)
        requires
            -1000 <= v <= 1000,
            hs > 0;
    lemma_div_is_ordered(-1000 * hs, v * hs, 1000);
    lemma_div_is_ordered(v * hs, 1000 * hs, 1000);
    lemma_div_multiples_vanish(hs, 1000);
    lemma_div_multiples_vanish(-hs, 1000);
    assert(-1000 * hs == 1000 * -hs) by (nonlinear_arith);
}

/// The seeded height field; elevation is a function of the seed and the
/// world coordinate alone.
#[derive(PartialEq, Eq, Structural, Clone, Copy, Debug)]
pub struct HeightField {
    pub seed: u32,
}

/// Smoothstep fade of a milli-fraction.
fn fade(t: i64) -> (s: i64)
    requires
        0 <= t <= 1000,
    ensures
        s == fade_milli(t as int),
        0 <= s <= 1000,
{
    proof {
        assert(t * t <= 1_000_000 && 0 <= t * t) by (nonlinear_arith)
            requires
                0 <= t <= 1000;
        assert(t * t * (3000 - 2 * t) <= 3_000_000_000 && 0 <= t * t * (3000 - 2 * t))
            by (nonlinear_arith)
            requires
                0 <= t <= 1000;
        lemma_fade_bounds(t as int);
    }
    let square: i64 = t * t;
    let f: i64 = square * (3000 - 2 * t);
    f / 1_000_000
}

/// Linear interpolation between two noise values by a milli-fraction.
fn lerp(a: i64, b: i64, s: i64) -> (r: i64)
    requires
        -NOISE_ONE_MILLI <= a <= NOISE_ONE_MILLI,
        -NOISE_ONE_MILLI <= b <= NOISE_ONE_MILLI,
        0 <= s <= 1000,
    ensures
        r == lerp_milli(a as int, b as int, s as int),
        -NOISE_ONE_MILLI <= r <= NOISE_ONE_MILLI,
{
    proof {
        assert(-2_000_000 <= (b - a) * s && (b - a) * s <= 2_000_000) by (nonlinear_arith)
            requires
                -2000 <= b - a <= 2000,
                0 <= s <= 1000;
        lemma_lerp_bounds(a as int, b as int, s as int, -NOISE_ONE_MILLI as int, NOISE_ONE_MILLI as int);
    }
    let d: i64 = b - a;
    a + floor_div(d * s, 1000)
}

/// Pseudo-random corner value of the noise lattice.
fn corner(seed: u32, xi: i64, zi: i64) -> (v: i64)
    requires
        abs(xi as int) <= 40_000_000_000,
        abs(zi as int) <= 40_000_000_000,
    ensures
        v == corner_value(seed, xi as int, zi as int),
        -NOISE_ONE_MILLI <= v <= NOISE_ONE_MILLI,
{
    let mixed_raw: i64 = xi * HASH_MIX_X + zi * HASH_MIX_Z + (seed as i64) * HASH_MIX_SEED;
    let mixed: i64 = floor_mod(mixed_raw, HASH_PRIME);
    proof {
        assert(0 <= mixed * mixed && mixed * mixed <= 4_611_686_014_132_420_609) by (nonlinear_arith)
            requires
                0 <= mixed <= 2_147_483_646;
        assert(0 <= mixed * HASH_STIR <= 17_005_923_593_874) by (nonlinear_arith)
            requires
                0 <= mixed <= 2_147_483_646;
    }
    let stirred: i64 = (mixed * mixed + mixed * HASH_STIR) % HASH_PRIME;
    proof {
        lemma_mod_bound(mixed * mixed + mixed * HASH_STIR, HASH_PRIME as int);
        lemma_mod_bound(stirred as int, VALUE_RANGE as int);
    }
    let folded: i64 = stirred % VALUE_RANGE;
    folded - NOISE_ONE_MILLI
}

impl HeightField {
    /// A height field with the given noise seed.
    pub fn new(seed: u32) -> (f: Self)
        ensures
            f.seed == seed,
    {
        HeightField { seed }
    }

    /// The elevation at a world coordinate, in milli-units.
    ///
    /// Pure and deterministic: the result is exactly
    /// [`elevation_milli`]`(self.seed, *config, wx_milli, wz_milli)`.
    pub fn sample_milli(&self, config: &TerrainConfig, wx_milli: i64, wz_milli: i64) -> (h: i64)
        requires
            config.wf(),
            abs(wx_milli as int) <= MAX_WORLD_MILLI,
            abs(wz_milli as int) <= MAX_WORLD_MILLI,
        ensures
            h == elevation_milli(self.seed, *config, wx_milli as int, wz_milli as int),
            -config.height_scale_milli <= h <= config.height_scale_milli,
    {
        proof {
            assert(abs(wx_milli * config.noise_scale_milli) <= 31_000_000_000_000_000)
                by (nonlinear_arith)
                requires
                    abs(wx_milli as int) <= MAX_WORLD_MILLI,
                    0 <= config.noise_scale_milli <= 1000;
            assert(abs(wz_milli * config.noise_scale_milli) <= 31_000_000_000_000_000)
                by (nonlinear_arith)
                requires
                    abs(wz_milli as int) <= MAX_WORLD_MILLI,
                    0 <= config.noise_scale_milli <= 1000;
        }
        let qx: i64 = wx_milli * config.noise_scale_milli;
        let qz: i64 = wz_milli * config.noise_scale_milli;
        let x0: i64 = floor_div(qx, LATTICE_MICRO);
        let z0: i64 = floor_div(qz, LATTICE_MICRO);
        proof {
            lemma_div_is_ordered(qx as int, 31_000_000_000_000_000, LATTICE_MICRO as int);
            lemma_div_is_ordered(-31_000_000_000_000_000, qx as int, LATTICE_MICRO as int);
            lemma_div_is_ordered(qz as int, 31_000_000_000_000_000, LATTICE_MICRO as int);
            lemma_div_is_ordered(-31_000_000_000_000_000, qz as int, LATTICE_MICRO as int);
            lemma_fundamental_div_mod_converse_div(
                31_000_000_000_000_000, 1_000_000, 31_000_000_000, 0);
            lemma_fundamental_div_mod_converse_div(
                -31_000_000_000_000_000, 1_000_000, -31_000_000_000, 0);
            lemma_mod_bound(qx as int, LATTICE_MICRO as int);
            lemma_mod_bound(qz as int, LATTICE_MICRO as int);
        }
        let fx: i64 = floor_mod(qx, LATTICE_MICRO) / 1000;
        let fz: i64 = floor_mod(qz, LATTICE_MICRO) / 1000;
        proof {
            lemma_div_is_ordered(0, qx as int % (LATTICE_MICRO as int), 1000);
            lemma_div_is_ordered(qx as int % (LATTICE_MICRO as int), 999_999, 1000);
            lemma_div_is_ordered(0, qz as int % (LATTICE_MICRO as int), 1000);
            lemma_div_is_ordered(qz as int % (LATTICE_MICRO as int), 999_999, 1000);
            lemma_fundamental_div_mod_converse_div(999_999, 1000, 999, 999);
        }
        let sx: i64 = fade(fx);
        let sz: i64 = fade(fz);
        let v00: i64 = corner(self.seed, x0, z0);
        let v10: i64 = corner(self.seed, x0 + 1, z0);
        let v01: i64 = corner(self.seed, x0, z0 + 1);
        let v11: i64 = corner(self.seed, x0 + 1, z0 + 1);
        let near: i64 = lerp(v00, v10, sx);
        let far: i64 = lerp(v01, v11, sx);
        let value: i64 = lerp(near, far, sz);
        proof {
            assert(-1_000_000_000 <= value * config.height_scale_milli
                && value * config.height_scale_milli <= 1_000_000_000) by (nonlinear_arith)
                requires
                    -1000 <= value <= 1000,
                    0 < config.height_scale_milli <= 1_000_000;
            lemma_elevation_bounds(self.seed, *config, wx_milli as int, wz_milli as int);
        }
        floor_div(value * config.height_scale_milli, 1000)
    }
}

} // verus!
