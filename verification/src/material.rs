//! Height-based material classification.
//!
//! A whole chunk gets one flat material color, chosen from the chunk's
//! average vertex elevation: the average, normalized by the configured
//! amplitude and clamped to `[0, 1000]` per-mille, falls into one of three
//! bands — light grass low down, a dark-to-light grass blend in the middle,
//! and a grass-to-rock blend on top — with linear interpolation inside each
//! band.

use vstd::prelude::*;

verus! {

use vstd::arithmetic::div_mod::{lemma_div_is_ordered, lemma_div_multiples_vanish};
use crate::fixed::floor_div;

/// Lower edge of the middle (grass blend) band, in per-mille of amplitude.
pub const GRASS_BAND_MILLI: i64 = 150;

/// Lower edge of the top (rock blend) band, in per-mille of amplitude.
pub const ROCK_BAND_MILLI: i64 = 400;

/// A material color as sRGB components in per-mille, each in `[0, 1000]`.
#[derive(PartialEq, Eq, Structural, Clone, Copy, Debug)]
pub struct MaterialColor {
    pub r_milli: i64,
    pub g_milli: i64,
    pub b_milli: i64,
}

/// The normalized height factor: average elevation over amplitude, in
/// per-mille, clamped to `[0, 1000]`.
pub open spec fn height_factor_milli(avg_height_milli: int, height_scale_milli: int) -> int {
    let raw = avg_height_milli * 1000 / height_scale_milli;
    if raw < 0 {
        0
    } else if raw > 1000 {
        1000
    } else {
        raw
    }
}

/// The flat material color of a chunk with the given height factor.
pub open spec fn classify_spec(factor_milli: int) -> MaterialColor {
    if factor_milli > ROCK_BAND_MILLI {
        // Grass-to-rock blend.
        let blend = (factor_milli - ROCK_BAND_MILLI) * 1000 / 600;
        let blend = if blend > 1000 {
            1000
        } else {
            blend
        };
        MaterialColor {
            r_milli: (500 + blend * 100 / 1000) as i64,
            g_milli: (500 + blend * 50 / 1000) as i64,
            b_milli: 500,
        }
    } else if factor_milli > GRASS_BAND_MILLI {
        // Dark-to-light grass blend.
        let blend = (factor_milli - GRASS_BAND_MILLI) * 1000 / 250;
        let blend = if blend > 1000 {
            1000
        } else {
            blend
        };
        MaterialColor {
            r_milli: (150 + blend * 150 / 1000) as i64,
            g_milli: (400 + blend * 250 / 1000) as i64,
            b_milli: (150 + blend * 100 / 1000) as i64,
        }
    } else {
        // Light grass.
        MaterialColor { r_milli: 300, g_milli: 650, b_milli: 250 }
    }
}

/// The material of a chunk, from its average vertex elevation.
///
/// `classify_material(a, h)` is exactly
/// [`classify_spec`]`(`[`height_factor_milli`]`(a, h))`.
pub fn classify_material(avg_height_milli: i64, height_scale_milli: i64) -> (color: MaterialColor)
    requires
        0 < height_scale_milli <= 1_000_000,
        -height_scale_milli <= avg_height_milli <= height_scale_milli,
    ensures
        color == classify_spec(
            height_factor_milli(avg_height_milli as int, height_scale_milli as int),
        ),
{
    proof {
        assert(-1_000_000_000 <= avg_height_milli * 1000 && avg_height_milli * 1000
            <= 1_000_000_000) by (nonlinear_arith)
            requires
                -1_000_000 <= avg_height_milli <= 1_000_000;
    }
    let raw: i64 = floor_div(avg_height_milli * 1000, height_scale_milli);
    let factor: i64 = if raw < 0 {
        0
    } else if raw > 1000 {
        1000
    } else {
        raw
    };
    if factor > ROCK_BAND_MILLI {
        let spread: i64 = (factor - ROCK_BAND_MILLI) * 1000;
        let blend_raw: i64 = spread / 600;
        let blend: i64 = if blend_raw > 1000 {
            1000
        } else {
            blend_raw
        };
        proof {
            lemma_div_is_ordered(0, spread as int, 600);
        }
        MaterialColor {
            r_milli: 500 + blend * 100 / 1000,
            g_milli: 500 + blend * 50 / 1000,
            b_milli: 500,
        }
    } else if factor > GRASS_BAND_MILLI {
        let spread: i64 = (factor - GRASS_BAND_MILLI) * 1000;
        let blend_raw: i64 = spread / 250;
        let blend: i64 = if blend_raw > 1000 {
            1000
        } else {
            blend_raw
        };
        proof {
            lemma_div_is_ordered(0, spread as int, 250);
        }
        MaterialColor {
            r_milli: 150 + blend * 150 / 1000,
            g_milli: 400 + blend * 250 / 1000,
            b_milli: 150 + blend * 100 / 1000,
        }
    } else {
        MaterialColor { r_milli: 300, g_milli: 650, b_milli: 250 }
    }
}

/// Every classified color has its components in the per-mille range.
pub proof fn lemma_classify_in_range(factor_milli: int)
    requires
        0 <= factor_milli <= 1000,
    ensures
        0 <= classify_spec(factor_milli).r_milli <= 1000,
        0 <= classify_spec(factor_milli).g_milli <= 1000,
        0 <= classify_spec(factor_milli).b_milli <= 1000,
{
    if factor_milli > ROCK_BAND_MILLI {
        let blend0 = (factor_milli - ROCK_BAND_MILLI) * 1000 / 600;
        lemma_div_is_ordered(0, (factor_milli - ROCK_BAND_MILLI) * 1000, 600);
        let blend = if blend0 > 1000 {
            1000int
        } else {
            blend0
        };
        lemma_blend_component(blend, 100);
        lemma_blend_component(blend, 50);
    } else if factor_milli > GRASS_BAND_MILLI {
        let blend0 = (factor_milli - GRASS_BAND_MILLI) * 1000 / 250;
        lemma_div_is_ordered(0, (factor_milli - GRASS_BAND_MILLI) * 1000, 250);
        let blend = if blend0 > 1000 {
            1000int
        } else {
            blend0
        };
        lemma_blend_component(blend, 150);
        lemma_blend_component(blend, 250);
        lemma_blend_component(blend, 100);
    }
}

/// A blend contribution `blend * gain / 1000` stays within `[0, gain]`.
proof fn lemma_blend_component(blend: int, gain: int)
    requires
        0 <= blend <= 1000,
        0 < gain,
    ensures
        0 <= blend * gain / 1000 <= gain,
{
    assert(0 <= blend * gain && blend * gain <= 1000 * gain) by (nonlinear_arith)
        requires
            0 <= blend <= 1000,
            0 < gain;
    lemma_div_is_ordered(0, blend * gain, 1000);
    lemma_div_is_ordered(blend * gain, 1000 * gain, 1000);
    lemma_div_multiples_vanish(gain, 1000);
}

} // verus!
