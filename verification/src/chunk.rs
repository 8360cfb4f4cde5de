//! Chunk coordinates on the infinite terrain grid.
//!
//! A chunk is addressed by a pair of signed grid indices; the chunk with
//! index `(x, z)` covers the half-open world square
//! `[x * size, (x + 1) * size) x [z * size, (z + 1) * size)` in milli-units.

use vstd::prelude::*;

verus! {

use vstd::arithmetic::div_mod::{
    lemma_div_is_ordered, lemma_div_multiples_vanish, lemma_fundamental_div_mod_converse_div,
};
use vstd::math::abs;
use crate::config::TerrainConfig;
use crate::fixed::floor_div;

/// Largest magnitude of a viewpoint's own chunk index.
pub const MAX_CAMERA_CHUNK: i64 = 30_000_000;

/// Largest magnitude of any chunk index the system touches: a camera chunk
/// plus the widest window radius, with slack.
pub const MAX_CHUNK_COORD: i64 = 30_001_000;

/// Identity of one chunk on the grid; equality and hashing are by value,
/// and the pair is the primary key of chunk identity.
#[derive(PartialEq, Eq, Structural, Clone, Copy, Debug, Hash)]
pub struct TerrainChunk {
    pub chunk_x: i32,
    pub chunk_z: i32,
}

/// Chebyshev distance between two chunk indices.
pub open spec fn chebyshev(a: TerrainChunk, b: TerrainChunk) -> int {
    vstd::math::max(
        abs(a.chunk_x as int - b.chunk_x as int) as int,
        abs(a.chunk_z as int - b.chunk_z as int) as int,
    )
}

/// The square window of chunks kept loaded around `center`.
pub open spec fn in_window(center: TerrainChunk, radius: int, c: TerrainChunk) -> bool {
    chebyshev(center, c) <= radius
}

/// The chunk index a world coordinate falls in: flooring division by the
/// chunk edge length.
pub open spec fn chunk_index_of(w: int, size: int) -> int {
    w / size
}

/// A viewpoint position the fixed-point index computation is sized for.
pub open spec fn camera_pos_in_range(wx_milli: int, wz_milli: int, config: TerrainConfig) -> bool {
    abs(wx_milli) <= MAX_CAMERA_CHUNK * config.chunk_size_milli
        && abs(wz_milli) <= MAX_CAMERA_CHUNK * config.chunk_size_milli
}

/// Runtime check of [`camera_pos_in_range`], so a host can guard the
/// streaming entry points.
pub fn check_camera_pos(wx_milli: i64, wz_milli: i64, config: &TerrainConfig) -> (ok: bool)
    requires
        config.wf(),
    ensures
        ok == camera_pos_in_range(wx_milli as int, wz_milli as int, *config),
{
    let bound: i64 = MAX_CAMERA_CHUNK * config.chunk_size_milli;
    -bound <= wx_milli && wx_milli <= bound && -bound <= wz_milli && wz_milli <= bound
}

/// Bounds the quotient of a ranged world coordinate by the chunk size.
proof fn lemma_chunk_index_bounded(w: int, size: int, bound: int)
    requires
        0 < size,
        0 <= bound,
        abs(w) <= bound * size,
    ensures
        abs(w / size) <= bound,
{
    lemma_div_multiples_vanish(bound, size);
    lemma_div_multiples_vanish(-bound, size);
    assert(bound * size == size * bound) by (nonlinear_arith);
    assert(-(bound * size) == size * -bound) by (nonlinear_arith);
    lemma_div_is_ordered(w, size * bound, size);
    lemma_div_is_ordered(size * -bound, w, size);
}

/// The chunk the viewpoint stands in: per-axis flooring division of the
/// world position by the chunk edge length.
pub fn camera_chunk(wx_milli: i64, wz_milli: i64, config: &TerrainConfig) -> (c: TerrainChunk)
    requires
        config.wf(),
        camera_pos_in_range(wx_milli as int, wz_milli as int, *config),
    ensures
        c.chunk_x as int == chunk_index_of(wx_milli as int, config.chunk_size_milli as int),
        c.chunk_z as int == chunk_index_of(wz_milli as int, config.chunk_size_milli as int),
        abs(c.chunk_x as int) <= MAX_CAMERA_CHUNK,
        abs(c.chunk_z as int) <= MAX_CAMERA_CHUNK,
{
    let size: i64 = config.chunk_size_milli;
    proof {
        assert(MAX_CAMERA_CHUNK * size <= MAX_CAMERA_CHUNK * 1_000_000) by (nonlinear_arith)
            requires
                0 < size <= 1_000_000;
        lemma_chunk_index_bounded(wx_milli as int, size as int, MAX_CAMERA_CHUNK as int);
        lemma_chunk_index_bounded(wz_milli as int, size as int, MAX_CAMERA_CHUNK as int);
    }
    let qx: i64 = floor_div(wx_milli, size);
    let qz: i64 = floor_div(wz_milli, size);
    TerrainChunk { chunk_x: qx as i32, chunk_z: qz as i32 }
}

/// The index computation is constant across one chunk cell: every world
/// point strictly inside the half-open square of chunk `(cx, cz)` maps back
/// to exactly `(cx, cz)`.
pub proof fn lemma_camera_chunk_idempotent(size: int, cx: int, cz: int, wx: int, wz: int)
    requires
        0 < size,
        cx * size <= wx < (cx + 1) * size,
        cz * size <= wz < (cz + 1) * size,
    ensures
        chunk_index_of(wx, size) == cx,
        chunk_index_of(wz, size) == cz,
{
    assert((cx + 1) * size == cx * size + size) by (nonlinear_arith);
    assert((cz + 1) * size == cz * size + size) by (nonlinear_arith);
    lemma_fundamental_div_mod_converse_div(wx, size, cx, wx - cx * size);
    lemma_fundamental_div_mod_converse_div(wz, size, cz, wz - cz * size);
}

} // verus!
