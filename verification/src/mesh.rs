//! Chunk mesh geometry: the exact shape of a built chunk.
//!
//! A chunk of resolution `res` is a grid of `(res + 1) * (res + 1)` vertices
//! in row-major order (row = z, column = x), `res * res` cells, and two
//! upward-wound triangles per cell. The specification functions here pin
//! down every vertex position, texture coordinate, triangle index and
//! smoothed normal as a pure function of the noise seed, the configuration
//! and the chunk coordinate; the builder is verified against them, and the
//! seam-continuity law is proved from them.

use vstd::prelude::*;

verus! {

use vstd::arithmetic::div_mod::{
    lemma_div_is_ordered, lemma_div_multiples_vanish, lemma_fundamental_div_mod_converse_div,
    lemma_fundamental_div_mod_converse_mod, lemma_mod_bound,
};
use vstd::math::abs;
use crate::config::TerrainConfig;
use crate::chunk::MAX_CHUNK_COORD;
use crate::heightfield::{elevation_milli, MAX_WORLD_MILLI};
use crate::fixed::isqrt_spec;

/// A point or direction in world space, in milli-units.
#[derive(PartialEq, Eq, Structural, Clone, Copy, Debug)]
pub struct Vec3Milli {
    pub x: i64,
    pub y: i64,
    pub z: i64,
}

/// A texture coordinate local to the chunk, each component in `[0, 1000]`.
#[derive(PartialEq, Eq, Structural, Clone, Copy, Debug)]
pub struct UvMilli {
    pub u: i64,
    pub v: i64,
}

/// The triangulated surface of one chunk.
pub struct TerrainMesh {
    /// One entry per grid vertex, row-major: `(x, elevation, z)`.
    pub positions: Vec<Vec3Milli>,
    /// Smoothed per-vertex normals, fixed-point unit vectors.
    pub normals: Vec<Vec3Milli>,
    /// Per-vertex texture coordinates in `[0, 1000]` squared.
    pub uvs: Vec<UvMilli>,
    /// Triangle list: `6 * res * res` vertex indices.
    pub indices: Vec<usize>,
}

pub open spec fn vertex_count(res: int) -> int {
    (res + 1) * (res + 1)
}

pub open spec fn triangle_count(res: int) -> int {
    2 * res * res
}

pub open spec fn index_count(res: int) -> int {
    6 * res * res
}

/// Column (x direction) of a row-major vertex index.
pub open spec fn grid_col(res: int, vi: int) -> int {
    vi % (res + 1)
}

/// Row (z direction) of a row-major vertex index.
pub open spec fn grid_row(res: int, vi: int) -> int {
    vi / (res + 1)
}

/// Distance of grid line `g` from the chunk's low edge, in milli-units.
pub open spec fn axis_offset_milli(config: TerrainConfig, g: int) -> int {
    g * config.chunk_size_milli / (config.resolution as int)
}

/// World x of the vertex in column `col` of a chunk at grid x `cx`.
pub open spec fn vertex_world_x_milli(config: TerrainConfig, cx: int, col: int) -> int {
    cx * config.chunk_size_milli + axis_offset_milli(config, col)
}

/// World z of the vertex in row `row` of a chunk at grid z `cz`.
pub open spec fn vertex_world_z_milli(config: TerrainConfig, cz: int, row: int) -> int {
    cz * config.chunk_size_milli + axis_offset_milli(config, row)
}

/// The position of vertex `vi`: its world column and row, with the height
/// field's elevation there.
///
/// Opaque: proofs about whole meshes treat a vertex position as one value
/// and open the definition only where the coordinates themselves matter.
#[verifier::opaque]
pub open spec fn vertex_pos_spec(
    seed: u32,
    config: TerrainConfig,
    cx: int,
    cz: int,
    vi: int,
) -> Vec3Milli {
    let res = config.resolution as int;
    let wx = vertex_world_x_milli(config, cx, grid_col(res, vi));
    let wz = vertex_world_z_milli(config, cz, grid_row(res, vi));
    Vec3Milli {
        x: wx as i64,
        y: elevation_milli(seed, config, wx, wz) as i64,
        z: wz as i64,
    }
}

/// The texture coordinate of vertex `vi`: its grid fraction in per-mille.
pub open spec fn uv_spec(config: TerrainConfig, vi: int) -> UvMilli {
    let res = config.resolution as int;
    UvMilli {
        u: (grid_col(res, vi) * 1000 / res) as i64,
        v: (grid_row(res, vi) * 1000 / res) as i64,
    }
}

/// Entry `k` of the triangle list. Each grid cell emits two triangles from
/// its four corner vertices, both wound so the surface faces upward.
pub open spec fn index_entry(res: int, k: int) -> int {
    let cell = k / 6;
    let corner = k % 6;
    let cell_x = cell % res;
    let cell_z = cell / res;
    let base = cell_z * (res + 1) + cell_x;
    if corner == 0 {
        base
    } else if corner == 1 {
        base + res + 1
    } else if corner == 2 {
        base + 1
    } else if corner == 3 {
        base + 1
    } else if corner == 4 {
        base + res + 1
    } else {
        base + res + 2
    }
}

pub open spec fn sub3(a: Vec3Milli, b: Vec3Milli) -> (int, int, int) {
    (a.x - b.x, a.y - b.y, a.z - b.z)
}

pub open spec fn add3(a: (int, int, int), b: (int, int, int)) -> (int, int, int) {
    (a.0 + b.0, a.1 + b.1, a.2 + b.2)
}

pub open spec fn cross3(a: (int, int, int), b: (int, int, int)) -> (int, int, int) {
    (a.1 * b.2 - a.2 * b.1, a.2 * b.0 - a.0 * b.2, a.0 * b.1 - a.1 * b.0)
}

pub open spec fn norm_sq3(v: (int, int, int)) -> int {
    v.0 * v.0 + v.1 * v.1 + v.2 * v.2
}

/// Fixed-point normalization: scale `v` so its length is the unit 1000.
/// The zero vector, which has no direction, maps to the up vector.
pub open spec fn unit3_milli(v: (int, int, int)) -> (int, int, int) {
    let n2 = norm_sq3(v);
    if n2 <= 0 {
        (0, 1000, 0)
    } else {
        let n = isqrt_spec(n2 as nat) as int;
        (v.0 * 1000 / n, v.1 * 1000 / n, v.2 * 1000 / n)
    }
}

/// The unit face normal of a triangle: the normalized cross product of its
/// two edge vectors out of the first vertex. A degenerate triangle (zero
/// cross product) contributes nothing.
pub open spec fn face_normal_spec(p0: Vec3Milli, p1: Vec3Milli, p2: Vec3Milli) -> (int, int, int) {
    let c = cross3(sub3(p1, p0), sub3(p2, p0));
    let n2 = norm_sq3(c);
    if n2 <= 0 {
        (0, 0, 0)
    } else {
        let n = isqrt_spec(n2 as nat) as int;
        (c.0 * 1000 / n, c.1 * 1000 / n, c.2 * 1000 / n)
    }
}

/// The face normal of triangle `t` of the chunk.
pub open spec fn tri_face_normal(
    seed: u32,
    config: TerrainConfig,
    cx: int,
    cz: int,
    t: int,
) -> (int, int, int) {
    let res = config.resolution as int;
    face_normal_spec(
        vertex_pos_spec(seed, config, cx, cz, index_entry(res, 3 * t)),
        vertex_pos_spec(seed, config, cx, cz, index_entry(res, 3 * t + 1)),
        vertex_pos_spec(seed, config, cx, cz, index_entry(res, 3 * t + 2)),
    )
}

/// Normal accumulator of vertex `vi` after the first `t` triangles: it
/// starts at zero and gains each incident triangle's unit face normal,
/// once per corner the vertex occupies.
pub open spec fn acc_normal_upto(
    seed: u32,
    config: TerrainConfig,
    cx: int,
    cz: int,
    vi: int,
    t: nat,
) -> (int, int, int)
    decreases t,
{
    if t == 0 {
        (0, 0, 0)
    } else {
        let res = config.resolution as int;
        let prev = acc_normal_upto(seed, config, cx, cz, vi, (t - 1) as nat);
        let f = tri_face_normal(seed, config, cx, cz, t - 1);
        let m0: (int, int, int) = if index_entry(res, 3 * (t - 1)) == vi {
            f
        } else {
            (0, 0, 0)
        };
        let m1: (int, int, int) = if index_entry(res, 3 * (t - 1) + 1) == vi {
            f
        } else {
            (0, 0, 0)
        };
        let m2: (int, int, int) = if index_entry(res, 3 * (t - 1) + 2) == vi {
            f
        } else {
            (0, 0, 0)
        };
        add3(add3(add3(prev, m0), m1), m2)
    }
}

/// The smoothed normal of vertex `vi`: its accumulator over all triangles,
/// renormalized to fixed-point unit length.
pub open spec fn vertex_normal_spec(
    seed: u32,
    config: TerrainConfig,
    cx: int,
    cz: int,
    vi: int,
) -> Vec3Milli {
    let res = config.resolution as int;
    let acc = acc_normal_upto(seed, config, cx, cz, vi, triangle_count(res) as nat);
    let u = unit3_milli(acc);
    Vec3Milli { x: u.0 as i64, y: u.1 as i64, z: u.2 as i64 }
}

/// Sum of the elevations of the first `n` vertices.
pub open spec fn height_sum_upto(
    seed: u32,
    config: TerrainConfig,
    cx: int,
    cz: int,
    n: nat,
) -> int
    decreases n,
{
    if n == 0 {
        0
    } else {
        height_sum_upto(seed, config, cx, cz, (n - 1) as nat)
            + vertex_pos_spec(seed, config, cx, cz, n - 1).y
    }
}

/// The chunk's average vertex elevation, in milli-units.
pub open spec fn avg_height_spec(seed: u32, config: TerrainConfig, cx: int, cz: int) -> int {
    let res = config.resolution as int;
    height_sum_upto(seed, config, cx, cz, vertex_count(res) as nat) / vertex_count(res)
}

/// A mesh is exactly the chunk geometry that the seed, the configuration
/// and the chunk coordinate determine.
pub open spec fn mesh_matches(
    mesh: TerrainMesh,
    seed: u32,
    config: TerrainConfig,
    cx: int,
    cz: int,
) -> bool {
    let res = config.resolution as int;
    &&& mesh.positions@.len() == vertex_count(res)
    &&& forall|vi: int|
        0 <= vi < vertex_count(res) ==> mesh.positions@[vi] == vertex_pos_spec(
            seed,
            config,
            cx,
            cz,
            vi,
        )
    &&& mesh.uvs@.len() == vertex_count(res)
    &&& forall|vi: int| 0 <= vi < vertex_count(res) ==> mesh.uvs@[vi] == uv_spec(config, vi)
    &&& mesh.indices@.len() == index_count(res)
    &&& forall|k: int|
        0 <= k < index_count(res) ==> mesh.indices@[k] as int == index_entry(res, k)
    &&& mesh.normals@.len() == vertex_count(res)
    &&& forall|vi: int|
        0 <= vi < vertex_count(res) ==> mesh.normals@[vi] == vertex_normal_spec(
            seed,
            config,
            cx,
            cz,
            vi,
        )
}

/// Grid offsets stay within one chunk edge.
pub proof fn lemma_axis_offset_range(config: TerrainConfig, g: int)
    requires
        config.wf(),
        0 <= g <= config.resolution,
    ensures
        0 <= axis_offset_milli(config, g) <= config.chunk_size_milli,
{
    let res = config.resolution as int;
    let cs = config.chunk_size_milli as int;
    assert(0 <= g * cs <= res * cs) by (nonlinear_arith)
        requires
            0 <= g <= res,
            0 < cs;
    lemma_div_is_ordered(0, g * cs, res);
    lemma_div_is_ordered(g * cs, res * cs, res);
    lemma_div_multiples_vanish(cs, res);
    assert(res * cs == cs * res) by (nonlinear_arith);
}

/// The last grid line of a chunk lies exactly one chunk edge from the first.
pub proof fn lemma_axis_offset_full(config: TerrainConfig)
    requires
        config.wf(),
    ensures
        axis_offset_milli(config, config.resolution as int) == config.chunk_size_milli,
        axis_offset_milli(config, 0) == 0,
{
    let res = config.resolution as int;
    let cs = config.chunk_size_milli as int;
    lemma_div_multiples_vanish(cs, res);
    assert(res * cs == cs * res) by (nonlinear_arith);
    assert(0 * cs == 0) by (nonlinear_arith);
    lemma_div_multiples_vanish(0, res);
}

/// Every vertex of a coordinate-ranged chunk lies within the world bounds
/// the height-field sampler is sized for.
pub proof fn lemma_vertex_world_in_range(config: TerrainConfig, c: int, g: int)
    requires
        config.wf(),
        abs(c) <= MAX_CHUNK_COORD,
        0 <= g <= config.resolution,
    ensures
        abs(c * config.chunk_size_milli + axis_offset_milli(config, g)) <= MAX_WORLD_MILLI,
{
    let cs = config.chunk_size_milli as int;
    assert(abs(c * cs) <= MAX_CHUNK_COORD * 1_000_000) by (nonlinear_arith)
        requires
            abs(c) <= MAX_CHUNK_COORD,
            0 < cs <= 1_000_000;
    lemma_axis_offset_range(config, g);
}

/// Row and column of an in-range vertex index are in `[0, res]`.
pub proof fn lemma_grid_coords_range(res: int, vi: int)
    requires
        1 <= res,
        0 <= vi < vertex_count(res),
    ensures
        0 <= grid_col(res, vi) <= res,
        0 <= grid_row(res, vi) <= res,
{
    lemma_mod_bound(vi, res + 1);
    lemma_div_is_ordered(0, vi, res + 1);
    vstd::arithmetic::div_mod::lemma_fundamental_div_mod(vi, res + 1);
    assert(vertex_count(res) == (res + 1) * (res + 1));
    if grid_row(res, vi) > res {
        assert(vi >= (res + 1) * (res + 1)) by (nonlinear_arith)
            requires
                vi / (res + 1) >= res + 1,
                1 <= res,
                vi == (res + 1) * (vi / (res + 1)) + vi % (res + 1),
                0 <= vi % (res + 1),
        ;
        assert(false);
    }
}

/// Vertex index decomposition: row `r`, column `c` name vertex
/// `r * (res + 1) + c`, and that index decodes back to `(r, c)`.
pub proof fn lemma_grid_index_roundtrip(res: int, row: int, col: int)
    requires
        1 <= res,
        0 <= row <= res,
        0 <= col <= res,
    ensures
        grid_col(res, row * (res + 1) + col) == col,
        grid_row(res, row * (res + 1) + col) == row,
        0 <= row * (res + 1) + col < vertex_count(res),
{
    let vi = row * (res + 1) + col;
    lemma_fundamental_div_mod_converse_div(vi, res + 1, row, col);
    lemma_fundamental_div_mod_converse_mod(vi, res + 1, row, col);
    assert(vi < (res + 1) * (res + 1)) by (nonlinear_arith)
        requires
            vi == row * (res + 1) + col,
            0 <= row <= res,
            0 <= col <= res,
            1 <= res;
    assert(vi >= 0) by (nonlinear_arith)
        requires
            vi == row * (res + 1) + col,
            0 <= row,
            0 <= col,
            1 <= res;
}

/// Decomposition of a triangle-list position into its cell and corner.
pub proof fn lemma_cell_entry_decompose(c: int, r: int)
    requires
        0 <= r < 6,
    ensures
        (6 * c + r) / 6 == c,
        (6 * c + r) % 6 == r,
{
    assert(6 * c + r == c * 6 + r) by (nonlinear_arith);
    lemma_fundamental_div_mod_converse_div(6 * c + r, 6, c, r);
    lemma_fundamental_div_mod_converse_mod(6 * c + r, 6, c, r);
}

/// Every triangle-list entry names an existing vertex.
pub proof fn lemma_index_entry_range(res: int, k: int)
    requires
        1 <= res,
        0 <= k < index_count(res),
    ensures
        0 <= index_entry(res, k) < vertex_count(res),
{
    let cell = k / 6;
    let cell_x = cell % res;
    let cell_z = cell / res;
    lemma_div_is_ordered(0, k, 6);
    assert(k <= 6 * res * res - 1);
    lemma_div_is_ordered(k, 6 * res * res - 1, 6);
    assert((6 * res * res - 1) / 6 == res * res - 1) by {
        assert((res * res - 1) * 6 + 5 == 6 * res * res - 1) by (nonlinear_arith);
        lemma_fundamental_div_mod_converse_div(6 * res * res - 1, 6, res * res - 1, 5);
    }
    assert(0 <= cell <= res * res - 1);
    lemma_mod_bound(cell, res);
    lemma_div_is_ordered(0, cell, res);
    lemma_div_is_ordered(cell, res * res - 1, res);
    assert((res * res - 1) / res == res - 1) by {
        assert((res - 1) * res + (res - 1) == res * res - 1) by (nonlinear_arith);
        lemma_fundamental_div_mod_converse_div(res * res - 1, res, res - 1, res - 1);
    }
    assert(0 <= cell_x <= res - 1);
    assert(0 <= cell_z <= res - 1);
    let base = cell_z * (res + 1) + cell_x;
    assert(0 <= base && base + res + 2 < (res + 1) * (res + 1)) by (nonlinear_arith)
        requires
            base == cell_z * (res + 1) + cell_x,
            0 <= cell_x <= res - 1,
            0 <= cell_z <= res - 1,
            1 <= res;
}

/// Any component of a vector is bounded by the root of its squared norm.
pub proof fn lemma_component_le_isqrt(c: int, n2: nat)
    requires
        c * c <= n2,
    ensures
        abs(c) <= isqrt_spec(n2),
{
    crate::fixed::lemma_isqrt_spec_bounds(n2);
    let s = isqrt_spec(n2) as int;
    if abs(c) > s {
        assert((s + 1) * (s + 1) <= c * c) by (nonlinear_arith)
            requires
                s + 1 <= abs(c),
                0 <= s,
                abs(c) == if c >= 0 { c } else { -c },
        ;
    }
}

/// Fixed-point normalization keeps every component in `[-1000, 1000]`.
pub proof fn lemma_scale_unit_bounds(c: int, n: int)
    requires
        1 <= n,
        -n <= c <= n,
    ensures
        -1000 <= c * 1000 / n <= 1000,
{
    assert(c * 1000 <= n * 1000 && -(n * 1000) <= c * 1000) by (nonlinear_arith)
        requires
            -n <= c <= n;
    lemma_div_is_ordered(c * 1000, n * 1000, n);
    lemma_div_is_ordered(-(n * 1000), c * 1000, n);
    lemma_div_multiples_vanish(1000, n);
    lemma_div_multiples_vanish(-1000, n);
    assert(n * 1000 == 1000 * n && -(n * 1000) == n * -1000 && n * -1000 == -1000 * n)
        by (nonlinear_arith);
}

/// A nonzero squared norm has a root of at least one.
pub proof fn lemma_isqrt_pos(n2: nat)
    requires
        1 <= n2,
    ensures
        1 <= isqrt_spec(n2),
{
    crate::fixed::lemma_isqrt_spec_bounds(n2);
    let s = isqrt_spec(n2) as int;
    if s == 0 {
        assert((s + 1) * (s + 1) == 1) by (nonlinear_arith)
            requires
                s == 0;
    }
}

/// Every unit face normal has its components in `[-1000, 1000]`.
pub proof fn lemma_face_normal_bounds(p0: Vec3Milli, p1: Vec3Milli, p2: Vec3Milli)
    ensures
        -1000 <= face_normal_spec(p0, p1, p2).0 <= 1000,
        -1000 <= face_normal_spec(p0, p1, p2).1 <= 1000,
        -1000 <= face_normal_spec(p0, p1, p2).2 <= 1000,
{
    let c = cross3(sub3(p1, p0), sub3(p2, p0));
    let n2 = norm_sq3(c);
    if n2 > 0 {
        assert(c.0 * c.0 <= n2 && c.1 * c.1 <= n2 && c.2 * c.2 <= n2) by (nonlinear_arith)
            requires
                n2 == c.0 * c.0 + c.1 * c.1 + c.2 * c.2;
        lemma_component_le_isqrt(c.0, n2 as nat);
        lemma_component_le_isqrt(c.1, n2 as nat);
        lemma_component_le_isqrt(c.2, n2 as nat);
        lemma_isqrt_pos(n2 as nat);
        let n = isqrt_spec(n2 as nat) as int;
        lemma_scale_unit_bounds(c.0, n);
        lemma_scale_unit_bounds(c.1, n);
        lemma_scale_unit_bounds(c.2, n);
    }
}

/// The normal accumulator grows by at most one unit per triangle.
#[verifier::rlimit(50)]
pub proof fn lemma_acc_normal_bound(
    seed: u32,
    config: TerrainConfig,
    cx: int,
    cz: int,
    vi: int,
    t: nat,
)
    ensures
        abs(acc_normal_upto(seed, config, cx, cz, vi, t).0) <= 1000 + 3000 * t,
        abs(acc_normal_upto(seed, config, cx, cz, vi, t).1) <= 1000 + 3000 * t,
        abs(acc_normal_upto(seed, config, cx, cz, vi, t).2) <= 1000 + 3000 * t,
    decreases t,
{
    if t != 0 {
        let res = config.resolution as int;
        lemma_acc_normal_bound(seed, config, cx, cz, vi, (t - 1) as nat);
        let prev = acc_normal_upto(seed, config, cx, cz, vi, (t - 1) as nat);
        let f = tri_face_normal(seed, config, cx, cz, t - 1);
        lemma_face_normal_bounds(
            vertex_pos_spec(seed, config, cx, cz, index_entry(res, 3 * (t - 1))),
            vertex_pos_spec(seed, config, cx, cz, index_entry(res, 3 * (t - 1) + 1)),
            vertex_pos_spec(seed, config, cx, cz, index_entry(res, 3 * (t - 1) + 2)),
        );
        assert(abs(f.0) <= 1000 && abs(f.1) <= 1000 && abs(f.2) <= 1000);
        assert(abs(prev.0) <= 1000 + 3000 * (t - 1));
        assert(acc_normal_upto(seed, config, cx, cz, vi, t).0 - prev.0 == 0
            || acc_normal_upto(seed, config, cx, cz, vi, t).0 - prev.0 == f.0
            || acc_normal_upto(seed, config, cx, cz, vi, t).0 - prev.0 == 2 * f.0
            || acc_normal_upto(seed, config, cx, cz, vi, t).0 - prev.0 == 3 * f.0);
        assert(acc_normal_upto(seed, config, cx, cz, vi, t).1 - prev.1 == 0
            || acc_normal_upto(seed, config, cx, cz, vi, t).1 - prev.1 == f.1
            || acc_normal_upto(seed, config, cx, cz, vi, t).1 - prev.1 == 2 * f.1
            || acc_normal_upto(seed, config, cx, cz, vi, t).1 - prev.1 == 3 * f.1);
        assert(acc_normal_upto(seed, config, cx, cz, vi, t).2 - prev.2 == 0
            || acc_normal_upto(seed, config, cx, cz, vi, t).2 - prev.2 == f.2
            || acc_normal_upto(seed, config, cx, cz, vi, t).2 - prev.2 == 2 * f.2
            || acc_normal_upto(seed, config, cx, cz, vi, t).2 - prev.2 == 3 * f.2);
    }
}

/// Bounds of one built vertex: its column and row pin its world square, and
/// its elevation respects the amplitude.
pub proof fn lemma_vertex_pos_bounds(seed: u32, config: TerrainConfig, cx: int, cz: int, vi: int)
    requires
        config.wf(),
        abs(cx) <= MAX_CHUNK_COORD,
        abs(cz) <= MAX_CHUNK_COORD,
        0 <= vi < vertex_count(config.resolution as int),
    ensures
        vertex_pos_spec(seed, config, cx, cz, vi).x as int == vertex_world_x_milli(
            config,
            cx,
            grid_col(config.resolution as int, vi),
        ),
        vertex_pos_spec(seed, config, cx, cz, vi).z as int == vertex_world_z_milli(
            config,
            cz,
            grid_row(config.resolution as int, vi),
        ),
        cx * config.chunk_size_milli <= vertex_pos_spec(seed, config, cx, cz, vi).x as int
            <= cx * config.chunk_size_milli + config.chunk_size_milli,
        cz * config.chunk_size_milli <= vertex_pos_spec(seed, config, cx, cz, vi).z as int
            <= cz * config.chunk_size_milli + config.chunk_size_milli,
        -config.height_scale_milli <= vertex_pos_spec(seed, config, cx, cz, vi).y as int
            <= config.height_scale_milli,
{
    reveal(vertex_pos_spec);
    let res = config.resolution as int;
    lemma_grid_coords_range(res, vi);
    let col = grid_col(res, vi);
    let row = grid_row(res, vi);
    lemma_axis_offset_range(config, col);
    lemma_axis_offset_range(config, row);
    lemma_vertex_world_in_range(config, cx, col);
    lemma_vertex_world_in_range(config, cz, row);
    let wx = vertex_world_x_milli(config, cx, col);
    let wz = vertex_world_z_milli(config, cz, row);
    crate::heightfield::lemma_elevation_bounds(seed, config, wx, wz);
}

/// Seam continuity: chunks that share an edge build bit-identical vertex
/// positions along it, because the shared grid lines land on the very same
/// world coordinates and the height field is a pure function of them.
///
/// Column `res` of chunk `(cx, cz)` coincides with column `0` of
/// `(cx + 1, cz)`, row by row; and row `res` coincides with row `0` of
/// `(cx, cz + 1)`, column by column.
pub proof fn lemma_seam_continuity(seed: u32, config: TerrainConfig, cx: int, cz: int, g: int)
    requires
        config.wf(),
        0 <= g <= config.resolution,
    ensures
        vertex_pos_spec(seed, config, cx, cz, g * (config.resolution + 1) + config.resolution)
            == vertex_pos_spec(seed, config, cx + 1, cz, g * (config.resolution + 1)),
        vertex_pos_spec(
            seed,
            config,
            cx,
            cz,
            (config.resolution as int) * (config.resolution + 1) + g,
        ) == vertex_pos_spec(seed, config, cx, cz + 1, g),
{
    reveal(vertex_pos_spec);
    let res = config.resolution as int;
    let cs = config.chunk_size_milli as int;
    lemma_grid_index_roundtrip(res, g, res);
    lemma_grid_index_roundtrip(res, g, 0);
    lemma_grid_index_roundtrip(res, res, g);
    lemma_grid_index_roundtrip(res, 0, g);
    lemma_axis_offset_full(config);
    assert((cx + 1) * cs == cx * cs + cs) by (nonlinear_arith);
    assert((cz + 1) * cs == cz * cs + cs) by (nonlinear_arith);
}

/// Grid offsets grow with the grid line.
pub proof fn lemma_axis_offset_monotone(config: TerrainConfig, g: int)
    requires
        config.wf(),
        0 <= g,
    ensures
        axis_offset_milli(config, g) <= axis_offset_milli(config, g + 1),
{
    let res = config.resolution as int;
    let cs = config.chunk_size_milli as int;
    assert(g * cs <= (g + 1) * cs) by (nonlinear_arith)
        requires
            0 < cs;
    lemma_div_is_ordered(g * cs, (g + 1) * cs, res);
}

/// Consistent winding: every triangle of the chunk grid faces upward — the
/// vertical component of its unit face normal is never negative.
pub proof fn lemma_triangle_faces_upward(seed: u32, config: TerrainConfig, cx: int, cz: int, t: int)
    requires
        config.wf(),
        abs(cx) <= MAX_CHUNK_COORD,
        abs(cz) <= MAX_CHUNK_COORD,
        0 <= t < triangle_count(config.resolution as int),
    ensures
        tri_face_normal(seed, config, cx, cz, t).1 >= 0,
{
    let res = config.resolution as int;
    let m = t / 2;
    let parity = t % 2;
    vstd::arithmetic::div_mod::lemma_fundamental_div_mod(t, 2);
    lemma_mod_bound(t, 2);
    assert(t == 2 * m + parity);
    assert(0 <= m < res * res) by (nonlinear_arith)
        requires
            0 <= 2 * m <= t < 2 * res * res,
            t == 2 * m + parity,
            0 <= parity < 2;
    let cell_x = m % res;
    let cell_z = m / res;
    lemma_mod_bound(m, res);
    vstd::arithmetic::div_mod::lemma_fundamental_div_mod(m, res);
    assert(0 <= cell_z < res) by (nonlinear_arith)
        requires
            m == res * cell_z + cell_x,
            0 <= m < res * res,
            0 <= cell_x < res,
            1 <= res;
    let base = cell_z * (res + 1) + cell_x;
    lemma_grid_index_roundtrip(res, cell_z, cell_x);
    lemma_grid_index_roundtrip(res, cell_z, cell_x + 1);
    lemma_grid_index_roundtrip(res, cell_z + 1, cell_x);
    lemma_grid_index_roundtrip(res, cell_z + 1, cell_x + 1);
    assert((cell_z + 1) * (res + 1) + cell_x == base + res + 1) by (nonlinear_arith)
        requires
            base == cell_z * (res + 1) + cell_x;
    // The three corner indices of triangle `t`.
    let i0 = index_entry(res, 3 * t);
    let i1 = index_entry(res, 3 * t + 1);
    let i2 = index_entry(res, 3 * t + 2);
    if parity == 0 {
        lemma_cell_entry_decompose(m, 0);
        lemma_cell_entry_decompose(m, 1);
        lemma_cell_entry_decompose(m, 2);
        assert(3 * t == 6 * m && 3 * t + 1 == 6 * m + 1 && 3 * t + 2 == 6 * m + 2);
        assert(i0 == base && i1 == base + res + 1 && i2 == base + 1);
    } else {
        lemma_cell_entry_decompose(m, 3);
        lemma_cell_entry_decompose(m, 4);
        lemma_cell_entry_decompose(m, 5);
        assert(3 * t == 6 * m + 3 && 3 * t + 1 == 6 * m + 4 && 3 * t + 2 == 6 * m + 5);
        assert(i0 == base + 1 && i1 == base + res + 1 && i2 == base + res + 2);
    }
    lemma_vertex_pos_bounds(seed, config, cx, cz, i0);
    lemma_vertex_pos_bounds(seed, config, cx, cz, i1);
    lemma_vertex_pos_bounds(seed, config, cx, cz, i2);
    let p0 = vertex_pos_spec(seed, config, cx, cz, i0);
    let p1 = vertex_pos_spec(seed, config, cx, cz, i1);
    let p2 = vertex_pos_spec(seed, config, cx, cz, i2);
    let gx = axis_offset_milli(config, cell_x + 1) - axis_offset_milli(config, cell_x);
    let gz = axis_offset_milli(config, cell_z + 1) - axis_offset_milli(config, cell_z);
    lemma_axis_offset_monotone(config, cell_x);
    lemma_axis_offset_monotone(config, cell_z);
    assert(gx >= 0 && gz >= 0);
    let e1 = sub3(p1, p0);
    let e2 = sub3(p2, p0);
    let c = cross3(e1, e2);
    if parity == 0 {
        // p0 and p1 share a column; p0 and p2 share a row.
        assert(e1.0 == 0 && e1.2 == gz);
        assert(e2.0 == gx && e2.2 == 0);
        assert(c.1 == gz * gx - 0 * e2.2);
        assert(c.1 >= 0) by (nonlinear_arith)
            requires
                c.1 == gz * gx - 0 * e2.2,
                gx >= 0,
                gz >= 0;
    } else {
        assert(e1.0 == -gx && e1.2 == gz);
        assert(e2.0 == 0 && e2.2 == gz);
        assert(c.1 == gz * 0 - (-gx) * gz);
        assert(c.1 >= 0) by (nonlinear_arith)
            requires
                c.1 == gz * 0 - (-gx) * gz,
                gx >= 0,
                gz >= 0;
    }
    let n2 = norm_sq3(c);
    if n2 > 0 {
        crate::fixed::lemma_isqrt_spec_bounds(n2 as nat);
        let n = isqrt_spec(n2 as nat) as int;
        if n == 0 {
            assert((n + 1) * (n + 1) == 1) by (nonlinear_arith)
                requires
                    n == 0;
        }
        assert(0 <= c.1 * 1000) by (nonlinear_arith)
            requires
                c.1 >= 0;
        lemma_div_is_ordered(0, c.1 * 1000, n);
    }
}

/// The accumulated normal of any vertex never points downward: it starts
/// at zero and faces only ever add non-negative height.
pub proof fn lemma_acc_normal_upward(
    seed: u32,
    config: TerrainConfig,
    cx: int,
    cz: int,
    vi: int,
    t: nat,
)
    requires
        config.wf(),
        abs(cx) <= MAX_CHUNK_COORD,
        abs(cz) <= MAX_CHUNK_COORD,
        t <= triangle_count(config.resolution as int),
    ensures
        acc_normal_upto(seed, config, cx, cz, vi, t).1 >= 0,
    decreases t,
{
    if t != 0 {
        lemma_acc_normal_upward(seed, config, cx, cz, vi, (t - 1) as nat);
        lemma_triangle_faces_upward(seed, config, cx, cz, t - 1);
    }
}

/// The smoothed surface faces upward: no vertex normal points below the
/// horizon.
pub proof fn lemma_vertex_normal_upward(seed: u32, config: TerrainConfig, cx: int, cz: int, vi: int)
    requires
        config.wf(),
        abs(cx) <= MAX_CHUNK_COORD,
        abs(cz) <= MAX_CHUNK_COORD,
    ensures
        vertex_normal_spec(seed, config, cx, cz, vi).y >= 0,
{
    let res = config.resolution as int;
    let tc = triangle_count(res) as nat;
    assert(triangle_count(res) >= 0) by (nonlinear_arith)
        requires
            res >= 1;
    lemma_acc_normal_upward(seed, config, cx, cz, vi, tc);
    let acc = acc_normal_upto(seed, config, cx, cz, vi, tc);
    let n2 = norm_sq3(acc);
    assert(n2 >= 0) by (nonlinear_arith)
        requires
            n2 == acc.0 * acc.0 + acc.1 * acc.1 + acc.2 * acc.2;
    if n2 > 0 {
        crate::fixed::lemma_isqrt_spec_bounds(n2 as nat);
        let n = isqrt_spec(n2 as nat) as int;
        if n == 0 {
            assert((n + 1) * (n + 1) == 1) by (nonlinear_arith)
                requires
                    n == 0;
        }
        assert(0 <= acc.1 * 1000) by (nonlinear_arith)
            requires
                acc.1 >= 0;
        lemma_div_is_ordered(0, acc.1 * 1000, n);
        assert(acc.1 * acc.1 <= n2) by (nonlinear_arith)
            requires
                n2 == acc.0 * acc.0 + acc.1 * acc.1 + acc.2 * acc.2;
        lemma_component_le_isqrt(acc.1, n2 as nat);
        lemma_scale_unit_bounds(acc.1, n);
    }
}

} // verus!
