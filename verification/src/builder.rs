//! The chunk mesh builder: from a chunk coordinate, the configuration and
//! the height field to a complete [`TerrainMesh`] and its material color.
//!
//! Building is a pure function of its inputs — the ensures of
//! [`build_chunk`] pins every vertex, index, normal and the material to the
//! specification in [`crate::mesh`], so two builds of the same chunk are
//! bit-identical.

use vstd::prelude::*;

verus! {

use vstd::math::abs;
use crate::chunk::{TerrainChunk, MAX_CHUNK_COORD};
use crate::config::TerrainConfig;
use crate::heightfield::HeightField;
use crate::material::{classify_spec, classify_material, height_factor_milli, MaterialColor};
use crate::mesh::{
    acc_normal_upto, avg_height_spec, axis_offset_milli, grid_col, grid_row, index_count,
    index_entry, lemma_acc_normal_bound, lemma_axis_offset_range, lemma_cell_entry_decompose,
    lemma_component_le_isqrt, lemma_grid_coords_range, lemma_index_entry_range, lemma_isqrt_pos,
    lemma_scale_unit_bounds,
    lemma_vertex_pos_bounds, lemma_vertex_world_in_range, mesh_matches, triangle_count, uv_spec,
    vertex_count, vertex_normal_spec, vertex_pos_spec, TerrainMesh, UvMilli, Vec3Milli,
};
use crate::fixed::{floor_div, isqrt};

/// Equality of an accumulator entry with its specification after `t`
/// triangles.
spec fn acc_entry_ok(
    a: Vec3Milli,
    seed: u32,
    config: TerrainConfig,
    cx: int,
    cz: int,
    vi: int,
    t: nat,
) -> bool {
    let g = acc_normal_upto(seed, config, cx, cz, vi, t);
    a.x == g.0 && a.y == g.1 && a.z == g.2
}

/// One materialized chunk as the builder hands it to the render substrate:
/// the chunk's identity, its mesh, and its flat material color.
pub struct ChunkBuild {
    pub chunk: TerrainChunk,
    pub mesh: TerrainMesh,
    pub material: MaterialColor,
}

/// A build output is exactly what the seed, the configuration and the chunk
/// coordinate determine: the pinned mesh geometry and the material
/// classified from the chunk's average elevation.
pub open spec fn chunk_build_matches(
    b: ChunkBuild,
    seed: u32,
    config: TerrainConfig,
    cx: int,
    cz: int,
) -> bool {
    &&& b.chunk.chunk_x as int == cx
    &&& b.chunk.chunk_z as int == cz
    &&& mesh_matches(b.mesh, seed, config, cx, cz)
    &&& b.material == classify_spec(
        height_factor_milli(
            avg_height_spec(seed, config, cx, cz),
            config.height_scale_milli as int,
        ),
    )
}

/// Generates the vertex grid: positions row-major with sampled elevations,
/// and per-vertex texture coordinates.
#[verifier::loop_isolation(false)]
fn gen_vertices(field: &HeightField, config: &TerrainConfig, cx: i32, cz: i32) -> (out: (
    Vec<Vec3Milli>,
    Vec<UvMilli>,
))
    requires
        config.wf(),
        abs(cx as int) <= MAX_CHUNK_COORD,
        abs(cz as int) <= MAX_CHUNK_COORD,
    ensures
        out.0@.len() == vertex_count(config.resolution as int),
        forall|vi: int|
            0 <= vi < vertex_count(config.resolution as int) ==> out.0@[vi] == vertex_pos_spec(
                field.seed,
                *config,
                cx as int,
                cz as int,
                vi,
            ),
        out.1@.len() == vertex_count(config.resolution as int),
        forall|vi: int|
            0 <= vi < vertex_count(config.resolution as int) ==> out.1@[vi] == uv_spec(
                *config,
                vi,
            ),
{
    let res: usize = config.resolution as usize;
    proof {
        assert((res + 1) * (res + 1) <= 65536) by (nonlinear_arith)
            requires
                res <= 255;
    }
    let vcount: usize = (res + 1) * (res + 1);
    let mut positions: Vec<Vec3Milli> = Vec::new();
    let mut uvs: Vec<UvMilli> = Vec::new();
    let mut vi: usize = 0;
    while vi < vcount
        invariant
            vi <= vcount,
            positions@.len() == vi,
            uvs@.len() == vi,
            forall|j: int|
                0 <= j < vi ==> positions@[j] == vertex_pos_spec(
                    field.seed,
                    *config,
                    cx as int,
                    cz as int,
                    j,
                ),
            forall|j: int| 0 <= j < vi ==> uvs@[j] == uv_spec(*config, j),
        decreases vcount - vi,
    {
        let col: usize = vi % (res + 1);
        let row: usize = vi / (res + 1);
        proof {
            lemma_grid_coords_range(res as int, vi as int);
            assert(col as int == grid_col(res as int, vi as int));
            assert(row as int == grid_row(res as int, vi as int));
            lemma_axis_offset_range(*config, col as int);
            lemma_axis_offset_range(*config, row as int);
            lemma_vertex_world_in_range(*config, cx as int, col as int);
            lemma_vertex_world_in_range(*config, cz as int, row as int);
            assert(col * config.chunk_size_milli <= 255_000_000) by (nonlinear_arith)
                requires
                    col <= 255,
                    0 < config.chunk_size_milli <= 1_000_000;
            assert(row * config.chunk_size_milli <= 255_000_000) by (nonlinear_arith)
                requires
                    row <= 255,
                    0 < config.chunk_size_milli <= 1_000_000;
            assert(abs((cx as int) * config.chunk_size_milli) <= 31_000_000_000_000)
                by (nonlinear_arith)
                requires
                    abs(cx as int) <= MAX_CHUNK_COORD,
                    0 < config.chunk_size_milli <= 1_000_000;
            assert(abs((cz as int) * config.chunk_size_milli) <= 31_000_000_000_000)
                by (nonlinear_arith)
                requires
                    abs(cz as int) <= MAX_CHUNK_COORD,
                    0 < config.chunk_size_milli <= 1_000_000;
            assert(col * 1000 <= 255_000) by (nonlinear_arith)
                requires
                    col <= 255;
            assert(row * 1000 <= 255_000) by (nonlinear_arith)
                requires
                    row <= 255;
        }
        let off_x: i64 = (col as i64) * config.chunk_size_milli / (res as i64);
        let off_z: i64 = (row as i64) * config.chunk_size_milli / (res as i64);
        let wx: i64 = (cx as i64) * config.chunk_size_milli + off_x;
        let wz: i64 = (cz as i64) * config.chunk_size_milli + off_z;
        let h: i64 = field.sample_milli(config, wx, wz);
        positions.push(Vec3Milli { x: wx, y: h, z: wz });
        let uu: usize = col * 1000 / res;
        let vv: usize = row * 1000 / res;
        uvs.push(UvMilli { u: uu as i64, v: vv as i64 });
        proof {
            reveal(vertex_pos_spec);
            assert(off_x as int == axis_offset_milli(*config, col as int));
            assert(off_z as int == axis_offset_milli(*config, row as int));
            assert(positions@[vi as int] == vertex_pos_spec(
                field.seed,
                *config,
                cx as int,
                cz as int,
                vi as int,
            ));
            assert(uvs@[vi as int] == uv_spec(*config, vi as int));
        }
        vi = vi + 1;
    }
    (positions, uvs)
}

/// Generates the triangle list: two upward-wound triangles per grid cell,
/// cells in row-major order.
#[verifier::loop_isolation(false)]
fn gen_indices(config: &TerrainConfig) -> (indices: Vec<usize>)
    requires
        config.wf(),
    ensures
        indices@.len() == index_count(config.resolution as int),
        forall|k: int|
            0 <= k < index_count(config.resolution as int) ==> indices@[k] as int == index_entry(
                config.resolution as int,
                k,
            ),
        forall|k: int|
            0 <= k < index_count(config.resolution as int) ==> 0 <= #[trigger] indices@[k]
                < vertex_count(config.resolution as int),
{
    let res: usize = config.resolution as usize;
    proof {
        assert(res * res <= 65025 && 6 * (res * res) <= 390_150) by (nonlinear_arith)
            requires
                1 <= res <= 255;
    }
    let cell_total: usize = res * res;
    let mut indices: Vec<usize> = Vec::new();
    let mut cell: usize = 0;
    while cell < cell_total
        invariant
            cell <= cell_total,
            indices@.len() == 6 * cell,
            forall|k: int|
                0 <= k < 6 * cell ==> indices@[k] as int == index_entry(res as int, k),
            forall|k: int|
                0 <= k < 6 * cell ==> 0 <= #[trigger] indices@[k] < vertex_count(res as int),
        decreases cell_total - cell,
    {
        let cell_x: usize = cell % res;
        let cell_z: usize = cell / res;
        proof {
            vstd::arithmetic::div_mod::lemma_mod_bound(cell as int, res as int);
            vstd::arithmetic::div_mod::lemma_fundamental_div_mod(cell as int, res as int);
            assert(cell_z < res) by (nonlinear_arith)
                requires
                    cell as int == (res as int) * (cell_z as int) + cell_x as int,
                    cell < res * res,
                    0 <= cell_x < res,
                    1 <= res;
            assert((cell_z as int) * ((res as int) + 1) + (cell_x as int) + (res as int) + 2
                < (res as int + 1) * (res as int + 1)) by (nonlinear_arith)
                requires
                    0 <= cell_x < res,
                    0 <= cell_z < res,
                    1 <= res;
        }
        proof {
            assert(cell_z * (res + 1) + cell_x + res + 2 < 65536) by (nonlinear_arith)
                requires
                    cell_z < res,
                    cell_x < res,
                    1 <= res <= 255;
        }
        let base: usize = cell_z * (res + 1) + cell_x;
        indices.push(base);
        indices.push(base + res + 1);
        indices.push(base + 1);
        indices.push(base + 1);
        indices.push(base + res + 1);
        indices.push(base + res + 2);
        proof {
            let resi = res as int;
            let c = cell as int;
            assert(c % resi == cell_x as int && c / resi == cell_z as int);
            assert forall|k: int| 6 * c <= k < 6 * c + 6 implies #[trigger] indices@[k] as int
                == index_entry(resi, k) by {
                let r = k - 6 * c;
                lemma_cell_entry_decompose(c, r);
                assert(k / 6 == c && k % 6 == r);
            }
            assert forall|k: int| 0 <= k < 6 * c + 6 implies 0 <= #[trigger] indices@[k]
                < vertex_count(resi) by {
                if k >= 6 * c {
                    assert(6 * c + 6 <= 6 * resi * resi) by (nonlinear_arith)
                        requires
                            c < resi * resi;
                    lemma_index_entry_range(resi, k);
                }
            }
        }
        cell = cell + 1;
    }
    proof {
        assert(indices@.len() == index_count(res as int)) by (nonlinear_arith)
            requires
                indices@.len() == 6 * (cell_total as int),
                cell_total as int == (res as int) * (res as int);
    }
    indices
}

/// Product of two edge components stays within the cross-term budget.
proof fn lemma_cross_term_bound(a: int, b: int)
    requires
        abs(a) <= 2_000_000,
        abs(b) <= 2_000_000,
    ensures
        abs(a * b) <= 4_000_000_000_000,
{
    assert(abs(a * b) == abs(a) * abs(b)) by (nonlinear_arith);
    assert(abs(a) * abs(b) <= 2_000_000 * 2_000_000) by (nonlinear_arith)
        requires
            0 <= abs(a) <= 2_000_000,
            0 <= abs(b) <= 2_000_000;
}

/// A bounded value has a bounded, non-negative square.
proof fn lemma_square_bound(c: int, bound: int)
    requires
        abs(c) <= bound,
        0 <= bound,
    ensures
        0 <= c * c <= bound * bound,
{
    assert(0 <= c * c && c * c <= bound * bound) by (nonlinear_arith)
        requires
            abs(c) <= bound,
            0 <= bound,
            abs(c) == if c >= 0 { c } else { -c },
    ;
}

/// The unit face normal of one triangle, exactly
/// [`crate::mesh::face_normal_spec`] of its corner positions.
#[verifier::rlimit(60)]
fn face_normal(p0: Vec3Milli, p1: Vec3Milli, p2: Vec3Milli) -> (f: Vec3Milli)
    requires
        abs(p1.x - p0.x) <= 2_000_000,
        abs(p1.y - p0.y) <= 2_000_000,
        abs(p1.z - p0.z) <= 2_000_000,
        abs(p2.x - p0.x) <= 2_000_000,
        abs(p2.y - p0.y) <= 2_000_000,
        abs(p2.z - p0.z) <= 2_000_000,
    ensures
        (f.x as int, f.y as int, f.z as int) == crate::mesh::face_normal_spec(p0, p1, p2),
        abs(f.x as int) <= 1000,
        abs(f.y as int) <= 1000,
        abs(f.z as int) <= 1000,
{
    let e1x: i64 = p1.x - p0.x;
    let e1y: i64 = p1.y - p0.y;
    let e1z: i64 = p1.z - p0.z;
    let e2x: i64 = p2.x - p0.x;
    let e2y: i64 = p2.y - p0.y;
    let e2z: i64 = p2.z - p0.z;
    proof {
        lemma_cross_term_bound(e1y as int, e2z as int);
        lemma_cross_term_bound(e1z as int, e2y as int);
        lemma_cross_term_bound(e1z as int, e2x as int);
        lemma_cross_term_bound(e1x as int, e2z as int);
        lemma_cross_term_bound(e1x as int, e2y as int);
        lemma_cross_term_bound(e1y as int, e2x as int);
    }
    let c0: i64 = e1y * e2z - e1z * e2y;
    let c1: i64 = e1z * e2x - e1x * e2z;
    let c2: i64 = e1x * e2y - e1y * e2x;
    proof {
        lemma_square_bound(c0 as int, 8_000_000_000_000);
        lemma_square_bound(c1 as int, 8_000_000_000_000);
        lemma_square_bound(c2 as int, 8_000_000_000_000);
    }
    let n2: i128 = (c0 as i128) * (c0 as i128) + (c1 as i128) * (c1 as i128) + (c2 as i128) * (
    c2 as i128);
    proof {
        assert(crate::mesh::sub3(p1, p0) == ((e1x as int, e1y as int, e1z as int)));
        assert(crate::mesh::sub3(p2, p0) == ((e2x as int, e2y as int, e2z as int)));
        assert(n2 as int == crate::mesh::norm_sq3(
            crate::mesh::cross3(
                (e1x as int, e1y as int, e1z as int),
                (e2x as int, e2y as int, e2z as int),
            ),
        ));
    }
    if n2 == 0 {
        Vec3Milli { x: 0, y: 0, z: 0 }
    } else {
        let n: u64 = isqrt(n2 as u128);
        proof {
            assert(n2 as u128 as nat == n2 as nat);
            lemma_isqrt_pos(n2 as nat);
            lemma_component_le_isqrt(c0 as int, n2 as nat);
            lemma_component_le_isqrt(c1 as int, n2 as nat);
            lemma_component_le_isqrt(c2 as int, n2 as nat);
            if n > 200_000_000_000_000 {
                assert(n * n > 192_000_000_000_000_000_000_000_000) by (nonlinear_arith)
                    requires
                        n > 200_000_000_000_000;
                assert(false);
            }
            lemma_scale_unit_bounds(c0 as int, n as int);
            lemma_scale_unit_bounds(c1 as int, n as int);
            lemma_scale_unit_bounds(c2 as int, n as int);
        }
        let ni: i64 = n as i64;
        Vec3Milli {
            x: floor_div(c0 * 1000, ni),
            y: floor_div(c1 * 1000, ni),
            z: floor_div(c2 * 1000, ni),
        }
    }
}

/// Renormalizes an accumulated normal to fixed-point unit length, exactly
/// [`crate::mesh::unit3_milli`] of it.
#[verifier::rlimit(60)]
fn renormalize(a: Vec3Milli) -> (out: Vec3Milli)
    requires
        abs(a.x as int) <= 400_000_000,
        abs(a.y as int) <= 400_000_000,
        abs(a.z as int) <= 400_000_000,
    ensures
        (out.x as int, out.y as int, out.z as int) == crate::mesh::unit3_milli(
            (a.x as int, a.y as int, a.z as int),
        ),
{
    proof {
        lemma_square_bound(a.x as int, 400_000_000);
        lemma_square_bound(a.y as int, 400_000_000);
        lemma_square_bound(a.z as int, 400_000_000);
    }
    let n2: i64 = a.x * a.x + a.y * a.y + a.z * a.z;
    if n2 == 0 {
        Vec3Milli { x: 0, y: 1000, z: 0 }
    } else {
        let n: u64 = isqrt(n2 as u128);
        proof {
            assert(n2 as u128 as nat == n2 as nat);
            lemma_isqrt_pos(n2 as nat);
            lemma_component_le_isqrt(a.x as int, n2 as nat);
            lemma_component_le_isqrt(a.y as int, n2 as nat);
            lemma_component_le_isqrt(a.z as int, n2 as nat);
            if n > 1_000_000_000 {
                assert(n * n > 1_000_000_000_000_000_000) by (nonlinear_arith)
                    requires
                        n > 1_000_000_000;
                assert(false);
            }
            lemma_scale_unit_bounds(a.x as int, n as int);
            lemma_scale_unit_bounds(a.y as int, n as int);
            lemma_scale_unit_bounds(a.z as int, n as int);
        }
        let ni: i64 = n as i64;
        Vec3Milli {
            x: floor_div(a.x * 1000, ni),
            y: floor_div(a.y * 1000, ni),
            z: floor_div(a.z * 1000, ni),
        }
    }
}

/// Computes the smoothed per-vertex normals: starting from zero, every
/// triangle's unit face normal is accumulated into its three corner
/// vertices, and each accumulator is renormalized at the end.
#[verifier::loop_isolation(false)]
#[verifier::rlimit(60)]
fn gen_normals(
    field: &HeightField,
    config: &TerrainConfig,
    cx: i32,
    cz: i32,
    positions: &Vec<Vec3Milli>,
    indices: &Vec<usize>,
) -> (normals: Vec<Vec3Milli>)
    requires
        config.wf(),
        abs(cx as int) <= MAX_CHUNK_COORD,
        abs(cz as int) <= MAX_CHUNK_COORD,
        positions@.len() == vertex_count(config.resolution as int),
        forall|vi: int|
            0 <= vi < vertex_count(config.resolution as int) ==> positions@[vi]
                == vertex_pos_spec(field.seed, *config, cx as int, cz as int, vi),
        indices@.len() == index_count(config.resolution as int),
        forall|k: int|
            0 <= k < index_count(config.resolution as int) ==> #[trigger] indices@[k] as int
                == index_entry(config.resolution as int, k),
        forall|k: int|
            0 <= k < index_count(config.resolution as int) ==> 0 <= #[trigger] indices@[k]
                < vertex_count(config.resolution as int),
    ensures
        normals@.len() == vertex_count(config.resolution as int),
        forall|vi: int|
            0 <= vi < vertex_count(config.resolution as int) ==> normals@[vi]
                == vertex_normal_spec(field.seed, *config, cx as int, cz as int, vi),
{
    let ghost seed = field.seed;
    let ghost cfg = *config;
    let ghost cxi = cx as int;
    let ghost czi = cz as int;
    let res: usize = config.resolution as usize;
    proof {
        assert((res + 1) * (res + 1) <= 65536 && res * res <= 65025) by (nonlinear_arith)
            requires
                1 <= res <= 255;
        assert(2 * (res * res) == triangle_count(res as int)) by (nonlinear_arith);
    }
    let vcount: usize = (res + 1) * (res + 1);
    let tri_total: usize = 2 * (res * res);
    let mut acc: Vec<Vec3Milli> = Vec::new();
    let mut i: usize = 0;
    while i < vcount
        invariant
            i <= vcount,
            acc@.len() == i,
            forall|v: int| 0 <= v < i ==> acc@[v] == (Vec3Milli { x: 0, y: 0, z: 0 }),
        decreases vcount - i,
    {
        acc.push(Vec3Milli { x: 0, y: 0, z: 0 });
        i = i + 1;
    }
    let mut t: usize = 0;
    while t < tri_total
        invariant
            t <= tri_total,
            acc@.len() == vcount,
            forall|v: int|
                0 <= v < vcount ==> acc_entry_ok(
                    #[trigger] acc@[v],
                    seed,
                    cfg,
                    cxi,
                    czi,
                    v,
                    t as nat,
                ),
        decreases tri_total - t,
    {
        proof {
            assert(3 * t + 2 < 6 * (res * res)) by (nonlinear_arith)
                requires
                    t < 2 * (res * res);
            assert(6 * (res * res) == index_count(res as int)) by (nonlinear_arith);
        }
        let i0: usize = indices[3 * t];
        let i1: usize = indices[3 * t + 1];
        let i2: usize = indices[3 * t + 2];
        let p0: Vec3Milli = positions[i0];
        let p1: Vec3Milli = positions[i1];
        let p2: Vec3Milli = positions[i2];
        proof {
            lemma_vertex_pos_bounds(seed, cfg, cxi, czi, i0 as int);
            lemma_vertex_pos_bounds(seed, cfg, cxi, czi, i1 as int);
            lemma_vertex_pos_bounds(seed, cfg, cxi, czi, i2 as int);
        }
        let face: Vec3Milli = face_normal(p0, p1, p2);
        proof {
            lemma_acc_normal_bound(seed, cfg, cxi, czi, i0 as int, t as nat);
            lemma_acc_normal_bound(seed, cfg, cxi, czi, i1 as int, t as nat);
            lemma_acc_normal_bound(seed, cfg, cxi, czi, i2 as int, t as nat);
            assert(1000 + 3000 * (t as int) <= 391_000_000) by (nonlinear_arith)
                requires
                    t <= 130_050;
        }
        let ghost acc_before = acc@;
        let a0: Vec3Milli = acc[i0];
        acc.set(i0, Vec3Milli { x: a0.x + face.x, y: a0.y + face.y, z: a0.z + face.z });
        let a1: Vec3Milli = acc[i1];
        acc.set(i1, Vec3Milli { x: a1.x + face.x, y: a1.y + face.y, z: a1.z + face.z });
        let a2: Vec3Milli = acc[i2];
        acc.set(i2, Vec3Milli { x: a2.x + face.x, y: a2.y + face.y, z: a2.z + face.z });
        proof {
            let fg = crate::mesh::tri_face_normal(seed, cfg, cxi, czi, t as int);
            assert(face.x == fg.0 && face.y == fg.1 && face.z == fg.2);
            assert forall|v: int|
                0 <= v < vcount implies acc_entry_ok(
                #[trigger] acc@[v],
                seed,
                cfg,
                cxi,
                czi,
                v,
                (t + 1) as nat,
            ) by {
                let prev = acc_normal_upto(seed, cfg, cxi, czi, v, t as nat);
                assert(acc_before[v].x == prev.0 && acc_before[v].y == prev.1 && acc_before[v].z
                    == prev.2);
                assert(((t + 1) as nat - 1) as nat == t as nat);
            }
        }
        t = t + 1;
    }
    let mut normals: Vec<Vec3Milli> = Vec::new();
    let mut v: usize = 0;
    while v < vcount
        invariant
            v <= vcount,
            normals@.len() == v,
            acc@.len() == vcount,
            forall|u: int|
                0 <= u < vcount ==> acc_entry_ok(
                    #[trigger] acc@[u],
                    seed,
                    cfg,
                    cxi,
                    czi,
                    u,
                    triangle_count(res as int) as nat,
                ),
            forall|u: int|
                0 <= u < v ==> normals@[u] == vertex_normal_spec(seed, cfg, cxi, czi, u),
        decreases vcount - v,
    {
        let a: Vec3Milli = acc[v];
        proof {
            lemma_acc_normal_bound(
                seed,
                cfg,
                cxi,
                czi,
                v as int,
                triangle_count(res as int) as nat,
            );
            assert(1000 + 3000 * triangle_count(res as int) <= 400_000_000) by (nonlinear_arith)
                requires
                    triangle_count(res as int) == 2 * (res as int) * (res as int),
                    1 <= res <= 255;
        }
        let out: Vec3Milli = renormalize(a);
        normals.push(out);
        proof {
            assert(normals@[v as int] == vertex_normal_spec(seed, cfg, cxi, czi, v as int));
        }
        v = v + 1;
    }
    normals
}

/// The chunk's average vertex elevation.
#[verifier::loop_isolation(false)]
fn avg_height(field: &HeightField, config: &TerrainConfig, cx: i32, cz: i32, positions: &Vec<
    Vec3Milli,
>) -> (avg: i64)
    requires
        config.wf(),
        abs(cx as int) <= MAX_CHUNK_COORD,
        abs(cz as int) <= MAX_CHUNK_COORD,
        positions@.len() == vertex_count(config.resolution as int),
        forall|vi: int|
            0 <= vi < vertex_count(config.resolution as int) ==> positions@[vi]
                == vertex_pos_spec(field.seed, *config, cx as int, cz as int, vi),
    ensures
        avg as int == avg_height_spec(field.seed, *config, cx as int, cz as int),
        -config.height_scale_milli <= avg <= config.height_scale_milli,
{
    let ghost seed = field.seed;
    let ghost cfg = *config;
    let ghost cxi = cx as int;
    let ghost czi = cz as int;
    let res: usize = config.resolution as usize;
    proof {
        assert((res + 1) * (res + 1) <= 65536) by (nonlinear_arith)
            requires
                res <= 255;
    }
    let vcount: usize = (res + 1) * (res + 1);
    let hs: i64 = config.height_scale_milli;
    let mut sum: i64 = 0;
    let mut n: usize = 0;
    while n < vcount
        invariant
            n <= vcount,
            sum as int == crate::mesh::height_sum_upto(seed, cfg, cxi, czi, n as nat),
            -(hs as int) * (n as int) <= sum as int <= (hs as int) * (n as int),
        decreases vcount - n,
    {
        proof {
            lemma_vertex_pos_bounds(seed, cfg, cxi, czi, n as int);
            assert((hs as int) * ((n as int) + 1) == (hs as int) * (n as int) + hs
                && -(hs as int) * ((n as int) + 1) == -(hs as int) * (n as int) - hs)
                by (nonlinear_arith);
            assert((hs as int) * (n as int) <= 66_000_000_000 && -(66_000_000_000)
                <= -(hs as int) * (n as int)) by (nonlinear_arith)
                requires
                    0 < hs <= 1_000_000,
                    0 <= n <= 65536;
        }
        sum = sum + positions[n].y;
        n = n + 1;
    }
    proof {
        let vc = vcount as int;
        assert(vc >= 4) by (nonlinear_arith)
            requires
                vc == ((res as int) + 1) * ((res as int) + 1),
                1 <= res;
        assert((hs as int) * vc == vc * (hs as int) && -(hs as int) * vc == vc * (-(hs as int)))
            by (nonlinear_arith);
        vstd::arithmetic::div_mod::lemma_div_is_ordered(sum as int, vc * (hs as int), vc);
        vstd::arithmetic::div_mod::lemma_div_is_ordered(vc * (-(hs as int)), sum as int, vc);
        vstd::arithmetic::div_mod::lemma_div_multiples_vanish(hs as int, vc);
        vstd::arithmetic::div_mod::lemma_div_multiples_vanish(-(hs as int), vc);
        assert((hs as int) * vc <= 66_000_000_000 && -(hs as int) * vc >= -66_000_000_000)
            by (nonlinear_arith)
            requires
                0 < hs <= 1_000_000,
                0 < vc <= 65536;
    }
    floor_div(sum, vcount as i64)
}

/// Builds one chunk: its full mesh and classified material.
///
/// Building is a pure function of the seed, the configuration and the
/// coordinate: the result is pinned, field by field, by
/// [`chunk_build_matches`].
pub fn build_chunk(field: &HeightField, config: &TerrainConfig, chunk_x: i32, chunk_z: i32) -> (b:
    ChunkBuild)
    requires
        config.wf(),
        abs(chunk_x as int) <= MAX_CHUNK_COORD,
        abs(chunk_z as int) <= MAX_CHUNK_COORD,
    ensures
        chunk_build_matches(b, field.seed, *config, chunk_x as int, chunk_z as int),
{
    let verts = gen_vertices(field, config, chunk_x, chunk_z);
    let positions = verts.0;
    let uvs = verts.1;
    let indices = gen_indices(config);
    let normals = gen_normals(field, config, chunk_x, chunk_z, &positions, &indices);
    let avg: i64 = avg_height(field, config, chunk_x, chunk_z, &positions);
    let material = classify_material(avg, config.height_scale_milli);
    ChunkBuild {
        chunk: TerrainChunk { chunk_x, chunk_z },
        mesh: TerrainMesh { positions, normals, uvs, indices },
        material,
    }
}

/// Determinism of the builder: any two builds of the same chunk, from the
/// same seed and configuration, agree on every vertex position, every
/// normal, every texture coordinate, the whole index list and the material.
pub proof fn lemma_build_deterministic(
    a: ChunkBuild,
    b: ChunkBuild,
    seed: u32,
    config: TerrainConfig,
    cx: int,
    cz: int,
)
    requires
        chunk_build_matches(a, seed, config, cx, cz),
        chunk_build_matches(b, seed, config, cx, cz),
    ensures
        a.chunk == b.chunk,
        a.mesh.positions@ == b.mesh.positions@,
        a.mesh.normals@ == b.mesh.normals@,
        a.mesh.uvs@ == b.mesh.uvs@,
        a.mesh.indices@ == b.mesh.indices@,
        a.material == b.material,
{
    assert(a.mesh.positions@ =~= b.mesh.positions@);
    assert(a.mesh.normals@ =~= b.mesh.normals@);
    assert forall|k: int|
        0 <= k < a.mesh.uvs@.len() implies a.mesh.uvs@[k] == b.mesh.uvs@[k] by {
        assert(a.mesh.uvs@[k] == crate::mesh::uv_spec(config, k));
        assert(b.mesh.uvs@[k] == crate::mesh::uv_spec(config, k));
    }
    assert(a.mesh.uvs@ =~= b.mesh.uvs@);
    assert forall|k: int|
        0 <= k < a.mesh.indices@.len() implies a.mesh.indices@[k] == b.mesh.indices@[k] by {
        assert(a.mesh.indices@[k] as int == index_entry(config.resolution as int, k));
        assert(b.mesh.indices@[k] as int == index_entry(config.resolution as int, k));
    }
    assert(a.mesh.indices@ =~= b.mesh.indices@);
}

} // verus!
