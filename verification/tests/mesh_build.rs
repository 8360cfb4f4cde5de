use terrain_stream::builder::build_chunk;
use terrain_stream::config::TerrainConfig;
use terrain_stream::heightfield::HeightField;

#[test]
fn building_a_chunk_twice_is_bit_identical() {
    let config = TerrainConfig::default();
    let field = HeightField::new(12345);
    let first = build_chunk(&field, &config, 2, -3);
    let second = build_chunk(&field, &config, 2, -3);
    assert_eq!(first.chunk, second.chunk);
    assert_eq!(first.mesh.positions, second.mesh.positions);
    assert_eq!(first.mesh.normals, second.mesh.normals);
    assert_eq!(first.mesh.uvs, second.mesh.uvs);
    assert_eq!(first.mesh.indices, second.mesh.indices);
    assert_eq!(first.material, second.material);
}

#[test]
fn mesh_has_the_grid_shape() {
    let config = TerrainConfig::default();
    let field = HeightField::new(12345);
    let build = build_chunk(&field, &config, 0, 0);
    let res = config.resolution as usize;
    let vcount = (res + 1) * (res + 1);
    assert_eq!(build.mesh.positions.len(), vcount);
    assert_eq!(build.mesh.normals.len(), vcount);
    assert_eq!(build.mesh.uvs.len(), vcount);
    assert_eq!(build.mesh.indices.len(), 6 * res * res);
    for &idx in &build.mesh.indices {
        assert!(idx < vcount);
    }
    // The first cell's two triangles, as the row-major layout dictates.
    assert_eq!(&build.mesh.indices[0..6], &[0, res + 1, 1, 1, res + 1, res + 2]);
}

#[test]
fn vertex_positions_cover_the_chunk_square() {
    let config = TerrainConfig::default();
    let field = HeightField::new(12345);
    let build = build_chunk(&field, &config, 1, -1);
    let res = config.resolution as usize;
    let cs = config.chunk_size_milli;
    // First vertex sits at the chunk origin, last at the far corner.
    let first = build.mesh.positions[0];
    assert_eq!(first.x, cs);
    assert_eq!(first.z, -cs);
    let last = build.mesh.positions[(res + 1) * (res + 1) - 1];
    assert_eq!(last.x, 2 * cs);
    assert_eq!(last.z, 0);
    for p in &build.mesh.positions {
        assert!(p.x >= cs && p.x <= 2 * cs);
        assert!(p.z >= -cs && p.z <= 0);
        assert!(p.y >= -config.height_scale_milli && p.y <= config.height_scale_milli);
    }
}

#[test]
fn uv_corners_span_the_unit_square() {
    let config = TerrainConfig::default();
    let field = HeightField::new(12345);
    let build = build_chunk(&field, &config, 0, 0);
    let res = config.resolution as usize;
    let uv00 = build.mesh.uvs[0];
    assert_eq!((uv00.u, uv00.v), (0, 0));
    let uv10 = build.mesh.uvs[res];
    assert_eq!((uv10.u, uv10.v), (1000, 0));
    let uv01 = build.mesh.uvs[res * (res + 1)];
    assert_eq!((uv01.u, uv01.v), (0, 1000));
    let uv11 = build.mesh.uvs[(res + 1) * (res + 1) - 1];
    assert_eq!((uv11.u, uv11.v), (1000, 1000));
}

#[test]
fn normals_are_fixed_point_unit_range() {
    let config = TerrainConfig::default();
    let field = HeightField::new(12345);
    let build = build_chunk(&field, &config, 0, 0);
    for n in &build.mesh.normals {
        assert!(n.x >= -1000 && n.x <= 1000);
        assert!(n.y >= -1000 && n.y <= 1000);
        assert!(n.z >= -1000 && n.z <= 1000);
        // The smoothed surface faces upward everywhere.
        assert!(n.y > 0);
    }
}

#[test]
fn adjacent_chunks_share_identical_seam_vertices() {
    let config = TerrainConfig::default();
    let field = HeightField::new(12345);
    let res = config.resolution as usize;

    // Seam along x: column `res` of (0, 0) against column 0 of (1, 0).
    let left = build_chunk(&field, &config, 0, 0);
    let right = build_chunk(&field, &config, 1, 0);
    for row in 0..=res {
        let a = left.mesh.positions[row * (res + 1) + res];
        let b = right.mesh.positions[row * (res + 1)];
        assert_eq!(a, b);
    }

    // Seam along z: row `res` of (0, 0) against row 0 of (0, 1).
    let far = build_chunk(&field, &config, 0, 1);
    for col in 0..=res {
        let a = left.mesh.positions[res * (res + 1) + col];
        let b = far.mesh.positions[col];
        assert_eq!(a, b);
    }
}

#[test]
fn chunk_material_is_height_classified() {
    let config = TerrainConfig::default();
    let field = HeightField::new(12345);
    let build = build_chunk(&field, &config, 0, 0);
    // Whatever band the average falls in, the color is a valid per-mille
    // sRGB triple from the three-band palette.
    assert!(build.material.r_milli >= 0 && build.material.r_milli <= 1000);
    assert!(build.material.g_milli >= 0 && build.material.g_milli <= 1000);
    assert!(build.material.b_milli >= 0 && build.material.b_milli <= 1000);
}

#[test]
fn largest_resolution_builds_consistently() {
    let mut config = TerrainConfig::default();
    config.resolution = 255;
    assert!(config.validate());
    let field = HeightField::new(12345);
    let build = build_chunk(&field, &config, 0, 0);
    assert_eq!(build.mesh.positions.len(), 256 * 256);
    assert_eq!(build.mesh.indices.len(), 6 * 255 * 255);
    for &idx in &build.mesh.indices {
        assert!(idx < 256 * 256);
    }
}

#[test]
fn single_cell_resolution_is_two_triangles() {
    let mut config = TerrainConfig::default();
    config.resolution = 1;
    assert!(config.validate());
    let field = HeightField::new(12345);
    let build = build_chunk(&field, &config, -7, 9);
    assert_eq!(build.mesh.positions.len(), 4);
    assert_eq!(build.mesh.indices, vec![0, 2, 1, 1, 2, 3]);
}
