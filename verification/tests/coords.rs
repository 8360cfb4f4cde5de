use terrain_stream::chunk::{camera_chunk, check_camera_pos, TerrainChunk};
use terrain_stream::config::TerrainConfig;

fn default_config() -> TerrainConfig {
    TerrainConfig::default()
}

#[test]
fn camera_chunk_at_origin() {
    let config = default_config();
    let c = camera_chunk(0, 0, &config);
    assert_eq!(c, TerrainChunk { chunk_x: 0, chunk_z: 0 });
}

#[test]
fn camera_chunk_inside_first_cell() {
    let config = default_config();
    // Anywhere in [0, 32.0) stays chunk 0.
    let c = camera_chunk(31_999, 15_000, &config);
    assert_eq!(c, TerrainChunk { chunk_x: 0, chunk_z: 0 });
}

#[test]
fn camera_chunk_at_cell_boundary() {
    let config = default_config();
    // Exactly 32.0 world units is the first point of chunk 1.
    let c = camera_chunk(32_000, 0, &config);
    assert_eq!(c, TerrainChunk { chunk_x: 1, chunk_z: 0 });
}

#[test]
fn camera_chunk_negative_positions_floor() {
    let config = default_config();
    // Just below zero already belongs to chunk -1 (flooring, not truncation).
    assert_eq!(camera_chunk(-1, -1, &config), TerrainChunk { chunk_x: -1, chunk_z: -1 });
    assert_eq!(camera_chunk(-32_000, 0, &config), TerrainChunk { chunk_x: -1, chunk_z: 0 });
    assert_eq!(camera_chunk(-32_001, 0, &config), TerrainChunk { chunk_x: -2, chunk_z: 0 });
}

#[test]
fn camera_chunk_forty_units_is_chunk_one() {
    let config = default_config();
    // The 40-unit viewpoint of the shifted-window scenario.
    let c = camera_chunk(40_000, 0, &config);
    assert_eq!(c, TerrainChunk { chunk_x: 1, chunk_z: 0 });
}

#[test]
fn camera_pos_range_check() {
    let config = default_config();
    assert!(check_camera_pos(0, 0, &config));
    assert!(check_camera_pos(40_000, -40_000, &config));
    // Far beyond the supported world span.
    assert!(!check_camera_pos(i64::MAX / 2, 0, &config));
}

#[test]
fn default_config_is_valid() {
    let config = default_config();
    assert!(config.validate());
    assert_eq!(config.chunk_size_milli, 32_000);
    assert_eq!(config.render_distance, 3);
    assert_eq!(config.height_scale_milli, 5_000);
    assert_eq!(config.noise_scale_milli, 100);
    assert_eq!(config.resolution, 32);
}

#[test]
fn degenerate_configs_are_rejected() {
    let mut config = default_config();
    config.chunk_size_milli = 0;
    assert!(!config.validate());

    let mut config = default_config();
    config.chunk_size_milli = -32_000;
    assert!(!config.validate());

    let mut config = default_config();
    config.render_distance = -1;
    assert!(!config.validate());

    let mut config = default_config();
    config.resolution = 0;
    assert!(!config.validate());

    let mut config = default_config();
    config.height_scale_milli = 0;
    assert!(!config.validate());
}
