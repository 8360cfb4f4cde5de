use terrain_stream::chunk::TerrainChunk;
use terrain_stream::config::TerrainConfig;
use terrain_stream::streaming::{setup_terrain, update_chunks, ChunkManager, TERRAIN_SEED};

fn chunk_at(x: i32, z: i32) -> TerrainChunk {
    TerrainChunk { chunk_x: x, chunk_z: z }
}

/// A small, fast configuration for streaming scenarios.
fn small_config(render_distance: i32) -> TerrainConfig {
    let mut config = TerrainConfig::default();
    config.render_distance = render_distance;
    config.resolution = 4;
    assert!(config.validate());
    config
}

#[test]
fn default_manager_uses_the_session_seed() {
    let manager = ChunkManager::default();
    assert_eq!(manager.noise.seed, TERRAIN_SEED);
    assert_eq!(manager.loaded_chunks.len(), 0);
}

#[test]
fn initial_window_is_three_by_three() {
    // chunk_size 32.0, render_distance 1, viewpoint at the origin: the
    // required window is {-1,0,1} x {-1,0,1}, nine chunks.
    let config = small_config(1);
    let mut manager = ChunkManager::default();
    let tick = update_chunks(&mut manager, &config, 0, 0);
    assert_eq!(tick.evicted.len(), 0);
    assert_eq!(tick.loaded.len(), 9);
    assert_eq!(manager.loaded_chunks.len(), 9);
    for x in -1..=1 {
        for z in -1..=1 {
            assert!(manager.loaded_chunks.contains(chunk_at(x, z)));
        }
    }
    assert!(!manager.loaded_chunks.contains(chunk_at(2, 0)));
}

#[test]
fn moving_one_chunk_shifts_the_window() {
    // Moving the viewpoint to (40, 0, 0) puts it in chunk x = 1: the three
    // x = -1 chunks leave and the three x = 2 chunks arrive.
    let config = small_config(1);
    let mut manager = ChunkManager::default();
    update_chunks(&mut manager, &config, 0, 0);
    let tick = update_chunks(&mut manager, &config, 40_000, 0);
    assert_eq!(tick.evicted.len(), 3);
    for c in &tick.evicted {
        assert_eq!(c.chunk_x, -1);
    }
    assert_eq!(tick.loaded.len(), 3);
    for b in &tick.loaded {
        assert_eq!(b.chunk.chunk_x, 2);
    }
    assert_eq!(manager.loaded_chunks.len(), 9);
    for x in 0..=2 {
        for z in -1..=1 {
            assert!(manager.loaded_chunks.contains(chunk_at(x, z)));
        }
    }
    for z in -1..=1 {
        assert!(!manager.loaded_chunks.contains(chunk_at(-1, z)));
    }
}

#[test]
fn zero_render_distance_keeps_exactly_the_camera_chunk() {
    let config = small_config(0);
    let mut manager = ChunkManager::default();
    let tick = update_chunks(&mut manager, &config, 0, 0);
    assert_eq!(tick.loaded.len(), 1);
    assert_eq!(manager.loaded_chunks.len(), 1);
    assert!(manager.loaded_chunks.contains(chunk_at(0, 0)));

    // Crossing a chunk boundary evicts the old chunk and loads exactly one
    // new chunk within the same tick.
    let tick = update_chunks(&mut manager, &config, 32_000, 0);
    assert_eq!(tick.evicted.len(), 1);
    assert_eq!(tick.evicted[0], chunk_at(0, 0));
    assert_eq!(tick.loaded.len(), 1);
    assert_eq!(tick.loaded[0].chunk, chunk_at(1, 0));
    assert_eq!(manager.loaded_chunks.len(), 1);
    assert!(manager.loaded_chunks.contains(chunk_at(1, 0)));
}

#[test]
fn registry_always_equals_the_window() {
    let config = small_config(2);
    let mut manager = ChunkManager::default();
    // Wander around, including diagonal and backward moves.
    for &(x, z) in
        &[(0i64, 0i64), (75_000, -10_000), (75_000, 80_000), (-120_000, 80_000), (0, 0)]
    {
        update_chunks(&mut manager, &config, x, z);
        let cam_x = x.div_euclid(config.chunk_size_milli) as i32;
        let cam_z = z.div_euclid(config.chunk_size_milli) as i32;
        let rd = config.render_distance;
        let side = (2 * rd + 1) as usize;
        assert_eq!(manager.loaded_chunks.len(), side * side);
        for dx in -rd..=rd {
            for dz in -rd..=rd {
                assert!(manager.loaded_chunks.contains(chunk_at(cam_x + dx, cam_z + dz)));
            }
        }
        assert!(!manager.loaded_chunks.contains(chunk_at(cam_x + rd + 1, cam_z)));
        assert!(!manager.loaded_chunks.contains(chunk_at(cam_x, cam_z - rd - 1)));
    }
}

#[test]
fn repeated_tick_in_place_changes_nothing() {
    let config = small_config(1);
    let mut manager = ChunkManager::default();
    update_chunks(&mut manager, &config, 5_000, 5_000);
    let tick = update_chunks(&mut manager, &config, 5_000, 5_000);
    assert_eq!(tick.evicted.len(), 0);
    assert_eq!(tick.loaded.len(), 0);
    assert_eq!(manager.loaded_chunks.len(), 9);
}

#[test]
fn setup_loads_the_origin_window() {
    let config = small_config(3);
    let mut manager = ChunkManager::default();
    let tick = setup_terrain(&mut manager, &config);
    assert_eq!(tick.loaded.len(), 49);
    assert_eq!(manager.loaded_chunks.len(), 49);
    for x in -3..=3 {
        for z in -3..=3 {
            assert!(manager.loaded_chunks.contains(chunk_at(x, z)));
        }
    }
}

#[test]
fn loaded_builds_match_direct_builds() {
    // The builds a tick hands out are the same pure function of coordinate
    // and seed that a direct build computes.
    let config = small_config(0);
    let mut manager = ChunkManager::default();
    let tick = update_chunks(&mut manager, &config, 0, 0);
    let direct = terrain_stream::builder::build_chunk(&manager.noise, &config, 0, 0);
    assert_eq!(tick.loaded[0].mesh.positions, direct.mesh.positions);
    assert_eq!(tick.loaded[0].mesh.normals, direct.mesh.normals);
    assert_eq!(tick.loaded[0].mesh.indices, direct.mesh.indices);
    assert_eq!(tick.loaded[0].material, direct.material);
}
