use terrain_stream::config::TerrainConfig;
use terrain_stream::heightfield::HeightField;

#[test]
fn sampling_is_deterministic() {
    let config = TerrainConfig::default();
    let field_a = HeightField::new(12345);
    let field_b = HeightField::new(12345);
    for &(x, z) in &[(0i64, 0i64), (32_000, 0), (-5_000, 91_250), (1_000_000, -1_000_000)] {
        assert_eq!(
            field_a.sample_milli(&config, x, z),
            field_b.sample_milli(&config, x, z),
        );
        // Re-sampling the same field also agrees.
        assert_eq!(
            field_a.sample_milli(&config, x, z),
            field_a.sample_milli(&config, x, z),
        );
    }
}

#[test]
fn elevation_stays_within_amplitude() {
    let config = TerrainConfig::default();
    let field = HeightField::new(12345);
    for gx in -20..=20i64 {
        for gz in -20..=20i64 {
            let h = field.sample_milli(&config, gx * 7_919, gz * 7_919);
            assert!(h >= -config.height_scale_milli);
            assert!(h <= config.height_scale_milli);
        }
    }
}

#[test]
fn terrain_is_not_flat() {
    let config = TerrainConfig::default();
    let field = HeightField::new(12345);
    let reference = field.sample_milli(&config, 0, 0);
    let mut saw_different = false;
    for gx in 0..64i64 {
        if field.sample_milli(&config, gx * 16_000, 48_000) != reference {
            saw_different = true;
            break;
        }
    }
    assert!(saw_different);
}

#[test]
fn different_seeds_differ_somewhere() {
    let config = TerrainConfig::default();
    let field_a = HeightField::new(12345);
    let field_b = HeightField::new(54321);
    let mut saw_different = false;
    for gx in 0..64i64 {
        let x = gx * 16_000;
        if field_a.sample_milli(&config, x, 8_000) != field_b.sample_milli(&config, x, 8_000) {
            saw_different = true;
            break;
        }
    }
    assert!(saw_different);
}
