use terrain_stream::material::{classify_material, MaterialColor};

#[test]
fn low_average_classifies_as_light_grass() {
    // Average height 0.1 with amplitude 5.0: height factor 0.02.
    let color = classify_material(100, 5_000);
    assert_eq!(color, MaterialColor { r_milli: 300, g_milli: 650, b_milli: 250 });
}

#[test]
fn high_average_classifies_into_rock_band() {
    // Average height 3.0 with amplitude 5.0: height factor 0.6, in the
    // grass-to-rock blend: blend = (600 - 400) * 1000 / 600 = 333.
    let color = classify_material(3_000, 5_000);
    assert_eq!(
        color,
        MaterialColor {
            r_milli: 500 + 333 * 100 / 1000,
            g_milli: 500 + 333 * 50 / 1000,
            b_milli: 500,
        },
    );
    assert_eq!(color.r_milli, 533);
    assert_eq!(color.g_milli, 516);
    assert_eq!(color.b_milli, 500);
}

#[test]
fn middle_band_blends_between_grasses() {
    // Height factor 0.2: blend = (200 - 150) * 1000 / 250 = 200.
    let color = classify_material(1_000, 5_000);
    assert_eq!(
        color,
        MaterialColor {
            r_milli: 150 + 200 * 150 / 1000,
            g_milli: 400 + 200 * 250 / 1000,
            b_milli: 150 + 200 * 100 / 1000,
        },
    );
}

#[test]
fn negative_average_clamps_to_light_grass() {
    let color = classify_material(-4_000, 5_000);
    assert_eq!(color, MaterialColor { r_milli: 300, g_milli: 650, b_milli: 250 });
}

#[test]
fn full_amplitude_average_saturates_rock_blend() {
    // Height factor clamps at 1.0: blend = 1000.
    let color = classify_material(5_000, 5_000);
    assert_eq!(color, MaterialColor { r_milli: 600, g_milli: 550, b_milli: 500 });
}

#[test]
fn band_edges_join_continuously() {
    // At exactly height factor 0.4 the middle band has blended all the way
    // to light grass, and the rock band begins just above it.
    let at_edge = classify_material(2_000, 5_000);
    assert_eq!(at_edge, MaterialColor { r_milli: 300, g_milli: 650, b_milli: 250 });
}
