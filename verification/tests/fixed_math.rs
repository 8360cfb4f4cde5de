use terrain_stream::fixed::{floor_div, floor_mod, isqrt};

#[test]
fn floor_div_rounds_toward_negative_infinity() {
    assert_eq!(floor_div(7, 2), 3);
    assert_eq!(floor_div(-7, 2), -4);
    assert_eq!(floor_div(-8, 2), -4);
    assert_eq!(floor_div(0, 5), 0);
    assert_eq!(floor_div(-1, 32_000), -1);
    assert_eq!(floor_div(31_999, 32_000), 0);
    assert_eq!(floor_div(32_000, 32_000), 1);
}

#[test]
fn floor_mod_is_always_non_negative() {
    assert_eq!(floor_mod(7, 2), 1);
    assert_eq!(floor_mod(-7, 2), 1);
    assert_eq!(floor_mod(-8, 2), 0);
    assert_eq!(floor_mod(-1, 32_000), 31_999);
}

#[test]
fn isqrt_exact_values() {
    assert_eq!(isqrt(0), 0);
    assert_eq!(isqrt(1), 1);
    assert_eq!(isqrt(15), 3);
    assert_eq!(isqrt(16), 4);
    assert_eq!(isqrt(999_999), 999);
    assert_eq!(isqrt(1_000_000), 1000);
    assert_eq!(isqrt(u64::MAX as u128), 4_294_967_295);
}
