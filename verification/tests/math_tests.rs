use cloth_sim::math::{div_trunc, isqrt, mul_div, saturate_i128, LIMIT, SCALE};

#[test]
fn isqrt_small_values() {
    assert_eq!(isqrt(0), 0);
    assert_eq!(isqrt(1), 1);
    assert_eq!(isqrt(2), 1);
    assert_eq!(isqrt(3), 1);
    assert_eq!(isqrt(4), 2);
    assert_eq!(isqrt(999_999), 999);
    assert_eq!(isqrt(1_000_000), 1000);
}

#[test]
fn isqrt_fixed_point_root_two() {
    // the diagonal of a unit square, in raw units: floor(10^6 * sqrt(2))
    assert_eq!(isqrt(2_000_000_000_000), 1_414_213);
}

#[test]
fn division_truncates_toward_zero() {
    assert_eq!(div_trunc(7, 2), 3);
    assert_eq!(div_trunc(-7, 2), -3);
    assert_eq!(div_trunc(0, 5), 0);
    assert_eq!(mul_div(3, -7, 2), -10);
    assert_eq!(mul_div(-3, -7, 2), 10);
    assert_eq!(mul_div(5, 5, SCALE as i128), 0);
}

#[test]
fn saturation_clamps_to_limit() {
    assert_eq!(saturate_i128(0), 0);
    assert_eq!(saturate_i128(LIMIT as i128), LIMIT);
    assert_eq!(saturate_i128(LIMIT as i128 + 1), LIMIT);
    assert_eq!(saturate_i128(-(LIMIT as i128) - 55), -LIMIT);
}
