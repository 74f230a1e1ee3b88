use shaders::fixed::{clamp_unit, diffuse, div_floor, integer_sqrt, Vector3, UNIT};

#[test]
fn unit_is_ten_thousand() {
    assert_eq!(UNIT, 10_000);
}

#[test]
fn clamp_unit_limits_both_ways() {
    assert_eq!(clamp_unit(-1), 0);
    assert_eq!(clamp_unit(0), 0);
    assert_eq!(clamp_unit(4_321), 4_321);
    assert_eq!(clamp_unit(10_000), 10_000);
    assert_eq!(clamp_unit(10_001), 10_000);
    assert_eq!(clamp_unit(i64::MAX), 10_000);
    assert_eq!(clamp_unit(i64::MIN), 0);
}

#[test]
fn div_floor_rounds_toward_negative_infinity() {
    assert_eq!(div_floor(7, 2), 3);
    assert_eq!(div_floor(-7, 2), -4);
    assert_eq!(div_floor(-8, 2), -4);
    assert_eq!(div_floor(-1, 10_000), -1);
    assert_eq!(div_floor(0, 3), 0);
    assert_eq!(div_floor(i128::MIN, 1), i128::MIN);
    assert_eq!(div_floor(i128::MAX, i128::MAX), 1);
}

#[test]
fn integer_sqrt_is_the_floor_of_the_root() {
    assert_eq!(integer_sqrt(0), 0);
    assert_eq!(integer_sqrt(1), 1);
    assert_eq!(integer_sqrt(2), 1);
    assert_eq!(integer_sqrt(3), 1);
    assert_eq!(integer_sqrt(4), 2);
    assert_eq!(integer_sqrt(99), 9);
    assert_eq!(integer_sqrt(100), 10);
    assert_eq!(integer_sqrt(30_000_000_000), 173_205);
    assert_eq!(integer_sqrt(u128::MAX), u64::MAX);
    assert_eq!(integer_sqrt((u64::MAX as u128) * (u64::MAX as u128)), u64::MAX);
    assert_eq!(integer_sqrt((u64::MAX as u128) * (u64::MAX as u128) - 1), u64::MAX - 1);
}

#[test]
fn diffuse_of_a_surface_facing_the_light_is_one() {
    let n = Vector3::new(10_000, 10_000, 10_000);
    let p = Vector3::new(0, 0, 0);
    let l = Vector3::new(100_000, 100_000, 100_000);
    assert_eq!(diffuse(&n, &p, &l), UNIT);
}

#[test]
fn diffuse_is_the_cosine() {
    let n = Vector3::new(10_000, 0, 0);
    let p = Vector3::new(5_000, 0, 0);
    let l = Vector3::new(20_000, 20_000, 0);
    assert_eq!(diffuse(&n, &p, &l), 6_000);
    let up = Vector3::new(0, 0, 10_000);
    let origin = Vector3::new(0, 0, 0);
    assert_eq!(diffuse(&up, &origin, &Vector3::new(100_000, 100_000, 100_000)), 5_773);
    assert_eq!(diffuse(&up, &origin, &Vector3::new(10_000, 10_000, 30_000)), 9_045);
    assert_eq!(diffuse(&up, &origin, &Vector3::new(0, 80_000, 90_000)), 7_474);
}

#[test]
fn diffuse_is_zero_away_from_the_light() {
    let p = Vector3::new(0, 0, 0);
    let l = Vector3::new(0, 0, 50_000);
    assert_eq!(diffuse(&Vector3::new(0, 0, -10_000), &p, &l), 0);
    assert_eq!(diffuse(&Vector3::new(10_000, 0, 0), &p, &l), 0);
}

#[test]
fn diffuse_is_zero_without_a_direction() {
    let p = Vector3::new(7, 8, 9);
    assert_eq!(diffuse(&Vector3::new(0, 0, 0), &p, &Vector3::new(0, 0, 50_000)), 0);
    assert_eq!(diffuse(&Vector3::new(0, 0, 10_000), &p, &p), 0);
}

#[test]
fn diffuse_takes_the_widest_vectors() {
    let n = Vector3::new(i32::MIN, i32::MIN, i32::MIN);
    let p = Vector3::new(i32::MAX, i32::MAX, i32::MAX);
    let l = Vector3::new(i32::MIN, i32::MIN, i32::MIN);
    assert_eq!(diffuse(&n, &p, &l), UNIT);
    assert_eq!(diffuse(&n, &l, &p), 0);
}
