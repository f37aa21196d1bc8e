use raymarch_camera::fixed::{isqrt, saturate, UNIT};
use raymarch_camera::vector::Vec3;

#[test]
fn new_keeps_the_components() {
    let v = Vec3::new(1, -2, 3);
    assert_eq!((v.x, v.y, v.z), (1, -2, 3));
}

#[test]
fn add_is_componentwise() {
    assert_eq!(Vec3::new(1, 2, 3).add(Vec3::new(10, -20, 30)), Vec3::new(11, -18, 33));
}

#[test]
fn subtract_is_componentwise() {
    assert_eq!(Vec3::new(1, 2, 3).subtract(Vec3::new(10, -20, 30)), Vec3::new(-9, 22, -27));
}

#[test]
fn add_then_subtract_gives_the_start() {
    let a = Vec3::new(5, -7, 11);
    let b = Vec3::new(-3, 4, 9);
    assert_eq!(a.add(b).subtract(b), a);
}

#[test]
fn add_saturates_at_the_bounds() {
    let a = Vec3::new(i64::MAX, i64::MIN, 0);
    let b = Vec3::new(1, -1, 0);
    assert_eq!(a.add(b), Vec3::new(i64::MAX, i64::MIN, 0));
}

#[test]
fn subtract_saturates_at_the_bounds() {
    let a = Vec3::new(i64::MIN, i64::MAX, 0);
    let b = Vec3::new(1, -1, 0);
    assert_eq!(a.subtract(b), Vec3::new(i64::MIN, i64::MAX, 0));
}

#[test]
fn scale_multiplies_each_component() {
    assert_eq!(Vec3::new(1, -2, 3).scale(-4), Vec3::new(-4, 8, -12));
}

#[test]
fn scale_by_zero_gives_the_zero_vector() {
    assert_eq!(Vec3::new(i64::MAX, i64::MIN, 7).scale(0), Vec3::new(0, 0, 0));
}

#[test]
fn scale_saturates_at_the_bounds() {
    let v = Vec3::new(i64::MAX, i64::MIN, -3);
    assert_eq!(v.scale(2), Vec3::new(i64::MAX, i64::MIN, -6));
    assert_eq!(v.scale(-2), Vec3::new(i64::MIN, i64::MAX, 6));
}

#[test]
fn cross_of_x_and_y_is_z() {
    let x = Vec3::new(1, 0, 0);
    let y = Vec3::new(0, 1, 0);
    assert_eq!(x.cross(y), Vec3::new(0, 0, 1));
    assert_eq!(y.cross(x), Vec3::new(0, 0, -1));
}

#[test]
fn cross_of_general_vectors() {
    let a = Vec3::new(2, 3, 4);
    let b = Vec3::new(5, 6, 7);
    assert_eq!(a.cross(b), Vec3::new(-3, 6, -3));
}

#[test]
fn cross_of_parallel_vectors_is_zero() {
    let a = Vec3::new(2, -4, 6);
    assert_eq!(a.cross(a.scale(3)), Vec3::new(0, 0, 0));
}

#[test]
fn cross_saturates_at_the_bounds() {
    let a = Vec3::new(0, i64::MIN, i64::MIN);
    let b = Vec3::new(0, i64::MAX, i64::MIN);
    // x = MIN * MIN - MIN * MAX, far above the largest i64.
    assert_eq!(a.cross(b).x, i64::MAX);
    assert_eq!(b.cross(a).x, i64::MIN);
}

#[test]
fn length_of_a_pythagorean_triple() {
    assert_eq!(Vec3::new(3, 4, 0).length(), 5);
    assert_eq!(Vec3::new(2, 3, 6).length(), 7);
    assert_eq!(Vec3::new(-2, -3, -6).length(), 7);
}

#[test]
fn length_rounds_down() {
    assert_eq!(Vec3::new(1, 1, 1).length(), 1);
    assert_eq!(Vec3::new(1, 2, 2).length(), 3);
    assert_eq!(Vec3::new(2, 2, 2).length(), 3);
}

#[test]
fn length_of_the_zero_vector_is_zero() {
    assert_eq!(Vec3::new(0, 0, 0).length(), 0);
}

#[test]
fn length_of_the_longest_vector() {
    // Three components of 2^63 each: the length is the floor of 2^63 * sqrt(3).
    let v = Vec3::new(i64::MIN, i64::MIN, i64::MIN);
    let len = v.length() as u128;
    let n = 3 * (1u128 << 126);
    assert!(len * len <= n);
    assert!((len + 1) * (len + 1) > n);
    assert_eq!(len, 15975348984942515101);
}

#[test]
fn normalize_of_an_axis_is_the_unit_vector() {
    assert_eq!(Vec3::new(0, 0, 17).normalize(), Vec3::new(0, 0, UNIT));
    assert_eq!(Vec3::new(-5, 0, 0).normalize(), Vec3::new(-UNIT, 0, 0));
}

#[test]
fn normalize_of_a_pythagorean_triple() {
    assert_eq!(Vec3::new(3, 4, 0).normalize(), Vec3::new(600_000, 800_000, 0));
    assert_eq!(Vec3::new(-3, 0, 4).normalize(), Vec3::new(-600_000, 0, 800_000));
}

#[test]
fn normalize_rounds_toward_zero() {
    // The length of (1, 1, 1) rounds down to 1, so each component comes to one.
    assert_eq!(Vec3::new(1, 1, 1).normalize(), Vec3::new(UNIT, UNIT, UNIT));
    // 2/7 and 3/7 and 6/7 in millionths, cut off.
    assert_eq!(Vec3::new(2, -3, 6).normalize(), Vec3::new(285_714, -428_571, 857_142));
}

#[test]
fn normalize_of_a_long_vector_has_length_one() {
    let v = Vec3::new(123_456_789_012, -987_654_321_098, 555_555_555_555).normalize();
    let n = (v.x as i128) * (v.x as i128) + (v.y as i128) * (v.y as i128) + (v.z as i128) * (v.z as i128);
    let one = (UNIT as i128) * (UNIT as i128);
    assert!((n - one).abs() <= 6 * UNIT as i128);
}

#[test]
fn uniform_lists_x_y_z() {
    assert_eq!(Vec3::new(7, 8, 9).uniform(), [7, 8, 9]);
}

#[test]
fn saturate_keeps_what_fits() {
    assert_eq!(saturate(0), 0);
    assert_eq!(saturate(-42), -42);
    assert_eq!(saturate(i64::MAX as i128), i64::MAX);
    assert_eq!(saturate(i64::MIN as i128), i64::MIN);
}

#[test]
fn saturate_cuts_what_does_not_fit() {
    assert_eq!(saturate(i64::MAX as i128 + 1), i64::MAX);
    assert_eq!(saturate(i64::MIN as i128 - 1), i64::MIN);
    assert_eq!(saturate(i128::MAX), i64::MAX);
    assert_eq!(saturate(i128::MIN), i64::MIN);
}

#[test]
fn isqrt_of_small_numbers() {
    let expected = [0u64, 1, 1, 1, 2, 2, 2, 2, 2, 3, 3, 3, 3, 3, 3, 3, 4];
    for n in 0..expected.len() {
        assert_eq!(isqrt(n as u128), expected[n]);
    }
}

#[test]
fn isqrt_of_squares_and_their_neighbours() {
    for r in [1u128, 2, 10, 999, 1_000_000, 1_000_000_000_000, u32::MAX as u128, u64::MAX as u128] {
        assert_eq!(isqrt(r * r) as u128, r);
        assert_eq!(isqrt(r * r - 1) as u128, r - 1);
        if r < u64::MAX as u128 {
            assert_eq!(isqrt(r * r + 2 * r) as u128, r);
        }
    }
}

#[test]
fn isqrt_of_the_largest_number() {
    assert_eq!(isqrt(u128::MAX), u64::MAX);
}
