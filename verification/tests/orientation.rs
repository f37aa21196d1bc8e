use raymarch_camera::fixed::UNIT;
use raymarch_camera::orientation::{Basis, Trig, TRIG_SLACK};
use raymarch_camera::orthonormal::BASIS_SLACK;
use raymarch_camera::vector::Vec3;

fn millionths(v: f64) -> i64 {
    (v * 1e6).round() as i64
}

fn trig_of(theta: f64, phi: f64) -> Trig {
    Trig::new(
        millionths(theta.sin()),
        millionths(theta.cos()),
        millionths(phi.sin()),
        millionths(phi.cos()),
    )
    .unwrap()
}

fn dot(a: Vec3, b: Vec3) -> i128 {
    (a.x as i128) * (b.x as i128) + (a.y as i128) * (b.y as i128) + (a.z as i128) * (b.z as i128)
}

#[test]
fn level_is_sine_zero_and_cosine_one() {
    let t = Trig::level();
    assert_eq!((t.sin_theta(), t.cos_theta(), t.sin_phi(), t.cos_phi()), (0, UNIT, 0, UNIT));
}

#[test]
fn new_keeps_the_four_values() {
    let t = Trig::new(600_000, 800_000, -800_000, 600_000).unwrap();
    assert_eq!(
        (t.sin_theta(), t.cos_theta(), t.sin_phi(), t.cos_phi()),
        (600_000, 800_000, -800_000, 600_000)
    );
}

#[test]
fn new_takes_pairs_on_the_circle() {
    assert!(Trig::new(0, UNIT, 0, UNIT).is_some());
    assert!(Trig::new(UNIT, 0, -UNIT, 0).is_some());
    assert!(Trig::new(0, -UNIT, 600_000, -800_000).is_some());
    assert!(Trig::new(707_107, 707_107, 707_107, -707_107).is_some());
}

#[test]
fn new_refuses_pairs_off_the_circle() {
    assert!(Trig::new(0, 0, 0, UNIT).is_none());
    assert!(Trig::new(0, UNIT, 0, 0).is_none());
    assert!(Trig::new(UNIT, UNIT, 0, UNIT).is_none());
    assert!(Trig::new(0, UNIT, 500_000, 500_000).is_none());
    assert!(Trig::new(0, 2 * UNIT, 0, UNIT).is_none());
    assert!(Trig::new(i64::MAX, i64::MIN, 0, UNIT).is_none());
    assert!(Trig::new(0, UNIT, i64::MIN, i64::MAX).is_none());
}

#[test]
fn new_cuts_exactly_at_the_slack() {
    // 1_000_001 squared is one, plus 2_000_001: one too many.
    assert!(Trig::new(0, UNIT + 1, 0, UNIT).is_none());
    // 999_999 squared is one, less 1_999_999.
    assert!(Trig::new(0, UNIT - 1, 0, UNIT).is_some());
    // 999_998 squared is one, less 3_999_996.
    assert!(Trig::new(0, UNIT - 2, 0, UNIT).is_none());
    // One, plus 1000 squared, which is 1_000_000, and plus 1414 squared, which is 1_999_396.
    assert!(Trig::new(1_000, UNIT, 0, UNIT).is_some());
    assert!(Trig::new(1_414, UNIT, 0, UNIT).is_some());
    assert!(Trig::new(1_415, UNIT, 0, UNIT).is_none());
    assert_eq!(TRIG_SLACK, 2 * UNIT);
}

#[test]
fn basis_at_rest() {
    let b = Basis::from_trig(&Trig::level());
    assert_eq!(b.forward, Vec3::new(0, 0, UNIT));
    assert_eq!(b.right, Vec3::new(UNIT, 0, 0));
    assert_eq!(b.up, Vec3::new(0, UNIT, 0));
}

#[test]
fn basis_after_a_quarter_turn_of_yaw() {
    let b = Basis::from_trig(&Trig::new(UNIT, 0, 0, UNIT).unwrap());
    assert_eq!(b.forward, Vec3::new(UNIT, 0, 0));
    assert_eq!(b.right, Vec3::new(0, 0, -UNIT));
    assert_eq!(b.up, Vec3::new(0, UNIT, 0));
}

#[test]
fn basis_after_a_quarter_turn_of_pitch() {
    let b = Basis::from_trig(&Trig::new(0, UNIT, UNIT, 0).unwrap());
    assert_eq!(b.forward, Vec3::new(0, -UNIT, 0));
    assert_eq!(b.right, Vec3::new(UNIT, 0, 0));
    assert_eq!(b.up, Vec3::new(0, 0, UNIT));
}

#[test]
fn basis_follows_the_formula() {
    // sin and cos of yaw: 0.6 and 0.8; of pitch: -0.8 and 0.6.
    let b = Basis::from_trig(&Trig::new(600_000, 800_000, -800_000, 600_000).unwrap());
    assert_eq!(b.forward, Vec3::new(360_000, 800_000, 480_000));
    assert_eq!(b.right, Vec3::new(800_000, 0, -600_000));
    // The cross product is (-0.48, 0.6, -0.64), of length one.
    assert_eq!(b.up, Vec3::new(-480_000, 600_000, -640_000));
}

#[test]
fn forward_rounds_toward_zero() {
    // sin and cos of yaw: -0.6 and 0.8; cos of pitch: 0.707107.
    let b = Basis::from_trig(&Trig::new(-600_000, 800_000, 707_107, 707_107).unwrap());
    // 0.707107 * -0.6 is -0.4242642, 0.707107 * 0.8 is 0.5656856.
    assert_eq!(b.forward, Vec3::new(-424_264, -707_107, 565_685));
}

#[test]
fn right_does_not_depend_on_the_pitch() {
    for phi in [0.0f64, 0.3, 1.2, 2.9, 4.4, 6.1] {
        let b = Basis::from_trig(&trig_of(0.7, phi));
        assert_eq!(b.right, Vec3::new(millionths(0.7f64.cos()), 0, -millionths(0.7f64.sin())));
        assert_eq!(b.right.y, 0);
    }
}

#[test]
fn basis_is_orthonormal_for_all_angles() {
    let one = (UNIT as i128) * (UNIT as i128);
    let slack = BASIS_SLACK as i128;
    let steps = 97;
    for i in 0..steps {
        for j in 0..steps {
            let theta = (i as f64) * std::f64::consts::TAU / (steps as f64);
            let phi = (j as f64) * std::f64::consts::TAU / (steps as f64);
            let b = Basis::from_trig(&trig_of(theta, phi));
            assert!((dot(b.forward, b.forward) - one).abs() <= slack);
            assert!((dot(b.right, b.right) - one).abs() <= slack);
            assert!((dot(b.up, b.up) - one).abs() <= slack);
            assert!(dot(b.forward, b.right).abs() <= slack);
            assert!(dot(b.up, b.forward).abs() <= slack);
            assert!(dot(b.up, b.right).abs() <= slack);
        }
    }
}

#[test]
fn basis_is_orthonormal_at_the_edge_of_the_slack() {
    let one = (UNIT as i128) * (UNIT as i128);
    let slack = BASIS_SLACK as i128;
    for (s, c) in [(1_414, UNIT), (UNIT, 1_414), (-1_414, -UNIT), (0, UNIT - 1), (UNIT - 1, 0)] {
        for (p, q) in [(1_414, UNIT), (UNIT, -1_414), (0, UNIT - 1), (1 - UNIT, 0)] {
            let b = Basis::from_trig(&Trig::new(s, c, p, q).unwrap());
            assert!((dot(b.forward, b.forward) - one).abs() <= slack);
            assert!((dot(b.right, b.right) - one).abs() <= slack);
            assert!((dot(b.up, b.up) - one).abs() <= slack);
            assert!(dot(b.forward, b.right).abs() <= slack);
            assert!(dot(b.up, b.forward).abs() <= slack);
            assert!(dot(b.up, b.right).abs() <= slack);
        }
    }
}

#[test]
fn basis_is_right_handed() {
    // up is forward cross right, so right cross up points forward again.
    let b = Basis::from_trig(&trig_of(2.1, 0.4));
    let back = b.right.cross(b.up).normalize();
    assert!((back.x - b.forward.x).abs() <= 10);
    assert!((back.y - b.forward.y).abs() <= 10);
    assert!((back.z - b.forward.z).abs() <= 10);
}
