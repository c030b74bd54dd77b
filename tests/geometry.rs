use dungeon::constants::{DIR_ONE, ROT_ONE, SPREAD_COS, SPREAD_SIN};
use dungeon::geometry::{aim, clamp, distance_sq, div_trunc, isqrt, rotate, saturate, step_toward, within};

#[test]
fn integer_square_root_rounds_down() {
    assert_eq!(isqrt(0), 0);
    assert_eq!(isqrt(1), 1);
    assert_eq!(isqrt(24), 4);
    assert_eq!(isqrt(25), 5);
    assert_eq!(isqrt(26), 5);
    let far = distance_sq(i32::MIN, i32::MIN, i32::MAX, i32::MAX);
    assert_eq!(far, 2 * (u32::MAX as u128) * (u32::MAX as u128));
    let r = isqrt(far);
    assert!(r * r <= far && far < (r + 1) * (r + 1));
}

#[test]
fn truncating_division_is_symmetric() {
    assert_eq!(div_trunc(7, 2), 3);
    assert_eq!(div_trunc(-7, 2), -3);
    assert_eq!(div_trunc(0, 5), 0);
}

#[test]
fn circles_touch_at_the_sum_of_radii() {
    assert!(within(0, 0, 3, 4, 5));
    assert!(!within(0, 0, 3, 4, 4));
}

#[test]
fn aim_gives_scaled_unit_vectors() {
    assert_eq!(aim(0, 0, 10, 0), Some((DIR_ONE, 0)));
    assert_eq!(aim(0, 0, 0, -7), Some((0, -DIR_ONE)));
    assert_eq!(aim(0, 0, 3, 4), Some((600, 800)));
    assert_eq!(aim(5, 5, 5, 5), None);
}

#[test]
fn steps_take_the_full_stride() {
    assert_eq!(step_toward(0, 0, 3000, 4000, 500), (300, 400));
    assert_eq!(step_toward(0, 0, 3000, 4000, 5000), (3000, 4000));
    assert_eq!(step_toward(0, 0, 3000, 4000, 10000), (6000, 8000));
    assert_eq!(step_toward(7, 7, 7, 7, 10000), (7, 7));
    assert_eq!(step_toward(i32::MAX - 10, 0, i32::MAX, 0, 1000), (i32::MAX, 0));
    assert_eq!(step_toward(0, 0, -3000, -4000, 500), (-300, -400));
}

#[test]
fn rotation_by_the_spread_step() {
    let (x, y) = rotate(DIR_ONE, 0, SPREAD_COS, SPREAD_SIN);
    assert_eq!((x, y), (980, 198));
    assert_eq!(rotate(DIR_ONE, 0, SPREAD_COS, -SPREAD_SIN), (980, -198));
    assert_eq!(rotate(DIR_ONE, 0, ROT_ONE, 0), (DIR_ONE, 0));
}

#[test]
fn clamping_and_saturation() {
    assert_eq!(clamp(5, 10, 20), 10);
    assert_eq!(clamp(25, 10, 20), 20);
    assert_eq!(clamp(15, 10, 20), 15);
    assert_eq!(saturate(1i128 << 40), i32::MAX);
    assert_eq!(saturate(-(1i128 << 40)), i32::MIN);
}

