use core_engine::math::decay::decay;
use core_engine::math::fixed::{Fixed, SCALE};
use core_engine::math::vec2::Vec2;

fn raw(r: i64) -> Fixed {
    Fixed::from_raw(r)
}

#[test]
fn fixed_constants_and_conversions() {
    assert_eq!(SCALE, 1_000_000);
    assert_eq!(Fixed::zero().raw(), 0);
    assert_eq!(Fixed::one().raw(), 1_000_000);
    assert_eq!(Fixed::from_int(3).raw(), 3_000_000);
    assert_eq!(Fixed::from_int(-3).raw(), -3_000_000);
    assert_eq!(raw(42).raw(), 42);
}

#[test]
fn from_int_saturates() {
    assert_eq!(Fixed::from_int(i64::MAX).raw(), i64::MAX);
    assert_eq!(Fixed::from_int(i64::MIN).raw(), i64::MIN);
    assert_eq!(Fixed::from_int(9_223_372_036_854).raw(), 9_223_372_036_854_000_000);
    assert_eq!(Fixed::from_int(9_223_372_036_855).raw(), i64::MAX);
}

#[test]
fn add_sub_neg_are_exact_within_range() {
    assert_eq!(raw(1_500_000).add(raw(2_250_000)), raw(3_750_000));
    assert_eq!(raw(1_500_000).sub(raw(2_250_000)), raw(-750_000));
    assert_eq!(raw(1_500_000).neg(), raw(-1_500_000));
}

#[test]
fn add_sub_neg_saturate() {
    assert_eq!(raw(i64::MAX).add(raw(1)), raw(i64::MAX));
    assert_eq!(raw(i64::MIN).add(raw(-1)), raw(i64::MIN));
    assert_eq!(raw(i64::MIN).sub(raw(1)), raw(i64::MIN));
    assert_eq!(raw(i64::MAX).sub(raw(-1)), raw(i64::MAX));
    assert_eq!(raw(i64::MIN).neg(), raw(i64::MAX));
    assert_eq!(raw(i64::MAX).neg(), raw(-i64::MAX));
}

#[test]
fn mul_rescales_and_rounds_toward_zero() {
    assert_eq!(Fixed::from_int(100).mul(raw(950_000)), Fixed::from_int(95));
    assert_eq!(raw(1_500_000).mul(raw(1_500_000)), raw(2_250_000));
    assert_eq!(raw(3).mul(raw(500_000)), raw(1));
    assert_eq!(raw(-3).mul(raw(500_000)), raw(-1));
    assert_eq!(raw(1).mul(raw(999_999)), raw(0));
    assert_eq!(raw(-1).mul(raw(999_999)), raw(0));
    assert_eq!(Fixed::from_int(-2).mul(Fixed::from_int(-3)), Fixed::from_int(6));
}

#[test]
fn mul_saturates() {
    assert_eq!(raw(i64::MAX).mul(Fixed::from_int(2)), raw(i64::MAX));
    assert_eq!(raw(i64::MAX).mul(Fixed::from_int(-2)), raw(i64::MIN));
    assert_eq!(raw(i64::MIN).mul(raw(i64::MIN)), raw(i64::MAX));
    assert_eq!(raw(i64::MIN).mul(Fixed::one()), raw(i64::MIN));
}

#[test]
fn min_max_clamp() {
    assert_eq!(raw(3).max(raw(5)), raw(5));
    assert_eq!(raw(3).min(raw(5)), raw(3));
    assert_eq!(raw(-3).max(raw(-5)), raw(-3));
    assert_eq!(raw(7).clamp(raw(0), raw(5)), raw(5));
    assert_eq!(raw(-7).clamp(raw(0), raw(5)), raw(0));
    assert_eq!(raw(4).clamp(raw(0), raw(5)), raw(4));
    assert_eq!(raw(4).clamp(raw(6), raw(5)), raw(6));
}

#[test]
fn sqrt_rounds_down() {
    assert_eq!(Fixed::from_int(4).sqrt(), Fixed::from_int(2));
    assert_eq!(Fixed::from_int(2).sqrt(), raw(1_414_213));
    assert_eq!(raw(250_000).sqrt(), raw(500_000));
    assert_eq!(raw(1).sqrt(), raw(1_000));
    assert_eq!(Fixed::zero().sqrt(), Fixed::zero());
    assert_eq!(Fixed::one().sqrt(), Fixed::one());
    assert_eq!(raw(i64::MAX).sqrt(), raw(3_037_000_499_976));
}

#[test]
fn sqrt_of_a_negative_number_is_zero() {
    assert_eq!(Fixed::from_int(-4).sqrt(), Fixed::zero());
    assert_eq!(raw(i64::MIN).sqrt(), Fixed::zero());
}

#[test]
fn vec2_algebra() {
    let a = Vec2::new(Fixed::from_int(3), Fixed::from_int(-4));
    let b = Vec2::new(Fixed::from_int(1), Fixed::from_int(2));
    assert_eq!(a.add(b), Vec2::new(Fixed::from_int(4), Fixed::from_int(-2)));
    assert_eq!(a.sub(b), Vec2::new(Fixed::from_int(2), Fixed::from_int(-6)));
    assert_eq!(a.scale(raw(500_000)), Vec2::new(raw(1_500_000), Fixed::from_int(-2)));
    assert_eq!(a.dot(b), Fixed::from_int(-5));
    assert_eq!(Vec2::zero(), Vec2::new(Fixed::zero(), Fixed::zero()));
    assert_eq!(Vec2::splat(raw(7)), Vec2::new(raw(7), raw(7)));
}

#[test]
fn vec2_length_comparison_is_exact() {
    let v = Vec2::new(Fixed::from_int(3), Fixed::from_int(-4));
    assert!(!v.is_shorter_than(Fixed::from_int(5)));
    assert!(v.is_shorter_than(raw(5_000_001)));
    assert!(!v.is_shorter_than(Fixed::from_int(-5)));
    assert!(v.is_shorter_than(raw(-5_000_001)));
    assert!(!Vec2::zero().is_shorter_than(Fixed::zero()));
    assert!(Vec2::zero().is_shorter_than(raw(1)));
}

#[test]
fn vec2_length_comparison_survives_extremes() {
    let big = Vec2::new(raw(i64::MIN), raw(i64::MIN));
    assert!(!big.is_shorter_than(raw(i64::MIN)));
    assert!(!big.is_shorter_than(raw(i64::MAX)));
    let axis = Vec2::new(raw(i64::MAX), Fixed::zero());
    assert!(axis.is_shorter_than(raw(i64::MIN)));
    assert!(!axis.is_shorter_than(raw(i64::MAX)));
}

#[test]
fn decay_over_whole_seconds_is_a_plain_power() {
    assert_eq!(decay(raw(50_000), Fixed::one()), raw(950_000));
    assert_eq!(decay(raw(50_000), Fixed::from_int(3)), raw(857_375));
    assert_eq!(decay(raw(500_000), Fixed::from_int(2)), raw(250_000));
}

#[test]
fn decay_over_fractions_uses_square_roots() {
    assert_eq!(decay(raw(50_000), raw(500_000)), raw(974_679));
    assert_eq!(decay(raw(50_000), raw(250_000)), raw(987_258));
    assert_eq!(decay(raw(50_000), raw(2_500_000)), raw(879_647));
    assert_eq!(decay(raw(50_000), raw(16_667)), raw(999_139));
    assert_eq!(decay(raw(800_000), raw(16_667)), raw(973_527));
}

#[test]
fn decay_over_no_time_is_one() {
    assert_eq!(decay(raw(50_000), Fixed::zero()), Fixed::one());
    assert_eq!(decay(raw(50_000), Fixed::from_int(-3)), Fixed::one());
    assert_eq!(decay(Fixed::one(), Fixed::zero()), Fixed::one());
}

#[test]
fn decay_with_extreme_drag() {
    assert_eq!(decay(Fixed::one(), raw(1)), Fixed::zero());
    assert_eq!(decay(Fixed::from_int(2), raw(500_000)), Fixed::zero());
    assert_eq!(decay(Fixed::zero(), Fixed::from_int(1_000)), Fixed::one());
    assert_eq!(decay(Fixed::from_int(-1), Fixed::from_int(7)), Fixed::one());
    assert_eq!(decay(raw(1), raw(i64::MAX)), Fixed::zero());
}

#[test]
fn two_half_steps_decay_like_one_whole_step() {
    let half = decay(raw(50_000), raw(500_000));
    let whole = decay(raw(50_000), Fixed::one());
    let twice = half.mul(half);
    assert_eq!(twice, raw(949_999));
    assert!(whole.raw() - twice.raw() <= 2 && twice.raw() <= whole.raw());
    let v = Fixed::from_int(100);
    assert_eq!(v.mul(half).mul(half), raw(94_999_915));
    assert_eq!(v.mul(whole), Fixed::from_int(95));
}
