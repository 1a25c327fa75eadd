use rtrace::fixed::{isqrt, Fixed, EPSILON, SCALE};

fn raw(value: i64) -> Fixed {
    Fixed::from_raw(value)
}

#[test]
fn one_is_a_million_raw_units() {
    assert_eq!(SCALE, 1_000_000);
    assert_eq!(Fixed::one().raw, 1_000_000);
    assert_eq!(Fixed::zero().raw, 0);
    assert_eq!(Fixed::from_int(-3).raw, -3_000_000);
}

#[test]
fn sums_and_differences_saturate() {
    assert_eq!(raw(250_000).plus(raw(750_000)), Fixed::one());
    assert_eq!(raw(i64::MAX).plus(raw(1)), raw(i64::MAX));
    assert_eq!(raw(i64::MIN).plus(raw(-1)), raw(i64::MIN));
    assert_eq!(raw(i64::MIN).minus(raw(1)), raw(i64::MIN));
    assert_eq!(raw(i64::MAX).minus(raw(-1)), raw(i64::MAX));
    assert_eq!(raw(5).minus(raw(7)), raw(-2));
    assert_eq!(raw(i64::MIN).neg(), raw(i64::MAX));
    assert_eq!(raw(12).neg(), raw(-12));
}

#[test]
fn products_round_toward_zero() {
    assert_eq!(raw(1_500_000).times(raw(2_000_000)), raw(3_000_000));
    assert_eq!(raw(1).times(raw(999_999)), raw(0));
    assert_eq!(raw(-1).times(raw(999_999)), raw(0));
    assert_eq!(raw(-1_500_000).times(raw(1_500_001)), raw(-2_250_001));
    assert_eq!(raw(i64::MAX).times(raw(2_000_000)), raw(i64::MAX));
    assert_eq!(raw(i64::MAX).times(raw(-2_000_000)), raw(i64::MIN));
}

#[test]
fn quotients_round_toward_zero() {
    assert_eq!(Fixed::one().over(Fixed::from_int(3)), raw(333_333));
    assert_eq!(Fixed::from_int(-1).over(Fixed::from_int(3)), raw(-333_333));
    assert_eq!(Fixed::from_int(1).over(Fixed::from_int(-3)), raw(-333_333));
    assert_eq!(Fixed::from_int(-7).over(Fixed::from_int(-2)), raw(3_500_000));
    assert_eq!(Fixed::from_ratio(1, 4), raw(250_000));
    assert_eq!(Fixed::from_ratio(-1, 8), raw(-125_000));
}

#[test]
fn division_by_zero_gives_the_extreme_of_the_sign() {
    assert_eq!(Fixed::one().over(Fixed::zero()), raw(i64::MAX));
    assert_eq!(Fixed::from_int(-1).over(Fixed::zero()), raw(i64::MIN));
    assert_eq!(Fixed::zero().over(Fixed::zero()), Fixed::zero());
    assert_eq!(Fixed::zero().recip(), raw(i64::MAX));
    assert_eq!(Fixed::from_int(4).recip(), raw(250_000));
}

#[test]
fn smaller_and_larger() {
    assert_eq!(raw(3).min(raw(4)), raw(3));
    assert_eq!(raw(4).min(raw(3)), raw(3));
    assert_eq!(raw(3).max(raw(4)), raw(4));
    assert_eq!(raw(-3).max(raw(-4)), raw(-3));
}

#[test]
fn nearness_is_strictly_within_the_tolerance() {
    assert_eq!(EPSILON, 10);
    assert!(raw(100).near(raw(109)));
    assert!(raw(100).near(raw(91)));
    assert!(!raw(100).near(raw(110)));
    assert!(!raw(100).near(raw(90)));
    assert!(raw(9).near_zero_eps());
    assert!(raw(-9).near_zero_eps());
    assert!(!raw(10).near_zero_eps());
    assert!(!raw(i64::MIN).near(raw(i64::MAX)));
}

#[test]
fn whole_part_rounds_toward_zero() {
    assert_eq!(raw(2_999_999).whole(), 2);
    assert_eq!(raw(-2_999_999).whole(), -2);
    assert_eq!(raw(-1).whole(), 0);
}

#[test]
fn square_roots_round_down() {
    assert_eq!(isqrt(0), 0);
    assert_eq!(isqrt(1), 1);
    assert_eq!(isqrt(15), 3);
    assert_eq!(isqrt(16), 4);
    assert_eq!(isqrt(u128::MAX), u64::MAX);
    assert_eq!(Fixed::from_int(4).sqrt(), Fixed::from_int(2));
    assert_eq!(Fixed::from_int(2).sqrt(), raw(1_414_213));
    assert_eq!(raw(250_000).sqrt(), raw(500_000));
    assert_eq!(Fixed::from_int(-4).sqrt(), Fixed::zero());
    assert_eq!(raw(i64::MAX).sqrt(), raw(3_037_000_499_976));
}
