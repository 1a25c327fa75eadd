use rtrace::color::{Color, ColorBase, FresnelIndex};
use rtrace::complex::Complex;
use rtrace::fixed::Fixed;
use rtrace::numeric::Numeric;

fn raw(value: i64) -> Fixed {
    Fixed::from_raw(value)
}

fn color(r: i64, g: i64, b: i64) -> Color {
    Color::new(raw(r), raw(g), raw(b))
}

#[test]
fn new_and_get_agree() {
    let made = color(1, 2, 3);
    assert_eq!(made.get(), (raw(1), raw(2), raw(3)));
    assert_eq!(made.r, raw(1));
    assert_eq!(made.g, raw(2));
    assert_eq!(made.b, raw(3));
}

#[test]
fn zero_and_one() {
    assert_eq!(Color::zero().get(), (raw(0), raw(0), raw(0)));
    assert_eq!(Color::one().get(), (raw(1_000_000), raw(1_000_000), raw(1_000_000)));
}

#[test]
fn normalize_clamps_each_channel_to_one() {
    let mut made = color(1_500_000, 200_000, 1_000_001);
    made.normalize();
    assert_eq!(made.get(), (raw(1_000_000), raw(200_000), raw(1_000_000)));
}

#[test]
fn normalize_leaves_normalized_colors_unchanged() {
    let mut made = color(1_000_000, -300_000, 0);
    made.normalize();
    assert_eq!(made.get(), (raw(1_000_000), raw(-300_000), raw(0)));
    let once = color(7_000_000, 999_999, 3).normalized();
    let twice = once.normalized();
    assert_eq!(once.get(), twice.get());
    assert_eq!(once.get(), (raw(1_000_000), raw(999_999), raw(3)));
}

#[test]
fn normalized_leaves_its_argument_alone() {
    let made = color(2_000_000, 0, 0);
    let clamped = made.normalized();
    assert_eq!(made.get(), (raw(2_000_000), raw(0), raw(0)));
    assert_eq!(clamped.get(), (raw(1_000_000), raw(0), raw(0)));
}

#[test]
fn equal_eps_compares_within_the_tolerance() {
    let made = color(100, 200, 300);
    assert!(made.equal_eps(&color(109, 191, 300)));
    assert!(!made.equal_eps(&color(110, 200, 300)));
    assert!(!made.equal_eps(&color(100, 190, 300)));
    assert!(!made.equal_eps(&color(100, 200, 310)));
}

#[test]
fn mul_scalar_scales_each_channel() {
    let made = color(1_000_000, 200_000, 250_000).mul_scalar(&Fixed::from_int(255));
    assert_eq!(made.get(), (raw(255_000_000), raw(51_000_000), raw(63_750_000)));
}

#[test]
fn recip_inverts_each_channel() {
    let made = color(2_000_000, 4_000_000, 0).recip();
    assert_eq!(made.get(), (raw(500_000), raw(250_000), raw(i64::MAX)));
}

#[test]
fn avg_intensity_is_the_mean() {
    assert_eq!(color(1_000_000, 2_000_000, 3_000_000).avg_intensity(), raw(2_000_000));
    assert_eq!(color(1_000_000, 0, 0).avg_intensity(), raw(333_333));
}

#[test]
fn scale_normalized_divides_by_the_largest_channel() {
    let made = color(2_000_000, 1_000_000, 500_000).scale_normalized();
    assert_eq!(made.get(), (raw(1_000_000), raw(500_000), raw(250_000)));
    let green = color(1, 4_000_000, 3_000_000).scale_normalized();
    assert_eq!(green.get(), (raw(0), raw(1_000_000), raw(750_000)));
}

#[test]
fn scale_normalized_keeps_colors_within_one() {
    let made = color(1_000_000, 300_000, 0).scale_normalized();
    assert_eq!(made.get(), (raw(1_000_000), raw(300_000), raw(0)));
}

#[test]
fn operators_work_channel_by_channel() {
    let a = color(1_000_000, 2_000_000, 3_000_000);
    let b = color(500_000, 500_000, 4_000_000);
    assert_eq!((a + b).get(), (raw(1_500_000), raw(2_500_000), raw(7_000_000)));
    assert_eq!((a - b).get(), (raw(500_000), raw(1_500_000), raw(-1_000_000)));
    assert_eq!((a * b).get(), (raw(500_000), raw(1_000_000), raw(12_000_000)));
}

#[test]
fn assigning_operators_work_channel_by_channel() {
    let b = color(500_000, 500_000, 4_000_000);
    let mut sum = color(1_000_000, 2_000_000, 3_000_000);
    sum += b;
    assert_eq!(sum.get(), (raw(1_500_000), raw(2_500_000), raw(7_000_000)));
    let mut difference = color(1_000_000, 2_000_000, 3_000_000);
    difference -= b;
    assert_eq!(difference.get(), (raw(500_000), raw(1_500_000), raw(-1_000_000)));
    let mut product = color(1_000_000, 2_000_000, 3_000_000);
    product *= b;
    assert_eq!(product.get(), (raw(500_000), raw(1_000_000), raw(12_000_000)));
}

#[test]
fn complex_arithmetic() {
    let a = Complex::new(Fixed::from_int(1), Fixed::from_int(2));
    let b = Complex::new(Fixed::from_int(3), Fixed::from_int(-1));
    assert_eq!(a.plus(b), Complex::new(Fixed::from_int(4), Fixed::from_int(1)));
    assert_eq!(a.minus(b), Complex::new(Fixed::from_int(-2), Fixed::from_int(3)));
    assert_eq!(a.times(b), Complex::new(Fixed::from_int(5), Fixed::from_int(5)));
    assert_eq!(a.over(b), Complex::new(raw(100_000), raw(700_000)));
    assert_eq!(b.norm_squared(), Fixed::from_int(10));
    assert_eq!(Complex::one().times(a), a);
    assert_eq!(Complex::zero().plus(a), a);
}

#[test]
fn fresnel_indices_are_colors_of_complex_numbers() {
    let index = FresnelIndex::new(
        Complex::from_real(raw(1_550_000)),
        Complex::from_real(raw(1_500_000)),
        Complex::from_real(raw(1_450_000)),
    );
    let doubled = index + index;
    assert_eq!(doubled.g, Complex::from_real(Fixed::from_int(3)));
    let unit: FresnelIndex = ColorBase::one();
    assert_eq!((index * unit).get(), index.get());
}
