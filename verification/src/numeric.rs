//! The number types that colours and matrices are built over.

use crate::fixed::{magnitude, Fixed, EPSILON};
use vstd::prelude::*;

verus! {

/// The arithmetic of a number type. Every operation is total and its result is
/// fixed by the matching specification function.
pub trait Numeric: Sized + Copy {
    spec fn spec_zero() -> Self;

    spec fn spec_one() -> Self;

    spec fn spec_plus(self, rhs: Self) -> Self;

    spec fn spec_minus(self, rhs: Self) -> Self;

    spec fn spec_times(self, rhs: Self) -> Self;

    spec fn spec_over(self, rhs: Self) -> Self;

    fn zero() -> (value: Self)
        ensures
            value == Self::spec_zero(),
    ;

    fn one() -> (value: Self)
        ensures
            value == Self::spec_one(),
    ;

    fn plus(self, rhs: Self) -> (value: Self)
        ensures
            value == self.spec_plus(rhs),
    ;

    fn minus(self, rhs: Self) -> (value: Self)
        ensures
            value == self.spec_minus(rhs),
    ;

    fn times(self, rhs: Self) -> (value: Self)
        ensures
            value == self.spec_times(rhs),
    ;

    fn over(self, rhs: Self) -> (value: Self)
        ensures
            value == self.spec_over(rhs),
    ;
}

/// A number type whose values are totally preordered and can be compared with a
/// tolerance.
pub trait OrderedNumeric: Numeric {
    /// `self` is at most `rhs`.
    spec fn spec_le(self, rhs: Self) -> bool;

    /// `self` and `rhs` are equal up to the tolerance of the number type.
    spec fn spec_near(self, rhs: Self) -> bool;

    /// Any two values are comparable.
    proof fn lemma_le_total(a: Self, b: Self)
        ensures
            a.spec_le(b) || b.spec_le(a),
    ;

    fn le(self, rhs: Self) -> (holds: bool)
        ensures
            holds == self.spec_le(rhs),
    ;

    fn near(self, rhs: Self) -> (holds: bool)
        ensures
            holds == self.spec_near(rhs),
    ;
}

impl Numeric for Fixed {
    open spec fn spec_zero() -> Self {
        Fixed::zero()
    }

    open spec fn spec_one() -> Self {
        Fixed::one()
    }

    open spec fn spec_plus(self, rhs: Self) -> Self {
        Fixed::plus(self, rhs)
    }

    open spec fn spec_minus(self, rhs: Self) -> Self {
        Fixed::minus(self, rhs)
    }

    open spec fn spec_times(self, rhs: Self) -> Self {
        Fixed::times(self, rhs)
    }

    open spec fn spec_over(self, rhs: Self) -> Self {
        Fixed::over(self, rhs)
    }

    fn zero() -> (value: Self) {
        Fixed::zero()
    }

    fn one() -> (value: Self) {
        Fixed::one()
    }

    fn plus(self, rhs: Self) -> (value: Self) {
        Fixed::plus(self, rhs)
    }

    fn minus(self, rhs: Self) -> (value: Self) {
        Fixed::minus(self, rhs)
    }

    fn times(self, rhs: Self) -> (value: Self) {
        Fixed::times(self, rhs)
    }

    fn over(self, rhs: Self) -> (value: Self) {
        Fixed::over(self, rhs)
    }
}

impl OrderedNumeric for Fixed {
    open spec fn spec_le(self, rhs: Self) -> bool {
        self.raw <= rhs.raw
    }

    open spec fn spec_near(self, rhs: Self) -> bool {
        magnitude(self.raw - rhs.raw) < EPSILON
    }

    proof fn lemma_le_total(a: Self, b: Self) {
    }

    fn le(self, rhs: Self) -> (holds: bool) {
        self.raw <= rhs.raw
    }

    fn near(self, rhs: Self) -> (holds: bool) {
        Fixed::near(self, rhs)
    }
}

/// The smaller of two numbers; the first when neither is smaller.
pub open spec fn spec_min<T: OrderedNumeric>(a: T, b: T) -> T {
    if a.spec_le(b) {
        a
    } else {
        b
    }
}

/// The larger of two numbers; the first when neither is larger.
pub open spec fn spec_max<T: OrderedNumeric>(a: T, b: T) -> T {
    if b.spec_le(a) {
        a
    } else {
        b
    }
}

/// The smaller of two numbers.
pub fn numeric_min<T: OrderedNumeric>(a: T, b: T) -> (least: T)
    ensures
        least == spec_min(a, b),
{
    if a.le(b) {
        a
    } else {
        b
    }
}

/// The larger of two numbers.
pub fn numeric_max<T: OrderedNumeric>(a: T, b: T) -> (greatest: T)
    ensures
        greatest == spec_max(a, b),
{
    if b.le(a) {
        a
    } else {
        b
    }
}

} // verus!
