//! Complex numbers over fixed-point parts, as Fresnel indices use them.

use crate::fixed::Fixed;
use crate::numeric::Numeric;
use vstd::prelude::*;

verus! {

/// The complex number `re + im * i`.
#[derive(Clone, Copy, Debug, PartialEq, Eq, Structural)]
pub struct Complex {
    pub re: Fixed,
    pub im: Fixed,
}

impl Complex {
    #[verifier::allow_in_spec]
    pub fn new(re: Fixed, im: Fixed) -> Complex
        returns
            (Complex { re, im }),
    {
        Complex { re, im }
    }

    /// The real number `re` as a complex one.
    #[verifier::allow_in_spec]
    pub fn from_real(re: Fixed) -> Complex
        returns
            (Complex { re, im: Fixed::zero() }),
    {
        Complex { re, im: Fixed::zero() }
    }

    /// The square of the modulus.
    #[verifier::allow_in_spec]
    pub fn norm_squared(self) -> Fixed
        returns
            self.re.times(self.re).plus(self.im.times(self.im)),
    {
        self.re.times(self.re).plus(self.im.times(self.im))
    }
}

impl Numeric for Complex {
    open spec fn spec_zero() -> Self {
        Complex { re: Fixed::zero(), im: Fixed::zero() }
    }

    open spec fn spec_one() -> Self {
        Complex { re: Fixed::one(), im: Fixed::zero() }
    }

    open spec fn spec_plus(self, rhs: Self) -> Self {
        Complex { re: self.re.plus(rhs.re), im: self.im.plus(rhs.im) }
    }

    open spec fn spec_minus(self, rhs: Self) -> Self {
        Complex { re: self.re.minus(rhs.re), im: self.im.minus(rhs.im) }
    }

    open spec fn spec_times(self, rhs: Self) -> Self {
        Complex {
            re: self.re.times(rhs.re).minus(self.im.times(rhs.im)),
            im: self.re.times(rhs.im).plus(self.im.times(rhs.re)),
        }
    }

    /// The product with the conjugate of `rhs`, divided by the squared modulus
    /// of `rhs`.
    open spec fn spec_over(self, rhs: Self) -> Self {
        Complex {
            re: self.re.times(rhs.re).plus(self.im.times(rhs.im)).over(rhs.norm_squared()),
            im: self.im.times(rhs.re).minus(self.re.times(rhs.im)).over(rhs.norm_squared()),
        }
    }

    fn zero() -> (value: Self) {
        Complex { re: Fixed::zero(), im: Fixed::zero() }
    }

    fn one() -> (value: Self) {
        Complex { re: Fixed::one(), im: Fixed::zero() }
    }

    fn plus(self, rhs: Self) -> (value: Self) {
        Complex { re: self.re.plus(rhs.re), im: self.im.plus(rhs.im) }
    }

    fn minus(self, rhs: Self) -> (value: Self) {
        Complex { re: self.re.minus(rhs.re), im: self.im.minus(rhs.im) }
    }

    fn times(self, rhs: Self) -> (value: Self) {
        Complex {
            re: self.re.times(rhs.re).minus(self.im.times(rhs.im)),
            im: self.re.times(rhs.im).plus(self.im.times(rhs.re)),
        }
    }

    fn over(self, rhs: Self) -> (value: Self) {
        let modulus = rhs.norm_squared();
        Complex {
            re: self.re.times(rhs.re).plus(self.im.times(rhs.im)).over(modulus),
            im: self.im.times(rhs.re).minus(self.re.times(rhs.im)).over(modulus),
        }
    }
}

} // verus!
