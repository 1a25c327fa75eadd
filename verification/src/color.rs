//! Three-channel colours over any numeric channel type.

use crate::complex::Complex;
use crate::fixed::Fixed;
use crate::numeric::{numeric_max, numeric_min, spec_max, spec_min, Numeric, OrderedNumeric};
use vstd::prelude::*;
use vstd::std_specs::ops::{AddSpecImpl, MulSpecImpl, SubSpecImpl};

verus! {

/// A colour: a red, a green and a blue channel.
#[derive(Debug)]
pub struct ColorBase<T> {
    pub r: T,
    pub g: T,
    pub b: T,
}

impl<T: Copy> Clone for ColorBase<T> {
    fn clone(&self) -> (copy: Self)
        ensures
            copy == *self,
    {
        *self
    }
}

impl<T: Copy> Copy for ColorBase<T> {

}

/// Colours with real-valued channels.
pub type Color = ColorBase<Fixed>;

/// Refractive indices, one complex number for each channel.
pub type FresnelIndex = ColorBase<Complex>;

impl<T: Numeric> ColorBase<T> {
    /// Each channel multiplied by `factor`.
    pub open spec fn spec_mul_scalar(self, factor: T) -> Self {
        ColorBase {
            r: self.r.spec_times(factor),
            g: self.g.spec_times(factor),
            b: self.b.spec_times(factor),
        }
    }

    /// Each channel replaced by its reciprocal.
    pub open spec fn spec_recip(self) -> Self {
        ColorBase {
            r: T::spec_one().spec_over(self.r),
            g: T::spec_one().spec_over(self.g),
            b: T::spec_one().spec_over(self.b),
        }
    }

    /// The channel value three.
    pub open spec fn spec_three() -> T {
        T::spec_one().spec_plus(T::spec_one()).spec_plus(T::spec_one())
    }

    /// The mean of the three channels.
    pub open spec fn spec_avg_intensity(self) -> T {
        self.r.spec_plus(self.g).spec_plus(self.b).spec_over(Self::spec_three())
    }

    /// The channel-wise sum.
    pub open spec fn spec_plus(self, rhs: Self) -> Self {
        ColorBase {
            r: self.r.spec_plus(rhs.r),
            g: self.g.spec_plus(rhs.g),
            b: self.b.spec_plus(rhs.b),
        }
    }

    /// The channel-wise difference.
    pub open spec fn spec_minus(self, rhs: Self) -> Self {
        ColorBase {
            r: self.r.spec_minus(rhs.r),
            g: self.g.spec_minus(rhs.g),
            b: self.b.spec_minus(rhs.b),
        }
    }

    /// The channel-wise product.
    pub open spec fn spec_times(self, rhs: Self) -> Self {
        ColorBase {
            r: self.r.spec_times(rhs.r),
            g: self.g.spec_times(rhs.g),
            b: self.b.spec_times(rhs.b),
        }
    }

    pub fn new(r: T, g: T, b: T) -> (color: Self)
        ensures
            color == (ColorBase { r, g, b }),
    {
        ColorBase { r, g, b }
    }

    pub fn get(&self) -> (channels: (T, T, T))
        ensures
            channels == (self.r, self.g, self.b),
    {
        (self.r, self.g, self.b)
    }

    pub fn mul_scalar(&self, other: &T) -> (scaled: Self)
        ensures
            scaled == self.spec_mul_scalar(*other),
    {
        ColorBase {
            r: self.r.times(*other),
            g: self.g.times(*other),
            b: self.b.times(*other),
        }
    }

    pub fn recip(&self) -> (inverse: Self)
        ensures
            inverse == self.spec_recip(),
    {
        ColorBase {
            r: T::one().over(self.r),
            g: T::one().over(self.g),
            b: T::one().over(self.b),
        }
    }

    pub fn avg_intensity(&self) -> (mean: T)
        ensures
            mean == self.spec_avg_intensity(),
    {
        let three = T::one().plus(T::one()).plus(T::one());
        self.r.plus(self.g).plus(self.b).over(three)
    }

    pub fn zero() -> (color: Self)
        ensures
            color == (ColorBase { r: T::spec_zero(), g: T::spec_zero(), b: T::spec_zero() }),
    {
        ColorBase { r: T::zero(), g: T::zero(), b: T::zero() }
    }

    pub fn one() -> (color: Self)
        ensures
            color == (ColorBase { r: T::spec_one(), g: T::spec_one(), b: T::spec_one() }),
    {
        ColorBase { r: T::one(), g: T::one(), b: T::one() }
    }
}

impl<T: OrderedNumeric> ColorBase<T> {
    /// Every channel is at most one.
    pub open spec fn spec_is_normalized(self) -> bool {
        &&& self.r.spec_le(T::spec_one())
        &&& self.g.spec_le(T::spec_one())
        &&& self.b.spec_le(T::spec_one())
    }

    /// Each channel cut off at one.
    pub open spec fn spec_normalized(self) -> Self {
        ColorBase {
            r: spec_min(self.r, T::spec_one()),
            g: spec_min(self.g, T::spec_one()),
            b: spec_min(self.b, T::spec_one()),
        }
    }

    /// The largest channel.
    pub open spec fn spec_maximum(self) -> T {
        spec_max(self.r, spec_max(self.g, self.b))
    }

    /// The colour divided by its largest channel where that exceeds one, and
    /// the colour itself otherwise.
    pub open spec fn spec_scale_normalized(self) -> Self {
        let maximum = self.spec_maximum();
        if maximum.spec_le(T::spec_one()) {
            self
        } else {
            ColorBase {
                r: self.r.spec_over(maximum),
                g: self.g.spec_over(maximum),
                b: self.b.spec_over(maximum),
            }
        }
    }

    /// Numeric by channel equality up to the tolerance.
    pub open spec fn spec_equal_eps(self, other: Self) -> bool {
        &&& self.r.spec_near(other.r)
        &&& self.g.spec_near(other.g)
        &&& self.b.spec_near(other.b)
    }

    pub fn equal_eps(&self, other: &ColorBase<T>) -> (equal: bool)
        ensures
            equal == self.spec_equal_eps(*other),
    {
        self.r.near(other.r) && self.g.near(other.g) && self.b.near(other.b)
    }

    pub fn normalize(&mut self)
        ensures
            *final(self) == old(self).spec_normalized(),
            final(self).spec_is_normalized(),
            old(self).spec_is_normalized() ==> *final(self) == *old(self),
    {
        proof {
            Self::lemma_normalized_is_normalized(*self);
        }
        self.r = numeric_min(self.r, T::one());
        self.g = numeric_min(self.g, T::one());
        self.b = numeric_min(self.b, T::one());
    }

    pub fn normalized(&self) -> (result: ColorBase<T>)
        ensures
            result == self.spec_normalized(),
            result.spec_is_normalized(),
            self.spec_is_normalized() ==> result == *self,
    {
        let mut result = self.clone();
        result.normalize();
        result
    }

    pub fn scale_normalized(&self) -> (result: Self)
        ensures
            result == self.spec_scale_normalized(),
    {
        let maximum = numeric_max(self.r, numeric_max(self.g, self.b));
        if !maximum.le(T::one()) {
            ColorBase {
                r: self.r.over(maximum),
                g: self.g.over(maximum),
                b: self.b.over(maximum),
            }
        } else {
            *self
        }
    }

    /// A normalized colour has every channel at most one, and normalizing a
    /// colour whose channels are all at most one changes nothing; so normalizing
    /// twice is the same as normalizing once.
    pub proof fn lemma_normalized_is_normalized(color: Self)
        ensures
            color.spec_normalized().spec_is_normalized(),
            color.spec_is_normalized() ==> color.spec_normalized() == color,
            color.spec_normalized().spec_normalized() == color.spec_normalized(),
    {
        T::lemma_le_total(T::spec_one(), T::spec_one());
    }
}

impl ColorBase<Fixed> {
    /// Scaling a colour by its largest channel brings every channel to at most
    /// one.
    pub proof fn lemma_scale_normalized_is_normalized(color: Color)
        ensures
            color.spec_scale_normalized().spec_is_normalized(),
    {
        let maximum = color.spec_maximum();
        if !maximum.spec_le(Fixed::one()) {
            Self::lemma_quotient_at_most_one(color.r, maximum);
            Self::lemma_quotient_at_most_one(color.g, maximum);
            Self::lemma_quotient_at_most_one(color.b, maximum);
        }
    }

    /// A number divided by a positive number that is no smaller is at most
    /// one.
    proof fn lemma_quotient_at_most_one(channel: Fixed, maximum: Fixed)
        requires
            channel.raw <= maximum.raw,
            maximum.raw > 0,
        ensures
            channel.over(maximum).raw <= Fixed::one().raw,
    {
        let scaled = channel.raw * crate::fixed::SCALE;
        let size = crate::fixed::magnitude(scaled);
        if channel.raw >= 0 {
            assert(size / (maximum.raw as int) <= 1_000_000) by (nonlinear_arith)
                requires
                    size == channel.raw * 1_000_000,
                    0 <= channel.raw <= maximum.raw,
                    maximum.raw > 0,
            ;
        } else {
            assert(size / (maximum.raw as int) >= 0) by (nonlinear_arith)
                requires
                    size >= 0,
                    maximum.raw > 0,
            ;
            assert(scaled < 0) by (nonlinear_arith)
                requires
                    scaled == channel.raw * 1_000_000,
                    channel.raw < 0,
            ;
        }
    }
}

impl<T: Numeric> AddSpecImpl for ColorBase<T> {
    open spec fn obeys_add_spec() -> bool {
        true
    }

    open spec fn add_req(self, other: ColorBase<T>) -> bool {
        true
    }

    open spec fn add_spec(self, other: ColorBase<T>) -> ColorBase<T> {
        self.spec_plus(other)
    }
}

impl<T: Numeric> core::ops::Add for ColorBase<T> {
    type Output = ColorBase<T>;

    fn add(self, other: ColorBase<T>) -> (sum: ColorBase<T>)
        ensures
            sum == self.spec_plus(other),
    {
        ColorBase {
            r: self.r.plus(other.r),
            g: self.g.plus(other.g),
            b: self.b.plus(other.b),
        }
    }
}

impl<T: Numeric> core::ops::AddAssign for ColorBase<T> {
    fn add_assign(&mut self, other: ColorBase<T>)
        ensures
            *final(self) == old(self).spec_plus(other),
    {
        self.r = self.r.plus(other.r);
        self.g = self.g.plus(other.g);
        self.b = self.b.plus(other.b);
    }
}

impl<T: Numeric> SubSpecImpl for ColorBase<T> {
    open spec fn obeys_sub_spec() -> bool {
        true
    }

    open spec fn sub_req(self, other: ColorBase<T>) -> bool {
        true
    }

    open spec fn sub_spec(self, other: ColorBase<T>) -> ColorBase<T> {
        self.spec_minus(other)
    }
}

impl<T: Numeric> core::ops::Sub for ColorBase<T> {
    type Output = ColorBase<T>;

    fn sub(self, other: ColorBase<T>) -> (difference: ColorBase<T>)
        ensures
            difference == self.spec_minus(other),
    {
        ColorBase {
            r: self.r.minus(other.r),
            g: self.g.minus(other.g),
            b: self.b.minus(other.b),
        }
    }
}

impl<T: Numeric> core::ops::SubAssign for ColorBase<T> {
    fn sub_assign(&mut self, other: ColorBase<T>)
        ensures
            *final(self) == old(self).spec_minus(other),
    {
        self.r = self.r.minus(other.r);
        self.g = self.g.minus(other.g);
        self.b = self.b.minus(other.b);
    }
}

impl<T: Numeric> MulSpecImpl for ColorBase<T> {
    open spec fn obeys_mul_spec() -> bool {
        true
    }

    open spec fn mul_req(self, other: ColorBase<T>) -> bool {
        true
    }

    open spec fn mul_spec(self, other: ColorBase<T>) -> ColorBase<T> {
        self.spec_times(other)
    }
}

impl<T: Numeric> core::ops::Mul for ColorBase<T> {
    type Output = ColorBase<T>;

    fn mul(self, other: ColorBase<T>) -> (product: ColorBase<T>)
        ensures
            product == self.spec_times(other),
    {
        ColorBase {
            r: self.r.times(other.r),
            g: self.g.times(other.g),
            b: self.b.times(other.b),
        }
    }
}

impl<T: Numeric> core::ops::MulAssign for ColorBase<T> {
    fn mul_assign(&mut self, other: ColorBase<T>)
        ensures
            *final(self) == old(self).spec_times(other),
    {
        self.r = self.r.times(other.r);
        self.g = self.g.times(other.g);
        self.b = self.b.times(other.b);
    }
}

} // verus!
