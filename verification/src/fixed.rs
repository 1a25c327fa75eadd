//! Saturating fixed-point numbers with six decimal places.
//!
//! Every operation is total: a result that does not fit is pinned to the nearest
//! representable number, and a division by zero gives the largest magnitude of the
//! dividend's sign (zero for `0 / 0`).

use vstd::prelude::*;

verus! {

/// Raw units in one whole.
pub const SCALE: i64 = 1_000_000;

/// Tolerance of the approximate comparisons, in raw units.
pub const EPSILON: i64 = 10;

/// The `i64` nearest to `v`.
pub open spec fn saturate(v: int) -> i64 {
    if v < i64::MIN {
        i64::MIN
    } else if v > i64::MAX {
        i64::MAX
    } else {
        v as i64
    }
}

/// The magnitude of `v`.
pub open spec fn magnitude(v: int) -> int {
    if v < 0 {
        -v
    } else {
        v
    }
}

/// The quotient `n / d` rounded toward zero. Dividing by zero gives the extreme
/// raw value of the sign of `n`, and zero when `n` is zero too.
pub open spec fn quotient(n: int, d: int) -> int {
    if d == 0 {
        if n > 0 {
            i64::MAX as int
        } else if n < 0 {
            i64::MIN as int
        } else {
            0
        }
    } else if (n < 0) == (d < 0) {
        magnitude(n) / magnitude(d)
    } else {
        -(magnitude(n) / magnitude(d))
    }
}

/// Whether `r` is the integer part of the square root of `n`.
pub open spec fn is_int_sqrt(n: nat, r: nat) -> bool {
    r * r <= n < (r + 1) * (r + 1)
}

/// The largest natural number whose square does not exceed `n`.
pub open spec fn int_sqrt(n: nat) -> nat {
    choose|r: nat| is_int_sqrt(n, r)
}

/// Squares grow with their argument.
pub proof fn lemma_square_monotonic(a: nat, b: nat)
    requires
        a <= b,
    ensures
        a * a <= b * b,
{
    assert(a * a <= b * b) by (nonlinear_arith)
        requires
            a <= b,
    ;
}

/// The defining bracket of `int_sqrt` has exactly one solution.
pub proof fn lemma_int_sqrt_unique(n: nat, r: nat)
    requires
        is_int_sqrt(n, r),
    ensures
        int_sqrt(n) == r,
{
    let s = int_sqrt(n);
    assert(is_int_sqrt(n, s));
    if s < r {
        lemma_square_monotonic(s + 1, r);
    } else if r < s {
        lemma_square_monotonic(r + 1, s);
    }
}

/// `int_sqrt` is the integer part of a square root.
pub proof fn lemma_int_sqrt_bracket(n: nat)
    ensures
        is_int_sqrt(n, int_sqrt(n)),
    decreases n,
{
    if n == 0 {
        let r: nat = 0;
        assert(r * r <= n < (r + 1) * (r + 1)) by (nonlinear_arith)
            requires
                r == 0,
                n == 0,
        ;
        assert(is_int_sqrt(n, r));
    } else {
        lemma_int_sqrt_bracket((n - 1) as nat);
        let p = int_sqrt((n - 1) as nat);
        if n < (p + 1) * (p + 1) {
            assert(is_int_sqrt(n, p));
        } else {
            let q = p + 1;
            assert(q * q <= n < (q + 1) * (q + 1)) by (nonlinear_arith)
                requires
                    n - 1 < q * q,
                    q * q <= n,
                    q >= 1,
            ;
            assert(is_int_sqrt(n, q));
        }
    }
}

/// Integer square root of a 128-bit number.
pub fn isqrt(n: u128) -> (r: u64)
    ensures
        r == int_sqrt(n as nat),
        r * r <= n < (r + 1) * (r + 1),
{
    let mut lo: u128 = 0;
    let mut hi: u128 = 0x1_0000_0000_0000_0000;
    assert(0x1_0000_0000_0000_0000int * 0x1_0000_0000_0000_0000int > u128::MAX) by (nonlinear_arith);
    while hi - lo > 1
        invariant
            lo < hi <= 0x1_0000_0000_0000_0000,
            lo * lo <= n < hi * hi,
        decreases hi - lo,
    {
        let mid: u128 = lo + (hi - lo) / 2;
        assert(mid * mid <= 0xFFFF_FFFF_FFFF_FFFF * 0xFFFF_FFFF_FFFF_FFFF) by (nonlinear_arith)
            requires
                0 <= mid <= 0xFFFF_FFFF_FFFF_FFFF,
        ;
        assert(0xFFFF_FFFF_FFFF_FFFFint * 0xFFFF_FFFF_FFFF_FFFFint <= u128::MAX) by (nonlinear_arith);
        if mid * mid <= n {
            lo = mid;
        } else {
            hi = mid;
        }
    }
    proof {
        lemma_int_sqrt_unique(n as nat, lo as nat);
    }
    lo as u64
}

/// The saturated quotient of a wide dividend by a raw divisor.
fn saturating_quotient(n: i128, d: i64) -> (q: i64)
    requires
        n > i128::MIN,
    ensures
        q == saturate(quotient(n as int, d as int)),
{
    if d == 0 {
        if n > 0 {
            i64::MAX
        } else if n < 0 {
            i64::MIN
        } else {
            0
        }
    } else {
        let un: u128 = if n < 0 { (-n) as u128 } else { n as u128 };
        let wide: i128 = d as i128;
        let ud: u128 = if wide < 0 { (-wide) as u128 } else { wide as u128 };
        let uq: u128 = un / ud;
        if (n < 0) == (d < 0) {
            if uq > i64::MAX as u128 {
                i64::MAX
            } else {
                uq as i64
            }
        } else {
            if uq > i64::MAX as u128 {
                i64::MIN
            } else {
                let signed: i64 = uq as i64;
                -signed
            }
        }
    }
}

/// A fixed-point number: `raw` counts millionths.
#[derive(Clone, Copy, Debug, PartialEq, Eq, Structural)]
pub struct Fixed {
    pub raw: i64,
}

impl Fixed {
    /// The number that `raw` millionths make.
    #[verifier::allow_in_spec]
    pub fn from_raw(raw: i64) -> Fixed
        returns
            (Fixed { raw }),
    {
        Fixed { raw }
    }

    /// The whole number `whole`.
    #[verifier::allow_in_spec]
    pub fn from_int(whole: i32) -> Fixed
        returns
            (Fixed { raw: (whole * SCALE) as i64 }),
    {
        let wide: i64 = whole as i64;
        Fixed { raw: wide * SCALE }
    }

    /// The whole number `count`.
    #[verifier::allow_in_spec]
    pub fn from_count(count: u32) -> Fixed
        returns
            (Fixed { raw: (count * SCALE) as i64 }),
    {
        let wide: i64 = count as i64;
        Fixed { raw: wide * SCALE }
    }

    /// The fraction `numerator / denominator`, rounded toward zero.
    #[verifier::allow_in_spec]
    pub fn from_ratio(numerator: i64, denominator: i64) -> Fixed
        returns
            (Fixed { raw: saturate(quotient(numerator * SCALE, denominator as int)) }),
    {
        Fixed { raw: numerator }.over(Fixed { raw: denominator })
    }

    #[verifier::allow_in_spec]
    pub fn zero() -> Fixed
        returns
            (Fixed { raw: 0 }),
    {
        Fixed { raw: 0 }
    }

    #[verifier::allow_in_spec]
    pub fn one() -> Fixed
        returns
            (Fixed { raw: SCALE }),
    {
        Fixed { raw: SCALE }
    }

    /// The saturated sum.
    #[verifier::allow_in_spec]
    pub fn plus(self, rhs: Fixed) -> Fixed
        returns
            (Fixed { raw: saturate(self.raw + rhs.raw) }),
    {
        let sum: i128 = self.raw as i128 + rhs.raw as i128;
        Fixed { raw: Self::narrow(sum) }
    }

    /// The saturated difference.
    #[verifier::allow_in_spec]
    pub fn minus(self, rhs: Fixed) -> Fixed
        returns
            (Fixed { raw: saturate(self.raw - rhs.raw) }),
    {
        let difference: i128 = self.raw as i128 - rhs.raw as i128;
        Fixed { raw: Self::narrow(difference) }
    }

    /// The saturated negation.
    #[verifier::allow_in_spec]
    pub fn neg(self) -> Fixed
        returns
            (Fixed { raw: saturate(-self.raw) }),
    {
        let negated: i128 = -(self.raw as i128);
        Fixed { raw: Self::narrow(negated) }
    }

    /// The saturated product, rounded toward zero.
    #[verifier::allow_in_spec]
    pub fn times(self, rhs: Fixed) -> Fixed
        returns
            (Fixed { raw: saturate(quotient(self.raw * rhs.raw, SCALE as int)) }),
    {
        assert(-0x4000_0000_0000_0000_0000_0000_0000_0000 < self.raw * rhs.raw
            <= 0x4000_0000_0000_0000_0000_0000_0000_0000) by (nonlinear_arith)
            requires
                -0x8000_0000_0000_0000 <= self.raw <= 0x7FFF_FFFF_FFFF_FFFF,
                -0x8000_0000_0000_0000 <= rhs.raw <= 0x7FFF_FFFF_FFFF_FFFF,
        ;
        let product: i128 = (self.raw as i128) * (rhs.raw as i128);
        Fixed { raw: saturating_quotient(product, SCALE) }
    }

    /// The saturated quotient, rounded toward zero.
    #[verifier::allow_in_spec]
    pub fn over(self, rhs: Fixed) -> Fixed
        returns
            (Fixed { raw: saturate(quotient(self.raw * SCALE, rhs.raw as int)) }),
    {
        assert(-0x4000_0000_0000_0000_0000_0000_0000_0000 < self.raw * SCALE
            <= 0x4000_0000_0000_0000_0000_0000_0000_0000) by (nonlinear_arith)
            requires
                -0x8000_0000_0000_0000 <= self.raw <= 0x7FFF_FFFF_FFFF_FFFF,
                SCALE == 1_000_000,
        ;
        let scaled: i128 = (self.raw as i128) * (SCALE as i128);
        Fixed { raw: saturating_quotient(scaled, rhs.raw) }
    }

    /// The reciprocal `1 / self`.
    #[verifier::allow_in_spec]
    pub fn recip(self) -> Fixed
        returns
            Fixed::one().over(self),
    {
        Fixed::one().over(self)
    }

    /// The square root, rounded down; zero for a number that is not positive.
    pub open spec fn spec_sqrt(self) -> Fixed {
        if self.raw <= 0 {
            Fixed { raw: 0 }
        } else {
            Fixed { raw: int_sqrt((self.raw * SCALE) as nat) as i64 }
        }
    }

    /// The square root, rounded down; zero for a number that is not positive.
    pub fn sqrt(self) -> (root: Fixed)
        ensures
            root == self.spec_sqrt(),
            root.raw >= 0,
    {
        if self.raw <= 0 {
            Fixed { raw: 0 }
        } else {
            assert(0 < self.raw * SCALE < 0x10_0000_0000_0000_0000_0000) by (nonlinear_arith)
                requires
                    0 < self.raw <= 0x7FFF_FFFF_FFFF_FFFF,
                    SCALE == 1_000_000,
            ;
            let scaled: u128 = (self.raw as u128) * (SCALE as u128);
            let root: u64 = isqrt(scaled);
            proof {
                lemma_int_sqrt_bracket(scaled as nat);
                if root >= 0x400_0000_0000 {
                    assert(root * root >= 0x400_0000_0000 * 0x400_0000_0000) by (nonlinear_arith)
                        requires
                            root >= 0x400_0000_0000,
                    ;
                    assert(0x400_0000_0000 * 0x400_0000_0000 == 0x10_0000_0000_0000_0000_0000int)
                        by (nonlinear_arith);
                }
            }
            Fixed { raw: root as i64 }
        }
    }

    /// The whole part: the number rounded toward zero.
    #[verifier::allow_in_spec]
    pub fn whole(self) -> i64
        returns
            quotient(self.raw as int, SCALE as int) as i64,
    {
        saturating_quotient(self.raw as i128, SCALE)
    }

    /// The smaller of the two; `self` when they are equal.
    #[verifier::allow_in_spec]
    pub fn min(self, rhs: Fixed) -> Fixed
        returns
            (if self.raw <= rhs.raw { self } else { rhs }),
    {
        if self.raw <= rhs.raw {
            self
        } else {
            rhs
        }
    }

    /// The larger of the two; `self` when they are equal.
    #[verifier::allow_in_spec]
    pub fn max(self, rhs: Fixed) -> Fixed
        returns
            (if self.raw >= rhs.raw { self } else { rhs }),
    {
        if self.raw >= rhs.raw {
            self
        } else {
            rhs
        }
    }

    /// Whether the two numbers differ by less than the tolerance.
    #[verifier::allow_in_spec]
    pub fn near(self, rhs: Fixed) -> bool
        returns
            magnitude(self.raw - rhs.raw) < EPSILON,
    {
        let difference: i128 = self.raw as i128 - rhs.raw as i128;
        -(EPSILON as i128) < difference && difference < EPSILON as i128
    }

    /// Whether the number is within the tolerance of zero.
    #[verifier::allow_in_spec]
    pub fn near_zero_eps(self) -> bool
        returns
            self.near(Fixed::zero()),
    {
        self.near(Fixed::zero())
    }

    /// The saturated value of a wide raw number.
    fn narrow(wide: i128) -> (raw: i64)
        ensures
            raw == saturate(wide as int),
    {
        if wide > i64::MAX as i128 {
            i64::MAX
        } else if wide < i64::MIN as i128 {
            i64::MIN
        } else {
            wide as i64
        }
    }
}

} // verus!
