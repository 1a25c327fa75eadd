//! Coordinates: pixel positions, and points and vectors in space.

use crate::fixed::{int_sqrt, isqrt, saturate, Fixed};
use vstd::prelude::*;

verus! {

/// A pixel position: column `x`, row `y`.
#[derive(Clone, Copy, Debug, PartialEq, Eq, Structural)]
pub struct Point2Int {
    pub x: u32,
    pub y: u32,
}

impl Point2Int {
    #[verifier::allow_in_spec]
    pub fn new(x: u32, y: u32) -> Point2Int
        returns
            (Point2Int { x, y }),
    {
        Point2Int { x, y }
    }
}

/// A direction or displacement in space.
#[derive(Clone, Copy, Debug, PartialEq, Eq, Structural)]
pub struct Vector3 {
    pub x: Fixed,
    pub y: Fixed,
    pub z: Fixed,
}

/// A position in space.
#[derive(Clone, Copy, Debug, PartialEq, Eq, Structural)]
pub struct Point3 {
    pub x: Fixed,
    pub y: Fixed,
    pub z: Fixed,
}

impl Vector3 {
    #[verifier::allow_in_spec]
    pub fn new(x: Fixed, y: Fixed, z: Fixed) -> Vector3
        returns
            (Vector3 { x, y, z }),
    {
        Vector3 { x, y, z }
    }

    /// The component-wise sum.
    #[verifier::allow_in_spec]
    pub fn plus(self, rhs: Vector3) -> Vector3
        returns
            (Vector3 { x: self.x.plus(rhs.x), y: self.y.plus(rhs.y), z: self.z.plus(rhs.z) }),
    {
        Vector3 { x: self.x.plus(rhs.x), y: self.y.plus(rhs.y), z: self.z.plus(rhs.z) }
    }

    /// The component-wise difference.
    #[verifier::allow_in_spec]
    pub fn minus(self, rhs: Vector3) -> Vector3
        returns
            (Vector3 { x: self.x.minus(rhs.x), y: self.y.minus(rhs.y), z: self.z.minus(rhs.z) }),
    {
        Vector3 { x: self.x.minus(rhs.x), y: self.y.minus(rhs.y), z: self.z.minus(rhs.z) }
    }

    /// The opposite vector.
    #[verifier::allow_in_spec]
    pub fn neg(self) -> Vector3
        returns
            (Vector3 { x: self.x.neg(), y: self.y.neg(), z: self.z.neg() }),
    {
        Vector3 { x: self.x.neg(), y: self.y.neg(), z: self.z.neg() }
    }

    /// Every component multiplied by `factor`.
    #[verifier::allow_in_spec]
    pub fn scaled(self, factor: Fixed) -> Vector3
        returns
            (Vector3 {
                x: self.x.times(factor),
                y: self.y.times(factor),
                z: self.z.times(factor),
            }),
    {
        Vector3 { x: self.x.times(factor), y: self.y.times(factor), z: self.z.times(factor) }
    }

    /// Every component divided by `divisor`.
    #[verifier::allow_in_spec]
    pub fn divided(self, divisor: Fixed) -> Vector3
        returns
            (Vector3 {
                x: self.x.over(divisor),
                y: self.y.over(divisor),
                z: self.z.over(divisor),
            }),
    {
        Vector3 { x: self.x.over(divisor), y: self.y.over(divisor), z: self.z.over(divisor) }
    }

    /// The scalar product.
    #[verifier::allow_in_spec]
    pub fn dot(self, rhs: Vector3) -> Fixed
        returns
            self.x.times(rhs.x).plus(self.y.times(rhs.y)).plus(self.z.times(rhs.z)),
    {
        self.x.times(rhs.x).plus(self.y.times(rhs.y)).plus(self.z.times(rhs.z))
    }

    /// The vector product.
    #[verifier::allow_in_spec]
    pub fn cross(self, rhs: Vector3) -> Vector3
        returns
            (Vector3 {
                x: self.y.times(rhs.z).minus(self.z.times(rhs.y)),
                y: self.z.times(rhs.x).minus(self.x.times(rhs.z)),
                z: self.x.times(rhs.y).minus(self.y.times(rhs.x)),
            }),
    {
        Vector3 {
            x: self.y.times(rhs.z).minus(self.z.times(rhs.y)),
            y: self.z.times(rhs.x).minus(self.x.times(rhs.z)),
            z: self.x.times(rhs.y).minus(self.y.times(rhs.x)),
        }
    }

    /// The sum of the squared raw components.
    pub open spec fn spec_square_sum(self) -> nat {
        (self.x.raw * self.x.raw + self.y.raw * self.y.raw + self.z.raw * self.z.raw) as nat
    }

    /// The Euclidean length: the integer part of the root of the squared
    /// components' sum, saturated.
    pub open spec fn spec_norm(self) -> Fixed {
        Fixed { raw: saturate(int_sqrt(self.spec_square_sum()) as int) }
    }

    /// The Euclidean length.
    pub fn norm(self) -> (length: Fixed)
        ensures
            length == self.spec_norm(),
            length.raw >= 0,
    {
        let x2: u128 = Self::square(self.x.raw);
        let y2: u128 = Self::square(self.y.raw);
        let z2: u128 = Self::square(self.z.raw);
        let root: u64 = isqrt(x2 + y2 + z2);
        if root > i64::MAX as u64 {
            Fixed { raw: i64::MAX }
        } else {
            Fixed { raw: root as i64 }
        }
    }

    /// The vector divided by its length; the zero vector stays as it is.
    pub open spec fn spec_normalized(self) -> Vector3 {
        self.divided(self.spec_norm())
    }

    /// The vector divided by its length.
    pub fn normalized(self) -> (unit: Vector3)
        ensures
            unit == self.spec_normalized(),
    {
        let length = self.norm();
        self.divided(length)
    }

    /// The square of a raw component.
    fn square(raw: i64) -> (squared: u128)
        ensures
            squared == raw * raw,
            squared <= 0x4000_0000_0000_0000_0000_0000_0000_0000,
    {
        let wide: i128 = raw as i128;
        let size: u128 = if wide < 0 { (-wide) as u128 } else { wide as u128 };
        assert(size * size == raw * raw && size * size <= 0x4000_0000_0000_0000_0000_0000_0000_0000)
            by (nonlinear_arith)
            requires
                size == raw || size == -raw,
                0 <= size <= 0x8000_0000_0000_0000,
        ;
        size * size
    }
}

impl Point3 {
    #[verifier::allow_in_spec]
    pub fn new(x: Fixed, y: Fixed, z: Fixed) -> Point3
        returns
            (Point3 { x, y, z }),
    {
        Point3 { x, y, z }
    }

    /// The displacement that leads from `origin` to this point.
    #[verifier::allow_in_spec]
    pub fn minus(self, origin: Point3) -> Vector3
        returns
            (Vector3 {
                x: self.x.minus(origin.x),
                y: self.y.minus(origin.y),
                z: self.z.minus(origin.z),
            }),
    {
        Vector3 {
            x: self.x.minus(origin.x),
            y: self.y.minus(origin.y),
            z: self.z.minus(origin.z),
        }
    }

    /// The point reached from this one by `displacement`.
    #[verifier::allow_in_spec]
    pub fn translated(self, displacement: Vector3) -> Point3
        returns
            (Point3 {
                x: self.x.plus(displacement.x),
                y: self.y.plus(displacement.y),
                z: self.z.plus(displacement.z),
            }),
    {
        Point3 {
            x: self.x.plus(displacement.x),
            y: self.y.plus(displacement.y),
            z: self.z.plus(displacement.z),
        }
    }

    /// The Euclidean distance between two points.
    pub open spec fn spec_distance(self, other: Point3) -> Fixed {
        other.minus(self).spec_norm()
    }
}

/// A point or a vector in homogeneous coordinates.
#[derive(Clone, Copy, Debug, PartialEq, Eq, Structural)]
pub struct Vector4 {
    pub x: Fixed,
    pub y: Fixed,
    pub z: Fixed,
    pub w: Fixed,
}

impl Vector4 {
    #[verifier::allow_in_spec]
    pub fn new(x: Fixed, y: Fixed, z: Fixed, w: Fixed) -> Vector4
        returns
            (Vector4 { x, y, z, w }),
    {
        Vector4 { x, y, z, w }
    }

    /// The scalar product.
    #[verifier::allow_in_spec]
    pub fn dot(self, rhs: Vector4) -> Fixed
        returns
            self.x.times(rhs.x).plus(self.y.times(rhs.y)).plus(self.z.times(rhs.z)).plus(
                self.w.times(rhs.w),
            ),
    {
        self.x.times(rhs.x).plus(self.y.times(rhs.y)).plus(self.z.times(rhs.z)).plus(
            self.w.times(rhs.w),
        )
    }
}

/// A transformation of homogeneous coordinates, row by row.
#[derive(Clone, Copy, Debug, PartialEq, Eq, Structural)]
pub struct Matrix4 {
    pub row0: Vector4,
    pub row1: Vector4,
    pub row2: Vector4,
    pub row3: Vector4,
}

impl Matrix4 {
    #[verifier::allow_in_spec]
    pub fn new(row0: Vector4, row1: Vector4, row2: Vector4, row3: Vector4) -> Matrix4
        returns
            (Matrix4 { row0, row1, row2, row3 }),
    {
        Matrix4 { row0, row1, row2, row3 }
    }

    /// The transformation that changes nothing.
    #[verifier::allow_in_spec]
    pub fn identity() -> Matrix4
        returns
            (Matrix4 {
                row0: Vector4 {
                    x: Fixed::one(),
                    y: Fixed::zero(),
                    z: Fixed::zero(),
                    w: Fixed::zero(),
                },
                row1: Vector4 {
                    x: Fixed::zero(),
                    y: Fixed::one(),
                    z: Fixed::zero(),
                    w: Fixed::zero(),
                },
                row2: Vector4 {
                    x: Fixed::zero(),
                    y: Fixed::zero(),
                    z: Fixed::one(),
                    w: Fixed::zero(),
                },
                row3: Vector4 {
                    x: Fixed::zero(),
                    y: Fixed::zero(),
                    z: Fixed::zero(),
                    w: Fixed::one(),
                },
            }),
    {
        Matrix4 {
            row0: Vector4 { x: Fixed::one(), y: Fixed::zero(), z: Fixed::zero(), w: Fixed::zero() },
            row1: Vector4 { x: Fixed::zero(), y: Fixed::one(), z: Fixed::zero(), w: Fixed::zero() },
            row2: Vector4 { x: Fixed::zero(), y: Fixed::zero(), z: Fixed::one(), w: Fixed::zero() },
            row3: Vector4 { x: Fixed::zero(), y: Fixed::zero(), z: Fixed::zero(), w: Fixed::one() },
        }
    }

    /// Whether the transformation keeps weights: its last row is `0 0 0 1`, as
    /// it is for every combination of rotating, scaling and shifting.
    #[verifier::allow_in_spec]
    pub fn is_affine(self) -> bool
        returns
            self.row3 == (Vector4 {
                x: Fixed::zero(),
                y: Fixed::zero(),
                z: Fixed::zero(),
                w: Fixed::one(),
            }),
    {
        self.row3 == (Vector4 {
            x: Fixed::zero(),
            y: Fixed::zero(),
            z: Fixed::zero(),
            w: Fixed::one(),
        })
    }

    /// A transformation that keeps weights has an image for every point and
    /// for every vector.
    pub proof fn lemma_affine_transforms_all(self, point: Point3, vector: Vector3)
        requires
            self.is_affine(),
        ensures
            self.transform_point(point).is_some(),
            self.transform_vector(vector).is_some(),
    {
        let zero = self.row3.x.raw;
        let one = self.row3.w.raw;
        assert(zero * point.x.raw == 0 && zero * point.y.raw == 0 && zero * point.z.raw == 0
            && zero * vector.x.raw == 0 && zero * vector.y.raw == 0 && zero * vector.z.raw == 0
            && one * 1_000_000 == 1_000_000_000_000 && one * 0 == 0) by (nonlinear_arith)
            requires
                zero == 0,
                one == 1_000_000,
        ;
    }

    /// The product of the matrix with a column.
    #[verifier::allow_in_spec]
    pub fn times_vector(self, column: Vector4) -> Vector4
        returns
            (Vector4 {
                x: self.row0.dot(column),
                y: self.row1.dot(column),
                z: self.row2.dot(column),
                w: self.row3.dot(column),
            }),
    {
        Vector4 {
            x: self.row0.dot(column),
            y: self.row1.dot(column),
            z: self.row2.dot(column),
            w: self.row3.dot(column),
        }
    }

    /// The image of a point: the point is given the weight one, and the image
    /// is divided by its weight. There is none where that weight is zero.
    #[verifier::allow_in_spec]
    pub fn transform_point(self, point: Point3) -> Option<Point3>
        returns
            ({
                let image = self.times_vector(
                    Vector4 { x: point.x, y: point.y, z: point.z, w: Fixed::one() },
                );
                if image.w.raw != 0 {
                    Some(
                        Point3 {
                            x: image.x.over(image.w),
                            y: image.y.over(image.w),
                            z: image.z.over(image.w),
                        },
                    )
                } else {
                    None
                }
            }),
    {
        let image = self.times_vector(
            Vector4 { x: point.x, y: point.y, z: point.z, w: Fixed::one() },
        );
        if image.w.raw != 0 {
            Some(
                Point3 {
                    x: image.x.over(image.w),
                    y: image.y.over(image.w),
                    z: image.z.over(image.w),
                },
            )
        } else {
            None
        }
    }

    /// The image of a vector: the vector is given the weight zero. There is
    /// none where the weight of the image is not zero.
    #[verifier::allow_in_spec]
    pub fn transform_vector(self, vector: Vector3) -> Option<Vector3>
        returns
            ({
                let image = self.times_vector(
                    Vector4 { x: vector.x, y: vector.y, z: vector.z, w: Fixed::zero() },
                );
                if image.w.raw == 0 {
                    Some(Vector3 { x: image.x, y: image.y, z: image.z })
                } else {
                    None
                }
            }),
    {
        let image = self.times_vector(
            Vector4 { x: vector.x, y: vector.y, z: vector.z, w: Fixed::zero() },
        );
        if image.w.raw == 0 {
            Some(Vector3 { x: image.x, y: image.y, z: image.z })
        } else {
            None
        }
    }
}

/// The Euclidean distance between two points.
pub fn distance(a: &Point3, b: &Point3) -> (length: Fixed)
    ensures
        length == a.spec_distance(*b),
        length.raw >= 0,
{
    b.minus(*a).norm()
}

/// The distance of a point from itself is zero.
pub proof fn lemma_distance_to_self(a: Point3)
    ensures
        a.spec_distance(a) == Fixed::zero(),
{
    let v = a.minus(a);
    assert(v.spec_square_sum() == 0) by (nonlinear_arith)
        requires
            v.x.raw == 0,
            v.y.raw == 0,
            v.z.raw == 0,
            v.spec_square_sum() == (v.x.raw * v.x.raw + v.y.raw * v.y.raw + v.z.raw * v.z.raw) as nat,
    ;
    let r: nat = 0;
    assert(crate::fixed::is_int_sqrt(0, r)) by (nonlinear_arith)
        requires
            r == 0,
            crate::fixed::is_int_sqrt(0, r) == (r * r <= 0 < (r + 1) * (r + 1)),
    ;
    crate::fixed::lemma_int_sqrt_unique(0, 0);
}

} // verus!
