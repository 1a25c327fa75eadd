//! Matrices over a number type.
//!
//! A matrix of `n` rows and `m` columns keeps its `n * m` elements in one list.
//! The element at row `i` and column `j` stands in slot `i * n + j` of that list:
//! the stride of a row is the number of rows, so that only for `n == 1` or
//! `n <= m` every element has a slot of its own within the list.

use crate::complex::Complex;
use crate::fixed::Fixed;
use crate::numeric::Numeric;
use vstd::prelude::*;

verus! {

// ----- Definitions ---------------------------------------------------------------------------
/// The numbers that a matrix can hold.
pub trait MNum: Numeric {

}

impl MNum for Fixed {

}

impl MNum for Complex {

}

/// How an operation on matrices ended.
#[derive(Clone, Copy, Debug, PartialEq, Eq, Structural)]
pub enum MatrixOpResult {
    Successful,
    SizeMismatch,
    InvalidIndex,
    InvalidSize,
    NotSquareMatrix,
    NotVector,
}

/// A matrix of `n` rows and `m` columns.
pub struct Matrix<T: MNum> {
    n: usize,
    m: usize,
    data: Vec<T>,
}

// ----- Helper functions ----------------------------------------------------------------------
/// The sum of two numbers.
pub fn add_mnum<T: MNum>(rhs: T, lhs: T) -> (sum: T)
    ensures
        sum == rhs.spec_plus(lhs),
{
    rhs.plus(lhs)
}

/// The difference of two numbers.
pub fn sub_mnum<T: MNum>(rhs: T, lhs: T) -> (difference: T)
    ensures
        difference == rhs.spec_minus(lhs),
{
    rhs.minus(lhs)
}

// ----- Specification ---------------------------------------------------------------------------
impl<T: MNum> Matrix<T> {
    /// The number of rows.
    pub closed spec fn spec_n(&self) -> nat {
        self.n as nat
    }

    /// The number of columns.
    pub closed spec fn spec_m(&self) -> nat {
        self.m as nat
    }

    /// The elements, slot by slot.
    pub closed spec fn spec_data(&self) -> Seq<T> {
        self.data@
    }

    /// The matrix has at least one row and one column, and a slot for each of
    /// its `n * m` elements.
    pub open spec fn spec_well_formed(&self) -> bool {
        &&& self.spec_n() >= 1
        &&& self.spec_m() >= 1
        &&& self.spec_data().len() == self.spec_n() * self.spec_m()
    }

    /// The slot of the element at row `i` and column `j`.
    pub open spec fn spec_slot(&self, i: int, j: int) -> int {
        i * self.spec_n() + j
    }

    /// Whether row `i` and column `j` exist and their slot can be told.
    pub open spec fn spec_valid_coord(&self, i: int, j: int) -> bool {
        0 <= i < self.spec_n() && 0 <= j < self.spec_m() && self.spec_slot(i, j) <= usize::MAX
    }

    /// Whether the element at row `i` and column `j` can be reached: row and
    /// column exist and their slot lies within the list.
    pub open spec fn spec_reachable(&self, i: int, j: int) -> bool {
        self.spec_valid_coord(i, j) && self.spec_slot(i, j) < self.spec_data().len()
    }

    /// Whether every element can be reached.
    pub open spec fn spec_addressable(&self) -> bool {
        forall|i: int, j: int|
            0 <= i < self.spec_n() && 0 <= j < self.spec_m() ==> #[trigger] self.spec_reachable(i, j)
    }

    /// The elements of the identity matrix of `n` rows: one where row and
    /// column agree, zero elsewhere.
    pub open spec fn spec_identity_data(n: nat) -> Seq<T> {
        Seq::new(
            n * n,
            |slot: int|
                if slot / (n as int) == slot % (n as int) {
                    T::spec_one()
                } else {
                    T::spec_zero()
                },
        )
    }

    /// The elements after each has been multiplied by `factor`.
    pub open spec fn spec_scaled_data(&self, factor: T) -> Seq<T> {
        Seq::new(self.spec_data().len(), |slot: int| self.spec_data()[slot].spec_times(factor))
    }

    /// The elements of the transposed matrix: the element of row `i` and
    /// column `j` has gone to place `j * n + i`.
    pub open spec fn spec_transposed_data(&self) -> Seq<T> {
        Seq::new(
            self.spec_n() * self.spec_m(),
            |place: int|
                self.spec_data()[self.spec_slot(
                    place % (self.spec_n() as int),
                    place / (self.spec_n() as int),
                )],
        )
    }

    /// Whether the product with `rhs` can reach every element that it asks
    /// for: of the result, of this matrix and of `rhs`.
    pub open spec fn spec_xmul_defined(&self, rhs: &Matrix<T>) -> bool {
        forall|i: int, j: int, k: int|
            0 <= i < self.spec_n() && 0 <= j < self.spec_n() && 0 <= k < rhs.spec_m()
                ==> #[trigger] self.spec_xmul_reaches(rhs, i, j, k)
    }

    /// Whether step `(i, j, k)` of the product with `rhs` can reach its three
    /// elements: that of the result at `(i, k)`, this matrix's at `(i, k)` and
    /// that of `rhs` at `(j, k)`.
    pub open spec fn spec_xmul_reaches(&self, rhs: &Matrix<T>, i: int, j: int, k: int) -> bool {
        &&& self.spec_slot(i, k) < self.spec_n() * rhs.spec_m()
        &&& self.spec_reachable(i, k)
        &&& rhs.spec_reachable(j, k)
    }

    /// The elements of the product after step `(i, j, k)`: the element of the
    /// result at `(i, k)` has grown by the product of this matrix's element at
    /// `(i, k)` and that of `rhs` at `(j, k)`.
    pub open spec fn spec_xmul_step(&self, rhs: &Matrix<T>, partial: Seq<T>, i: int, j: int, k: int) -> Seq<
        T,
    > {
        partial.update(
            self.spec_slot(i, k),
            partial[self.spec_slot(i, k)].spec_plus(
                self.spec_data()[self.spec_slot(i, k)].spec_times(
                    rhs.spec_data()[rhs.spec_slot(j, k)],
                ),
            ),
        )
    }

    /// The elements of the product after the first `count` columns of the
    /// pass `(i, j)`.
    pub open spec fn spec_xmul_columns(
        &self,
        rhs: &Matrix<T>,
        partial: Seq<T>,
        i: int,
        j: int,
        count: nat,
    ) -> Seq<T>
        decreases count,
    {
        if count == 0 {
            partial
        } else {
            self.spec_xmul_step(
                rhs,
                self.spec_xmul_columns(rhs, partial, i, j, (count - 1) as nat),
                i,
                j,
                count - 1,
            )
        }
    }

    /// The elements of the product after the first `count` passes of row `i`.
    pub open spec fn spec_xmul_passes(&self, rhs: &Matrix<T>, partial: Seq<T>, i: int, count: nat) -> Seq<
        T,
    >
        decreases count,
    {
        if count == 0 {
            partial
        } else {
            self.spec_xmul_columns(
                rhs,
                self.spec_xmul_passes(rhs, partial, i, (count - 1) as nat),
                i,
                count - 1,
                rhs.spec_m(),
            )
        }
    }

    /// The elements of the product after the first `count` rows.
    pub open spec fn spec_xmul_rows(&self, rhs: &Matrix<T>, count: nat) -> Seq<T>
        decreases count,
    {
        if count == 0 {
            Seq::new(self.spec_n() * rhs.spec_m(), |slot: int| T::spec_zero())
        } else {
            self.spec_xmul_passes(
                rhs,
                self.spec_xmul_rows(rhs, (count - 1) as nat),
                count - 1,
                self.spec_n(),
            )
        }
    }

    /// How the product with `rhs` ends: not at all where the columns of this
    /// matrix are not as many as the rows of `rhs`, where the result would have
    /// more elements than a list can hold, or where an element that the product
    /// asks for cannot be reached.
    pub open spec fn spec_xmul_outcome(&self, rhs: &Matrix<T>) -> MatrixOpResult {
        if self.spec_m() != rhs.spec_n() {
            MatrixOpResult::SizeMismatch
        } else if self.spec_n() * rhs.spec_m() > usize::MAX {
            MatrixOpResult::InvalidSize
        } else if !self.spec_xmul_defined(rhs) {
            MatrixOpResult::InvalidIndex
        } else {
            MatrixOpResult::Successful
        }
    }

    /// Whether the two matrices have as many rows and as many columns as each
    /// other.
    pub open spec fn spec_same_size(&self, rhs: &Matrix<T>) -> bool {
        self.spec_n() == rhs.spec_n() && self.spec_m() == rhs.spec_m()
    }

    /// The elements of the product with `rhs`. For every row `i`, every `j`
    /// below the number of rows and every column `k` of `rhs`, in this order,
    /// the element of the result at `(i, k)` grows by the product of this
    /// matrix's element at `(i, k)` and that of `rhs` at `(j, k)`.
    pub open spec fn spec_xmul_data(&self, rhs: &Matrix<T>) -> Seq<T> {
        self.spec_xmul_rows(rhs, self.spec_n())
    }
}

// ----- Traits ---------------------------------------------------------------------------------
/// What a matrix can do.
pub trait TMatrix<T: MNum>: Sized {
    /// The matrix that `self` is.
    spec fn spec_matrix(&self) -> Matrix<T>;

    // ----- Manipulation functions
    /// The matrix of `n` rows and `m` columns whose elements are all zero.
    /// There is none without a row or a column, nor with more elements than a
    /// list can hold.
    fn new(n: usize, m: usize) -> (made: Result<Matrix<T>, MatrixOpResult>)
        ensures
            made.is_ok() <==> n >= 1 && m >= 1 && n * m <= usize::MAX,
            made matches Err(error) ==> error == MatrixOpResult::InvalidSize,
            made matches Ok(matrix) ==> {
                &&& matrix.spec_well_formed()
                &&& matrix.spec_n() == n
                &&& matrix.spec_m() == m
                &&& matrix.spec_data() == Seq::new((n * m) as nat, |slot: int| T::spec_zero())
            },
    ;

    /// The matrix of `n` rows and `m` columns with the elements of `filler`.
    fn new_filled(n: usize, m: usize, filler: &Vec<T>) -> (made: Result<Matrix<T>, MatrixOpResult>)
        ensures
            n < 1 || m < 1 ==> (made matches Err(error) && error == MatrixOpResult::InvalidSize),
            n >= 1 && m >= 1 && filler@.len() != n * m ==> (made matches Err(error) && error
                == MatrixOpResult::SizeMismatch),
            n >= 1 && m >= 1 && filler@.len() == n * m ==> (made matches Ok(matrix) && {
                &&& matrix.spec_well_formed()
                &&& matrix.spec_n() == n
                &&& matrix.spec_m() == m
                &&& matrix.spec_data() == filler@
            }),
    ;

    /// The slot of the element at row `i` and column `j`.
    fn coord_transform(&self, i: usize, j: usize) -> (slot: Result<usize, MatrixOpResult>)
        requires
            self.spec_matrix().spec_well_formed(),
        ensures
            slot == (if self.spec_matrix().spec_valid_coord(i as int, j as int) {
                Ok::<usize, MatrixOpResult>(self.spec_matrix().spec_slot(i as int, j as int) as usize)
            } else {
                Err(MatrixOpResult::InvalidIndex)
            }),
    ;

    /// The row and the column of slot `n`.
    fn index_transform(&self, n: usize) -> (coord: Result<(usize, usize), MatrixOpResult>)
        requires
            self.spec_matrix().spec_well_formed(),
        ensures
            coord == (if n < self.spec_matrix().spec_data().len() {
                Ok::<(usize, usize), MatrixOpResult>(
                    (
                        (n as int / self.spec_matrix().spec_n() as int) as usize,
                        (n as int % self.spec_matrix().spec_n() as int) as usize,
                    ),
                )
            } else {
                Err(MatrixOpResult::InvalidIndex)
            }),
    ;

    fn get_n(&self) -> (n: usize)
        ensures
            n == self.spec_matrix().spec_n(),
    ;

    fn get_m(&self) -> (m: usize)
        ensures
            m == self.spec_matrix().spec_m(),
    ;

    /// The element at row `i` and column `j`.
    fn get_immut(&self, i: usize, j: usize) -> (element: Result<T, MatrixOpResult>)
        requires
            self.spec_matrix().spec_well_formed(),
        ensures
            element == (if self.spec_matrix().spec_reachable(i as int, j as int) {
                Ok::<T, MatrixOpResult>(
                    self.spec_matrix().spec_data()[self.spec_matrix().spec_slot(i as int, j as int)],
                )
            } else {
                Err(MatrixOpResult::InvalidIndex)
            }),
    ;

    /// The element at row `i` and column `j`, to be changed in place.
    fn get_mut(&mut self, i: usize, j: usize) -> (element: Result<&mut T, MatrixOpResult>)
        requires
            old(self).spec_matrix().spec_well_formed(),
        ensures
            old(self).spec_matrix().spec_reachable(i as int, j as int) ==> (element matches Ok(place)
                && {
                &&& *place == old(self).spec_matrix().spec_data()[old(self).spec_matrix().spec_slot(
                    i as int,
                    j as int,
                )]
                &&& final(self).spec_matrix().spec_n() == old(self).spec_matrix().spec_n()
                &&& final(self).spec_matrix().spec_m() == old(self).spec_matrix().spec_m()
                &&& final(self).spec_matrix().spec_data() == old(self).spec_matrix().spec_data().update(
                    old(self).spec_matrix().spec_slot(i as int, j as int),
                    *final(place),
                )
            }),
            !old(self).spec_matrix().spec_reachable(i as int, j as int) ==> (element matches Err(error)
                && error == MatrixOpResult::InvalidIndex && final(self).spec_matrix().spec_same(
                &old(self).spec_matrix(),
            )),
    ;

    /// Makes the matrix the identity; only a square matrix can become it.
    fn load_identity(&mut self) -> (done: Result<MatrixOpResult, MatrixOpResult>)
        requires
            old(self).spec_matrix().spec_well_formed(),
        ensures
            final(self).spec_matrix().spec_n() == old(self).spec_matrix().spec_n(),
            final(self).spec_matrix().spec_m() == old(self).spec_matrix().spec_m(),
            old(self).spec_matrix().spec_n() == old(self).spec_matrix().spec_m() ==> done == Ok::<
                MatrixOpResult,
                MatrixOpResult,
            >(MatrixOpResult::Successful) && final(self).spec_matrix().spec_data() == Matrix::<
                T,
            >::spec_identity_data(old(self).spec_matrix().spec_n()),
            old(self).spec_matrix().spec_n() != old(self).spec_matrix().spec_m() ==> done == Err::<
                MatrixOpResult,
                MatrixOpResult,
            >(MatrixOpResult::NotSquareMatrix) && final(self).spec_matrix().spec_data() == old(self).spec_matrix().spec_data(),
    ;

    // ----- Mathematical functions
    /// The matrix whose elements are what `op_function` makes of the elements
    /// of this matrix and of `rhs`, slot by slot.
    fn by_each_element_immut<F: Fn(T, T) -> T>(&self, rhs: &Matrix<T>, op_function: F) -> (made: Result<
        Matrix<T>,
        MatrixOpResult,
    >)
        requires
            self.spec_matrix().spec_well_formed(),
            rhs.spec_well_formed(),
            forall|a: T, b: T| call_requires(op_function, (a, b)),
        ensures
            !self.spec_matrix().spec_same_size(rhs) ==> (made matches Err(error) && error
                == MatrixOpResult::SizeMismatch),
            self.spec_matrix().spec_same_size(rhs) ==> (made matches Ok(matrix) && {
                &&& matrix.spec_same_size(rhs)
                &&& matrix.spec_data().len() == rhs.spec_data().len()
                &&& forall|slot: int|
                    0 <= slot < matrix.spec_data().len() ==> call_ensures(
                        op_function,
                        (self.spec_matrix().spec_data()[slot], rhs.spec_data()[slot]),
                        #[trigger] matrix.spec_data()[slot],
                    )
            }),
    ;

    /// Replaces every element by what `op_function` makes of it and of the
    /// element of `rhs` in the same slot.
    fn by_each_element_mut<F: Fn(T, T) -> T>(&mut self, rhs: &Matrix<T>, op_function: F) -> (done: Result<
        MatrixOpResult,
        MatrixOpResult,
    >)
        requires
            old(self).spec_matrix().spec_well_formed(),
            rhs.spec_well_formed(),
            forall|a: T, b: T| call_requires(op_function, (a, b)),
        ensures
            final(self).spec_matrix().spec_same_size(&old(self).spec_matrix()),
            !old(self).spec_matrix().spec_same_size(rhs) ==> done == Err::<
                MatrixOpResult,
                MatrixOpResult,
            >(MatrixOpResult::SizeMismatch) && final(self).spec_matrix().spec_data() == old(self).spec_matrix().spec_data(),
            old(self).spec_matrix().spec_same_size(rhs) ==> {
                &&& done == Ok::<MatrixOpResult, MatrixOpResult>(MatrixOpResult::Successful)
                &&& final(self).spec_matrix().spec_data().len() == rhs.spec_data().len()
                &&& forall|slot: int|
                    0 <= slot < rhs.spec_data().len() ==> call_ensures(
                        op_function,
                        (old(self).spec_matrix().spec_data()[slot], rhs.spec_data()[slot]),
                        #[trigger] final(self).spec_matrix().spec_data()[slot],
                    )
            },
    ;

    /// The sum with `rhs`, element by element.
    fn add_immut(&self, rhs: &Matrix<T>) -> (made: Result<Matrix<T>, MatrixOpResult>)
        requires
            self.spec_matrix().spec_well_formed(),
            rhs.spec_well_formed(),
        ensures
            !self.spec_matrix().spec_same_size(rhs) ==> (made matches Err(error) && error
                == MatrixOpResult::SizeMismatch),
            self.spec_matrix().spec_same_size(rhs) ==> (made matches Ok(matrix) && {
                &&& matrix.spec_same_size(rhs)
                &&& matrix.spec_data().len() == rhs.spec_data().len()
                &&& forall|slot: int|
                    0 <= slot < matrix.spec_data().len() ==> #[trigger] matrix.spec_data()[slot]
                        == self.spec_matrix().spec_data()[slot].spec_plus(rhs.spec_data()[slot])
            }),
    ;

    /// Adds `rhs`, element by element.
    fn add_mut(&mut self, rhs: &Matrix<T>) -> (done: Result<MatrixOpResult, MatrixOpResult>)
        requires
            old(self).spec_matrix().spec_well_formed(),
            rhs.spec_well_formed(),
        ensures
            final(self).spec_matrix().spec_same_size(&old(self).spec_matrix()),
            !old(self).spec_matrix().spec_same_size(rhs) ==> done == Err::<
                MatrixOpResult,
                MatrixOpResult,
            >(MatrixOpResult::SizeMismatch) && final(self).spec_matrix().spec_data() == old(self).spec_matrix().spec_data(),
            old(self).spec_matrix().spec_same_size(rhs) ==> {
                &&& done == Ok::<MatrixOpResult, MatrixOpResult>(MatrixOpResult::Successful)
                &&& final(self).spec_matrix().spec_data().len() == rhs.spec_data().len()
                &&& forall|slot: int|
                    0 <= slot < rhs.spec_data().len() ==> #[trigger] final(self).spec_matrix().spec_data()[slot] == old(self).spec_matrix().spec_data()[slot].spec_plus(rhs.spec_data()[slot])
            },
    ;

    /// The difference to `rhs`, element by element.
    fn sub_immut(&self, rhs: &Matrix<T>) -> (made: Result<Matrix<T>, MatrixOpResult>)
        requires
            self.spec_matrix().spec_well_formed(),
            rhs.spec_well_formed(),
        ensures
            !self.spec_matrix().spec_same_size(rhs) ==> (made matches Err(error) && error
                == MatrixOpResult::SizeMismatch),
            self.spec_matrix().spec_same_size(rhs) ==> (made matches Ok(matrix) && {
                &&& matrix.spec_same_size(rhs)
                &&& matrix.spec_data().len() == rhs.spec_data().len()
                &&& forall|slot: int|
                    0 <= slot < matrix.spec_data().len() ==> #[trigger] matrix.spec_data()[slot]
                        == self.spec_matrix().spec_data()[slot].spec_minus(rhs.spec_data()[slot])
            }),
    ;

    /// Subtracts `rhs`, element by element.
    fn sub_mut(&mut self, rhs: &Matrix<T>) -> (done: Result<MatrixOpResult, MatrixOpResult>)
        requires
            old(self).spec_matrix().spec_well_formed(),
            rhs.spec_well_formed(),
        ensures
            final(self).spec_matrix().spec_same_size(&old(self).spec_matrix()),
            !old(self).spec_matrix().spec_same_size(rhs) ==> done == Err::<
                MatrixOpResult,
                MatrixOpResult,
            >(MatrixOpResult::SizeMismatch) && final(self).spec_matrix().spec_data() == old(self).spec_matrix().spec_data(),
            old(self).spec_matrix().spec_same_size(rhs) ==> {
                &&& done == Ok::<MatrixOpResult, MatrixOpResult>(MatrixOpResult::Successful)
                &&& final(self).spec_matrix().spec_data().len() == rhs.spec_data().len()
                &&& forall|slot: int|
                    0 <= slot < rhs.spec_data().len() ==> #[trigger] final(self).spec_matrix().spec_data()[slot] == old(self).spec_matrix().spec_data()[slot].spec_minus(rhs.spec_data()[slot])
            },
    ;

    /// The matrix with every element multiplied by `rhs`.
    fn mul_immut(&self, rhs: &T) -> (made: Result<Matrix<T>, MatrixOpResult>)
        requires
            self.spec_matrix().spec_well_formed(),
        ensures
            made matches Ok(matrix) && {
                &&& matrix.spec_same_size(&self.spec_matrix())
                &&& matrix.spec_data() == self.spec_matrix().spec_scaled_data(*rhs)
            },
    ;

    /// Multiplies every element by `rhs`.
    fn mul_mut(&mut self, rhs: &T) -> (done: Result<MatrixOpResult, MatrixOpResult>)
        requires
            old(self).spec_matrix().spec_well_formed(),
        ensures
            done == Ok::<MatrixOpResult, MatrixOpResult>(MatrixOpResult::Successful),
            final(self).spec_matrix().spec_same_size(&old(self).spec_matrix()),
            final(self).spec_matrix().spec_data() == old(self).spec_matrix().spec_scaled_data(*rhs),
    ;

    /// The product with `rhs`.
    fn xmul_immut(&self, rhs: &Matrix<T>) -> (made: Result<Matrix<T>, MatrixOpResult>)
        requires
            self.spec_matrix().spec_well_formed(),
            rhs.spec_well_formed(),
        ensures
            made matches Err(error) ==> error == self.spec_matrix().spec_xmul_outcome(rhs) && error
                != MatrixOpResult::Successful,
            made matches Ok(matrix) ==> {
                &&& self.spec_matrix().spec_xmul_outcome(rhs) == MatrixOpResult::Successful
                &&& matrix.spec_well_formed()
                &&& matrix.spec_n() == self.spec_matrix().spec_n()
                &&& matrix.spec_m() == rhs.spec_m()
                &&& matrix.spec_data() == self.spec_matrix().spec_xmul_data(rhs)
            },
    ;

    /// Makes the matrix its product with `rhs`; where there is none, the matrix
    /// stays as it is.
    fn xmul_mut(&mut self, rhs: &Matrix<T>) -> (done: Result<MatrixOpResult, MatrixOpResult>)
        requires
            old(self).spec_matrix().spec_well_formed(),
            rhs.spec_well_formed(),
        ensures
            done matches Err(error) ==> error == old(self).spec_matrix().spec_xmul_outcome(rhs)
                && error != MatrixOpResult::Successful && final(self).spec_matrix().spec_same(
                &old(self).spec_matrix(),
            ),
            done matches Ok(outcome) ==> {
                &&& outcome == MatrixOpResult::Successful
                &&& old(self).spec_matrix().spec_xmul_outcome(rhs) == MatrixOpResult::Successful
                &&& final(self).spec_matrix().spec_well_formed()
                &&& final(self).spec_matrix().spec_n() == old(self).spec_matrix().spec_n()
                &&& final(self).spec_matrix().spec_m() == rhs.spec_m()
                &&& final(self).spec_matrix().spec_data() == old(self).spec_matrix().spec_xmul_data(
                    rhs,
                )
            },
    ;

    /// The transposed matrix; there is none where an element cannot be
    /// reached.
    fn transpose_immut(&self) -> (made: Result<Matrix<T>, MatrixOpResult>)
        requires
            self.spec_matrix().spec_well_formed(),
        ensures
            !self.spec_matrix().spec_addressable() ==> (made matches Err(error) && error
                == MatrixOpResult::InvalidIndex),
            self.spec_matrix().spec_addressable() ==> (made matches Ok(matrix) && {
                &&& matrix.spec_well_formed()
                &&& matrix.spec_n() == self.spec_matrix().spec_m()
                &&& matrix.spec_m() == self.spec_matrix().spec_n()
                &&& matrix.spec_data() == self.spec_matrix().spec_transposed_data()
            }),
    ;

    /// Transposes the matrix; where an element cannot be reached, the matrix
    /// stays as it is.
    fn transpose_mut(&mut self) -> (done: Result<MatrixOpResult, MatrixOpResult>)
        requires
            old(self).spec_matrix().spec_well_formed(),
        ensures
            !old(self).spec_matrix().spec_addressable() ==> done == Err::<
                MatrixOpResult,
                MatrixOpResult,
            >(MatrixOpResult::InvalidIndex) && final(self).spec_matrix().spec_same(
                &old(self).spec_matrix(),
            ),
            old(self).spec_matrix().spec_addressable() ==> {
                &&& done == Ok::<MatrixOpResult, MatrixOpResult>(MatrixOpResult::Successful)
                &&& final(self).spec_matrix().spec_well_formed()
                &&& final(self).spec_matrix().spec_n() == old(self).spec_matrix().spec_m()
                &&& final(self).spec_matrix().spec_m() == old(self).spec_matrix().spec_n()
                &&& final(self).spec_matrix().spec_data() == old(self).spec_matrix().spec_transposed_data()
            },
    ;
}

// ----- Manipulator functions implementation ---------------------------------------------------
impl<T: MNum> Matrix<T> {
    /// The two matrices have the same numbers of rows and columns and the
    /// same elements.
    pub open spec fn spec_same(&self, other: &Matrix<T>) -> bool {
        &&& self.spec_n() == other.spec_n()
        &&& self.spec_m() == other.spec_m()
        &&& self.spec_data() == other.spec_data()
    }
}

impl<T: MNum> Clone for Matrix<T> {
    fn clone(&self) -> (copy: Matrix<T>)
        ensures
            copy.spec_same(self),
    {
        let mut data: Vec<T> = Vec::new();
        let mut slot: usize = 0;
        while slot < self.data.len()
            invariant
                slot <= self.data@.len(),
                data@ == self.data@.take(slot as int),
            decreases self.data@.len() - slot,
        {
            data.push(self.data[slot]);
            slot = slot + 1;
            assert(data@ =~= self.data@.take(slot as int));
        }
        assert(data@ =~= self.data@);
        Matrix { n: self.n, m: self.m, data }
    }
}

impl<T: MNum> TMatrix<T> for Matrix<T> {
    open spec fn spec_matrix(&self) -> Matrix<T> {
        *self
    }

    fn new(n: usize, m: usize) -> (made: Result<Matrix<T>, MatrixOpResult>) {
        if (n < 1) || (m < 1) {
            return Err(MatrixOpResult::InvalidSize);
        }
        let size: usize = match n.checked_mul(m) {
            Some(size) => size,
            None => {
                return Err(MatrixOpResult::InvalidSize);
            },
        };
        let mut data: Vec<T> = Vec::with_capacity(size);
        let mut filled: usize = 0;
        while filled < size
            invariant
                filled <= size,
                data@ == Seq::new(filled as nat, |slot: int| T::spec_zero()),
            decreases size - filled,
        {
            data.push(T::zero());
            filled = filled + 1;
            assert(data@ =~= Seq::new(filled as nat, |slot: int| T::spec_zero()));
        }
        return Ok(Matrix { n: n, m: m, data: data });
    }

    fn new_filled(n: usize, m: usize, filler: &Vec<T>) -> (made: Result<Matrix<T>, MatrixOpResult>) {
        if (n < 1) || (m < 1) {
            return Err(MatrixOpResult::InvalidSize);
        }
        let length: usize = filler.len();
        let size: usize = match n.checked_mul(m) {
            Some(size) => size,
            None => {
                return Err(MatrixOpResult::SizeMismatch);
            },
        };
        if length != size {
            return Err(MatrixOpResult::SizeMismatch);
        }
        let mut data: Vec<T> = Vec::with_capacity(size);
        let mut slot: usize = 0;
        while slot < size
            invariant
                size == filler@.len(),
                slot <= size,
                data@ == filler@.take(slot as int),
            decreases size - slot,
        {
            data.push(filler[slot]);
            slot = slot + 1;
            assert(data@ =~= filler@.take(slot as int));
        }
        assert(data@ =~= filler@);
        return Ok(Matrix { n: n, m: m, data: data });
    }

    fn coord_transform(&self, i: usize, j: usize) -> (slot: Result<usize, MatrixOpResult>) {
        if (i < self.n) && (j < self.m) {
            match i.checked_mul(self.n) {
                Some(start) => match start.checked_add(j) {
                    Some(slot) => {
                        return Ok(slot);
                    },
                    None => {
                        return Err(MatrixOpResult::InvalidIndex);
                    },
                },
                None => {
                    assert(i * self.n + j > usize::MAX) by (nonlinear_arith)
                        requires
                            i * self.n > usize::MAX,
                            j >= 0,
                    ;
                    return Err(MatrixOpResult::InvalidIndex);
                },
            }
        } else {
            return Err(MatrixOpResult::InvalidIndex);
        }
    }

    fn index_transform(&self, n: usize) -> (coord: Result<(usize, usize), MatrixOpResult>) {
        if n < self.data.len() {
            return Ok((n / self.n, n % self.n));
        } else {
            return Err(MatrixOpResult::InvalidIndex);
        }
    }

    fn get_n(&self) -> (n: usize) {
        return self.n;
    }

    fn get_m(&self) -> (m: usize) {
        return self.m;
    }

    fn get_immut(&self, i: usize, j: usize) -> (element: Result<T, MatrixOpResult>) {
        match self.coord_transform(i, j) {
            Ok(value) => {
                if value < self.data.len() {
                    return Ok(self.data[value]);
                } else {
                    return Err(MatrixOpResult::InvalidIndex);
                }
            },
            Err(err) => return Err(err),
        }
    }

    fn get_mut(&mut self, i: usize, j: usize) -> (element: Result<&mut T, MatrixOpResult>) {
        match self.coord_transform(i, j) {
            Ok(value) => {
                if value < self.data.len() {
                    return Ok(&mut self.data[value]);
                } else {
                    return Err(MatrixOpResult::InvalidIndex);
                }
            },
            Err(err) => return Err(err),
        }
    }

    fn load_identity(&mut self) -> (done: Result<MatrixOpResult, MatrixOpResult>) {
        if self.n == self.m {
            let size = self.data.len();
            let mut idx: usize = 0;
            while idx < size
                invariant
                    self.n == old(self).n,
                    self.m == old(self).m,
                    self.n == self.m,
                    self.n >= 1,
                    size == self.data@.len(),
                    size == self.n * self.n,
                    idx <= size,
                    forall|slot: int|
                        0 <= slot < idx ==> #[trigger] self.data@[slot] == Matrix::<
                            T,
                        >::spec_identity_data(self.n as nat)[slot],
                decreases size - idx,
            {
                let i = idx / self.n;
                let j = idx % self.n;
                if i == j {
                    self.data[idx] = T::one();
                } else {
                    self.data[idx] = T::zero();
                }
                idx = idx + 1;
            }
            assert(self.data@ =~= Matrix::<T>::spec_identity_data(self.n as nat));
            return Ok(MatrixOpResult::Successful);
        } else {
            return Err(MatrixOpResult::NotSquareMatrix);
        }
    }
    // ----- Mathematics implementation -------------------------------------------------------------
    fn by_each_element_immut<F: Fn(T, T) -> T>(&self, rhs: &Matrix<T>, op_function: F) -> (made: Result<
        Matrix<T>,
        MatrixOpResult,
    >) {
        if (self.n != rhs.n) || (self.m != rhs.m) {
            return Err(MatrixOpResult::SizeMismatch);
        }
        let mut clone = self.clone();
        match clone.by_each_element_mut(rhs, op_function) {
            Ok(_) => Ok(clone),
            Err(err) => Err(err),
        }
    }

    fn by_each_element_mut<F: Fn(T, T) -> T>(&mut self, rhs: &Matrix<T>, op_function: F) -> (done: Result<
        MatrixOpResult,
        MatrixOpResult,
    >) {
        if (self.n != rhs.n) || (self.m != rhs.m) {
            return Err(MatrixOpResult::SizeMismatch);
        }
        let size = self.data.len();
        let mut idx: usize = 0;
        while idx < size
            invariant
                self.n == old(self).n,
                self.m == old(self).m,
                size == self.data@.len(),
                size == rhs.data@.len(),
                size == old(self).data@.len(),
                idx <= size,
                forall|a: T, b: T| call_requires(op_function, (a, b)),
                forall|slot: int|
                    0 <= slot < idx ==> call_ensures(
                        op_function,
                        (old(self).data@[slot], rhs.data@[slot]),
                        #[trigger] self.data@[slot],
                    ),
                forall|slot: int| idx <= slot < size ==> self.data@[slot] == old(self).data@[slot],
            decreases size - idx,
        {
            let lhsval = self.data[idx];
            let rhsval = rhs.data[idx];
            self.data[idx] = op_function(lhsval, rhsval);
            idx = idx + 1;
        }
        return Ok(MatrixOpResult::Successful);
    }

    fn add_immut(&self, rhs: &Matrix<T>) -> (made: Result<Matrix<T>, MatrixOpResult>) {
        return self.by_each_element_immut(rhs, add_mnum::<T>);
    }

    fn add_mut(&mut self, rhs: &Matrix<T>) -> (done: Result<MatrixOpResult, MatrixOpResult>) {
        return self.by_each_element_mut(rhs, add_mnum::<T>);
    }

    fn sub_immut(&self, rhs: &Matrix<T>) -> (made: Result<Matrix<T>, MatrixOpResult>) {
        return self.by_each_element_immut(rhs, sub_mnum::<T>);
    }

    fn sub_mut(&mut self, rhs: &Matrix<T>) -> (done: Result<MatrixOpResult, MatrixOpResult>) {
        return self.by_each_element_mut(rhs, sub_mnum::<T>);
    }

    fn mul_immut(&self, rhs: &T) -> (made: Result<Matrix<T>, MatrixOpResult>) {
        let mut clone = self.clone();
        match clone.mul_mut(rhs) {
            Ok(_) => Ok(clone),
            Err(err) => Err(err),
        }
    }

    fn mul_mut(&mut self, rhs: &T) -> (done: Result<MatrixOpResult, MatrixOpResult>) {
        let size = self.data.len();
        let mut idx: usize = 0;
        while idx < size
            invariant
                self.n == old(self).n,
                self.m == old(self).m,
                size == self.data@.len(),
                size == old(self).data@.len(),
                idx <= size,
                forall|slot: int|
                    0 <= slot < idx ==> #[trigger] self.data@[slot] == old(self).data@[slot].spec_times(
                        *rhs,
                    ),
                forall|slot: int| idx <= slot < size ==> self.data@[slot] == old(self).data@[slot],
            decreases size - idx,
        {
            let lhsval: T = self.data[idx];
            let rhsval: T = *rhs;
            self.data[idx] = lhsval.times(rhsval);
            idx = idx + 1;
        }
        assert(self.data@ =~= old(self).spec_scaled_data(*rhs));
        Ok(MatrixOpResult::Successful)
    }

    fn xmul_immut(&self, rhs: &Matrix<T>) -> (made: Result<Matrix<T>, MatrixOpResult>) {
        if self.m != rhs.n {
            return Err(MatrixOpResult::SizeMismatch);
        }
        let mut result = {
            match Matrix::new(self.n, rhs.m) {
                Ok(value) => value,
                Err(err) => return Err(err),
            }
        };
        let mut i: usize = 0;
        while i < result.n
            invariant
                self.spec_well_formed(),
                rhs.spec_well_formed(),
                self.m == rhs.n,
                self.n * rhs.m <= usize::MAX,
                result.spec_well_formed(),
                result.n == self.n,
                result.m == rhs.m,
                i <= result.n,
                result.data@ == self.spec_xmul_rows(rhs, i as nat),
                forall|row: int, pass: int, column: int|
                    0 <= row < i && 0 <= pass < self.n && 0 <= column < rhs.m
                        ==> #[trigger] self.spec_xmul_reaches(rhs, row, pass, column),
            decreases result.n - i,
        {
            let mut j: usize = 0;
            while j < result.n
                invariant
                    self.spec_well_formed(),
                    rhs.spec_well_formed(),
                    self.m == rhs.n,
                    self.n * rhs.m <= usize::MAX,
                    result.spec_well_formed(),
                    result.n == self.n,
                    result.m == rhs.m,
                    i < result.n,
                    j <= result.n,
                    result.data@ == self.spec_xmul_passes(
                        rhs,
                        self.spec_xmul_rows(rhs, i as nat),
                        i as int,
                        j as nat,
                    ),
                    forall|row: int, pass: int, column: int|
                        0 <= row < i && 0 <= pass < self.n && 0 <= column < rhs.m
                            ==> #[trigger] self.spec_xmul_reaches(rhs, row, pass, column),
                    forall|pass: int, column: int|
                        0 <= pass < j && 0 <= column < rhs.m ==> #[trigger] self.spec_xmul_reaches(
                            rhs,
                            i as int,
                            pass,
                            column,
                        ),
                decreases result.n - j,
            {
                let mut k: usize = 0;
                while k < result.m
                    invariant
                        self.spec_well_formed(),
                        rhs.spec_well_formed(),
                        self.m == rhs.n,
                        self.n * rhs.m <= usize::MAX,
                        result.spec_well_formed(),
                        result.n == self.n,
                        result.m == rhs.m,
                        i < result.n,
                        j < result.n,
                        k <= result.m,
                        result.data@ == self.spec_xmul_columns(
                            rhs,
                            self.spec_xmul_passes(
                                rhs,
                                self.spec_xmul_rows(rhs, i as nat),
                                i as int,
                                j as nat,
                            ),
                            i as int,
                            j as int,
                            k as nat,
                        ),
                        forall|column: int|
                            0 <= column < k ==> #[trigger] self.spec_xmul_reaches(
                                rhs,
                                i as int,
                                j as int,
                                column,
                            ),
                    decreases result.m - k,
                {
                    let ghost partial = result.data@;
                    let nval: &mut T = match result.get_mut(i, k) {
                        Ok(value) => value,
                        Err(err) => {
                            assert(!self.spec_xmul_reaches(rhs, i as int, j as int, k as int));
                            return Err(err);
                        },
                    };
                    let left = match self.get_immut(i, k) {
                        Ok(value) => value,
                        Err(err) => {
                            assert(!self.spec_xmul_reaches(rhs, i as int, j as int, k as int));
                            return Err(err);
                        },
                    };
                    let right = match rhs.get_immut(j, k) {
                        Ok(value) => value,
                        Err(err) => {
                            assert(!self.spec_xmul_reaches(rhs, i as int, j as int, k as int));
                            return Err(err);
                        },
                    };
                    *nval = (*nval).plus(left.times(right));
                    assert(result.data@ == self.spec_xmul_step(
                        rhs,
                        partial,
                        i as int,
                        j as int,
                        k as int,
                    ));
                    assert(self.spec_xmul_reaches(rhs, i as int, j as int, k as int));
                    k = k + 1;
                }
                j = j + 1;
            }
            i = i + 1;
        }
        Ok(result)
    }

    fn xmul_mut(&mut self, rhs: &Matrix<T>) -> (done: Result<MatrixOpResult, MatrixOpResult>) {
        match self.xmul_immut(rhs) {
            Ok(value) => {
                *self = value;
                Ok(MatrixOpResult::Successful)
            },
            Err(err) => Err(err),
        }
    }

    fn transpose_immut(&self) -> (made: Result<Matrix<T>, MatrixOpResult>) {
        let size: usize = self.data.len();
        let mut buffer: Vec<T> = Vec::with_capacity(size);
        let mut j: usize = 0;
        while j < self.m
            invariant
                self.spec_well_formed(),
                j <= self.m,
                buffer@.len() == j * self.n,
                buffer@.len() <= self.n * self.m,
                forall|place: int|
                    0 <= place < buffer@.len() ==> #[trigger] buffer@[place]
                        == self.spec_transposed_data()[place],
                forall|row: int, column: int|
                    0 <= row < self.n && 0 <= column < j ==> #[trigger] self.spec_reachable(
                        row,
                        column,
                    ),
            decreases self.m - j,
        {
            let mut i: usize = 0;
            while i < self.n
                invariant
                    self.spec_well_formed(),
                    j < self.m,
                    i <= self.n,
                    buffer@.len() == j * self.n + i,
                    buffer@.len() <= self.n * self.m,
                    forall|place: int|
                        0 <= place < buffer@.len() ==> #[trigger] buffer@[place]
                            == self.spec_transposed_data()[place],
                    forall|row: int, column: int|
                        0 <= row < self.n && 0 <= column < j ==> #[trigger] self.spec_reachable(
                            row,
                            column,
                        ),
                    forall|row: int| 0 <= row < i ==> #[trigger] self.spec_reachable(row, j as int),
                decreases self.n - i,
            {
                let element = match self.get_immut(i, j) {
                    Ok(value) => value,
                    Err(err) => {
                        assert(!self.spec_reachable(i as int, j as int));
                        return Err(err);
                    },
                };
                proof {
                    let place = j * self.n + i;
                    let rows = self.n as int;
                    assert(place % rows == i && place / rows == j) by (nonlinear_arith)
                        requires
                            place == j * rows + i,
                            0 <= i < rows,
                            0 <= j,
                    ;
                    assert(place + 1 <= self.n * self.m) by (nonlinear_arith)
                        requires
                            place == j * self.n + i,
                            0 <= i < self.n,
                            0 <= j < self.m,
                    ;
                }
                buffer.push(element);
                i = i + 1;
            }
            assert((j + 1) * self.n == j * self.n + self.n) by (nonlinear_arith);
            j = j + 1;
        }
        assert(self.m * self.n == self.n * self.m) by (nonlinear_arith);
        assert(buffer@ =~= self.spec_transposed_data());
        Ok(Matrix { n: self.m, m: self.n, data: buffer })
    }

    fn transpose_mut(&mut self) -> (done: Result<MatrixOpResult, MatrixOpResult>) {
        match self.transpose_immut() {
            Ok(value) => {
                *self = value;
                Ok(MatrixOpResult::Successful)
            },
            Err(err) => Err(err),
        }
    }
}

} // verus!
