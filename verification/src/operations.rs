//! The operations of a matrix with a second matrix of any type.

use vstd::prelude::*;
use crate::scalar::Scalar;
use crate::error::{fails, Error, ErrorKind};
use crate::matrix::Matrix;
use crate::cmatrix::CMatrix;

verus! {

/// The operations of a matrix with a second matrix of any type.
pub trait Operations<T: Scalar>: Matrix<T> {
    /// The matrix product with `rhs`.
    ///
    /// Fails with `DimensionMismatch` unless this matrix has as many columns
    /// as `rhs` has rows, and with `Arithmetic` where a product or a partial
    /// sum is not a value of the element type.
    fn try_multiplicate<M: Matrix<T>>(&self, rhs: M) -> (r: Result<CMatrix<T>, Error>)
        ensures
            self.table().columns != rhs.table().rows <==> fails(
                r,
                ErrorKind::DimensionMismatch,
                "Can't multiplicate this matrices: self.columns != rhs.rows"@,
            ),
            self.table().columns == rhs.table().rows && !self.table().product_fits::<T>(rhs.table()) <==> fails(
                r,
                ErrorKind::Arithmetic,
                "A result is not a value of the element type"@,
            ),
            self.table().columns == rhs.table().rows && self.table().product_fits::<T>(rhs.table()) <==> r.is_ok(),
            r.is_ok() ==> r.unwrap()@ == self.table().times(rhs.table()),
    ;

    /// The matrix product with `rhs`, where it can be formed.
    fn multiplicate<M: Matrix<T>>(&self, rhs: M) -> (r: CMatrix<T>)
        requires
            self.table().columns == rhs.table().rows,
            self.table().product_fits::<T>(rhs.table()),
        ensures
            r@ == self.table().times(rhs.table()),
    ;

    /// The sum with `rhs`, cell by cell.
    ///
    /// Fails with `DimensionMismatch` unless the shapes are equal, and with
    /// `Arithmetic` where a sum is not a value of the element type.
    fn try_add<M: Matrix<T>>(&self, rhs: M) -> (r: Result<Self, Error>)
        ensures
            !(self.table().rows == rhs.table().rows && self.table().columns == rhs.table().columns) <==> fails(
                r,
                ErrorKind::DimensionMismatch,
                "Can't fold this matrices: self.columns != rhs.columns || self.rows != rhs.rows"@,
            ),
            self.table().rows == rhs.table().rows && self.table().columns == rhs.table().columns
                && !self.table().sum_fits::<T>(rhs.table()) <==> fails(
                    r,
                    ErrorKind::Arithmetic,
                    "A result is not a value of the element type"@,
                ),
            self.table().rows == rhs.table().rows && self.table().columns == rhs.table().columns
                && self.table().sum_fits::<T>(rhs.table()) <==> r.is_ok(),
            r.is_ok() ==> r.unwrap().table() == self.table().plus(rhs.table()),
    ;

    /// The difference with `rhs`, cell by cell.
    ///
    /// Fails with `DimensionMismatch` unless the shapes are equal, and with
    /// `Arithmetic` where a difference is not a value of the element type.
    fn try_sub<M: Matrix<T>>(&self, rhs: M) -> (r: Result<Self, Error>)
        ensures
            !(self.table().rows == rhs.table().rows && self.table().columns == rhs.table().columns) <==> fails(
                r,
                ErrorKind::DimensionMismatch,
                "Can't fold this matrices: self.columns != rhs.columns || self.rows != rhs.rows"@,
            ),
            self.table().rows == rhs.table().rows && self.table().columns == rhs.table().columns
                && !self.table().difference_fits::<T>(rhs.table()) <==> fails(
                    r,
                    ErrorKind::Arithmetic,
                    "A result is not a value of the element type"@,
                ),
            self.table().rows == rhs.table().rows && self.table().columns == rhs.table().columns
                && self.table().difference_fits::<T>(rhs.table()) <==> r.is_ok(),
            r.is_ok() ==> r.unwrap().table() == self.table().minus(rhs.table()),
    ;

    /// Whether the matrix has the shape and the elements of `rhs`.
    fn same<M: Matrix<T>>(&self, rhs: &M) -> (r: bool)
        ensures
            r == (self.table() == rhs.table()),
    ;
}

impl<T: Scalar, X: Matrix<T>> Operations<T> for X {
    fn try_multiplicate<M: Matrix<T>>(&self, rhs: M) -> (r: Result<CMatrix<T>, Error>) {
        match self.grid().try_multiplicate(rhs.grid()) {
            Ok(g) => Ok(CMatrix::hold(g)),
            Err(e) => Err(e),
        }
    }

    fn multiplicate<M: Matrix<T>>(&self, rhs: M) -> (r: CMatrix<T>) {
        self.try_multiplicate(rhs).unwrap()
    }

    fn try_add<M: Matrix<T>>(&self, rhs: M) -> (r: Result<Self, Error>) {
        match self.grid().try_add(rhs.grid()) {
            Ok(g) => Self::from_grid(g),
            Err(e) => Err(e),
        }
    }

    fn try_sub<M: Matrix<T>>(&self, rhs: M) -> (r: Result<Self, Error>) {
        match self.grid().try_sub(rhs.grid()) {
            Ok(g) => Self::from_grid(g),
            Err(e) => Err(e),
        }
    }

    fn same<M: Matrix<T>>(&self, rhs: &M) -> (r: bool) {
        self.grid().same(rhs.grid())
    }
}

} // verus!
