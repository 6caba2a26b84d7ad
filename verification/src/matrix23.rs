//! The constructors of the matrices of a fixed size.

use vstd::prelude::*;
use crate::scalar::Scalar;
use crate::model::{arranged, rectangular, row_values, Table};
use crate::error::{fails, Error, ErrorKind};
use crate::matrix::Matrix;
use crate::cmatrix::CMatrix;

verus! {

/// The constructors and conversions of the matrices of a fixed size.
pub trait Matrix23<T: Scalar>: Matrix<T> {
    /// The number of rows and of columns of every matrix of the type.
    spec fn size() -> nat;

    /// The matrix with zero in every cell.
    fn zero() -> (r: Self)
        ensures
            r.table() == Table::filled(Self::size(), Self::size(), 0),
    ;

    /// The matrix with one in every cell.
    fn one() -> (r: Self)
        ensures
            r.table() == Table::filled(Self::size(), Self::size(), 1),
    ;

    /// The identity.
    fn identity() -> (r: Self)
        ensures
            r.table() == Table::identity(Self::size(), Self::size()),
    ;

    /// The matrix with `e` in every cell.
    fn from_element(e: T) -> (r: Self)
        ensures
            r.table() == Table::filled(Self::size(), Self::size(), e.value()),
    ;

    /// The matrix that the elements of `v` fill column by column.
    ///
    /// Fails with `ShapeError` unless `v` has one element for each cell.
    fn from_vec_as_columns(v: Vec<T>) -> (r: Result<Self, Error>)
        ensures
            v.len() == Self::size() * Self::size() <==> r.is_ok(),
            r.is_ok() ==> r.unwrap().table() == arranged(
                row_values(v@),
                Self::size(),
                Self::size(),
            ).transposed(),
            v.len() > Self::size() * Self::size() ==> fails(
                r,
                ErrorKind::ShapeError,
                "Too much elements in vector!"@,
            ),
            v.len() < Self::size() * Self::size() ==> fails(
                r,
                ErrorKind::ShapeError,
                "Not enough elements in vector!"@,
            ),
    ;

    /// The matrix that the elements of `v` fill row by row.
    ///
    /// Fails with `ShapeError` unless `v` has one element for each cell.
    fn from_vec_as_rows(v: Vec<T>) -> (r: Result<Self, Error>)
        ensures
            v.len() == Self::size() * Self::size() <==> r.is_ok(),
            r.is_ok() ==> r.unwrap().table() == arranged(row_values(v@), Self::size(), Self::size()),
            v.len() > Self::size() * Self::size() ==> fails(
                r,
                ErrorKind::ShapeError,
                "Too much elements in vector!"@,
            ),
            v.len() < Self::size() * Self::size() ==> fails(
                r,
                ErrorKind::ShapeError,
                "Not enough elements in vector!"@,
            ),
    ;

    /// The matrix that a text stands for: its tokens are the elements row by
    /// row, and the cells that are left once the tokens have run out hold
    /// zero.
    ///
    /// Fails with `ParseError` where a token is not the literal of an
    /// element.
    fn from_text(text: &Vec<char>, delimiter: char) -> (r: Result<Self, Error>)
        ensures
            match Table::read::<T>(text@, delimiter, Self::size(), Self::size()) {
                Some(t) => r.is_ok() && r.unwrap().table() == t,
                None => fails(r, ErrorKind::ParseError, "Can't parse file. Maybe some errors in delimiters?"@),
            },
    ;

    /// The matrix with `element` on the diagonal and zero elsewhere.
    fn from_diagonal(element: T) -> (r: Self)
        ensures
            r.table() == Table::diagonal(Self::size(), Self::size(), element.value()),
    ;

    /// The matrix of any size with the same content.
    fn to_cmatrix(self) -> (r: CMatrix<T>)
        ensures
            r@ == self.table(),
    ;
}

/// Whether there are `n` rows of `n` elements each.
pub(crate) fn exact<T: Scalar>(v: &Vec<Vec<T>>, n: usize) -> (r: bool)
    ensures
        r == rectangular(v@, n as int, n as int),
{
    if v.len() != n {
        return false;
    }
    let mut i: usize = 0;
    while i < n
        invariant
            i <= n,
            v.len() == n,
            forall|a: int| 0 <= a < i ==> (#[trigger] v[a]).len() == n,
        decreases n - i,
    {
        if v[i].len() != n {
            return false;
        }
        i += 1;
    }
    true
}

} // verus!
