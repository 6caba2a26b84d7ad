//! The matrix of any size.

use vstd::prelude::*;
use crate::scalar::Scalar;
use crate::model::{arranged, divides, row_values, share, Table};
use crate::error::{fails, Error, ErrorKind};
use crate::grid::Grid;
use crate::matrix::Matrix;
use crate::matrix2::Matrix2;
use crate::matrix3::Matrix3;

verus! {

/// A matrix of any size.
#[derive(Debug)]
pub struct CMatrix<T: Scalar> {
    grid: Grid<T>,
}

impl<T: Scalar> View for CMatrix<T> {
    type V = Table;

    closed spec fn view(&self) -> Table {
        self.grid@
    }
}

impl<T: Scalar> Default for CMatrix<T> {
    /// The matrix without rows and columns.
    fn default() -> (r: Self)
        ensures
            r@ == Table::filled(0, 0, 0),
    {
        CMatrix { grid: Grid::default() }
    }
}

impl<T: Scalar> Clone for CMatrix<T> {
    /// A copy with the same content.
    fn clone(&self) -> (r: Self)
        ensures
            r@ == self@,
    {
        CMatrix { grid: self.grid.clone() }
    }
}

impl<T: Scalar> CMatrix<T> {
    /// The matrix that holds `g`.
    pub fn hold(g: Grid<T>) -> (r: CMatrix<T>)
        ensures
            r@ == g@,
    {
        CMatrix { grid: g }
    }
}

impl<T: Scalar> Matrix<T> for CMatrix<T> {
    open spec fn table(&self) -> Table {
        self@
    }

    open spec fn fixed_size() -> Option<nat> {
        None
    }

    open spec fn shape_message() -> Seq<char> {
        Seq::empty()
    }

    fn grid(&self) -> (g: &Grid<T>) {
        let _rows = self.grid.rows();
        assert(Self::fixed_size() == None::<nat>);
        &self.grid
    }

    fn from_grid(g: Grid<T>) -> (r: Result<Self, Error>) {
        assert(Self::fixed_size() == None::<nat>);
        Ok(CMatrix { grid: g })
    }

    fn set_elements(&mut self, v: Vec<Vec<T>>) -> (r: Result<(), Error>) {
        assert(Self::fixed_size() == None::<nat>);
        self.grid = Grid::from_rows(v);
        Ok(())
    }
}

/// The constructors, conversions and row edits of the matrices of any size.
pub trait CMatrixTrait<T: Scalar>: Matrix<T> {
    /// The matrix of the given shape with zero in every cell.
    fn zero(rows: usize, columns: usize) -> (r: Self)
        ensures
            r.table() == Table::filled(rows as nat, columns as nat, 0),
    ;

    /// The matrix of the given shape with one in every cell.
    fn one(rows: usize, columns: usize) -> (r: Self)
        ensures
            r.table() == Table::filled(rows as nat, columns as nat, 1),
    ;

    /// The identity of the given shape: one on the diagonal, zero elsewhere.
    fn identity(rows: usize, columns: usize) -> (r: Self)
        ensures
            r.table() == Table::identity(rows as nat, columns as nat),
    ;

    /// The matrix of the given shape with `e` in every cell.
    fn from_element(rows: usize, columns: usize, e: T) -> (r: Self)
        ensures
            r.table() == Table::filled(rows as nat, columns as nat, e.value()),
    ;

    /// The matrix of `columns` columns that the elements of `v` fill column
    /// by column.
    ///
    /// Fails with `ShapeError` unless the elements fill `columns` columns of
    /// one length.
    fn from_vec_as_columns(columns: usize, v: Vec<T>) -> (r: Result<Self, Error>)
        ensures
            divides(columns as int, v.len() as int) <==> r.is_ok(),
            r.is_ok() ==> r.unwrap().table() == arranged(
                row_values(v@),
                columns as nat,
                share(columns as int, v.len() as int),
            ).transposed(),
            r.is_err() ==> fails(r, ErrorKind::ShapeError, "Wrong vector size!"@),
    ;

    /// The matrix of `rows` rows that the elements of `v` fill row by row.
    ///
    /// Fails with `ShapeError` unless the elements fill `rows` rows of one
    /// length.
    fn from_vec_as_rows(rows: usize, v: Vec<T>) -> (r: Result<Self, Error>)
        ensures
            divides(rows as int, v.len() as int) <==> r.is_ok(),
            r.is_ok() ==> r.unwrap().table() == arranged(
                row_values(v@),
                rows as nat,
                share(rows as int, v.len() as int),
            ),
            r.is_err() ==> fails(r, ErrorKind::ShapeError, "Wrong vector size!"@),
    ;

    /// The matrix of the given shape with `element` on the diagonal and zero
    /// elsewhere.
    fn from_diagonal(rows: usize, columns: usize, element: T) -> (r: Self)
        ensures
            r.table() == Table::diagonal(rows as nat, columns as nat, element.value()),
    ;

    /// The matrix of the given shape that a text stands for: its tokens are
    /// the elements row by row, and the cells that are left once the tokens
    /// have run out hold zero.
    ///
    /// Fails with `ParseError` where a token is not the literal of an
    /// element.
    fn from_text(text: &Vec<char>, delimiter: char, rows: usize, columns: usize) -> (r: Result<
        Self,
        Error,
    >)
        ensures
            match Table::read::<T>(text@, delimiter, rows as nat, columns as nat) {
                Some(t) => r.is_ok() && r.unwrap().table() == t,
                None => fails(r, ErrorKind::ParseError, "Can't parse file. Maybe some errors in delimiters?"@),
            },
    ;

    /// The matrix of two rows and two columns with the same content.
    ///
    /// Fails with `ShapeError` unless the matrix has that shape.
    fn to_matrix2(self) -> (r: Result<Matrix2<T>, Error>)
        ensures
            self.table().rows == 2 && self.table().columns == 2 <==> r.is_ok(),
            r.is_ok() ==> r.unwrap()@ == self.table(),
            r.is_err() ==> fails(
                r,
                ErrorKind::ShapeError,
                "Can't make Matrix2 from this elements! Wrong size maybe?"@,
            ),
    ;

    /// The matrix of three rows and three columns with the same content.
    ///
    /// Fails with `ShapeError` unless the matrix has that shape.
    fn to_matrix3(self) -> (r: Result<Matrix3<T>, Error>)
        ensures
            self.table().rows == 3 && self.table().columns == 3 <==> r.is_ok(),
            r.is_ok() ==> r.unwrap()@ == self.table(),
            r.is_err() ==> fails(
                r,
                ErrorKind::ShapeError,
                "Can't make Matrix3 from this elements! Wrong size maybe?"@,
            ),
    ;

    /// Adds `v` as the last row.
    ///
    /// Fails with `ShapeError`, and changes nothing, unless `v` has one
    /// element for each column.
    fn push(&mut self, v: Vec<T>) -> (r: Result<(), Error>)
        ensures
            v.len() == old(self).table().columns <==> r.is_ok(),
            r.is_ok() ==> final(self).table() == old(self).table().with_row(
                old(self).table().rows as int,
                row_values(v@),
            ),
            r.is_err() ==> fails(
                r,
                ErrorKind::ShapeError,
                "Wrong row size!"@,
            ) && final(self).table()
                == old(self).table(),
    ;

    /// Removes the last row.
    ///
    /// Fails with `IndexError` where the matrix has no row.
    fn pop(&mut self) -> (r: Result<(), Error>)
        ensures
            old(self).table().rows > 0 <==> r.is_ok(),
            r.is_ok() ==> final(self).table() == old(self).table().without_row(
                old(self).table().rows - 1,
            ),
            r.is_err() ==> fails(
                r,
                ErrorKind::IndexError,
                "Wrong index value!"@,
            ) && final(self).table()
                == old(self).table(),
    ;
}

impl<T: Scalar> CMatrixTrait<T> for CMatrix<T> {
    fn zero(rows: usize, columns: usize) -> (r: Self) {
        CMatrix { grid: Grid::zero(rows, columns) }
    }

    fn one(rows: usize, columns: usize) -> (r: Self) {
        CMatrix { grid: Grid::one(rows, columns) }
    }

    fn identity(rows: usize, columns: usize) -> (r: Self) {
        CMatrix { grid: Grid::identity(rows, columns) }
    }

    fn from_element(rows: usize, columns: usize, e: T) -> (r: Self) {
        CMatrix { grid: Grid::from_element(rows, columns, e) }
    }

    fn from_vec_as_columns(columns: usize, v: Vec<T>) -> (r: Result<Self, Error>) {
        match Grid::from_vec_as_columns(columns, &v) {
            Ok(g) => Ok(CMatrix { grid: g }),
            Err(e) => Err(e),
        }
    }

    fn from_vec_as_rows(rows: usize, v: Vec<T>) -> (r: Result<Self, Error>) {
        match Grid::from_vec_as_rows(rows, &v) {
            Ok(g) => Ok(CMatrix { grid: g }),
            Err(e) => Err(e),
        }
    }

    fn from_diagonal(rows: usize, columns: usize, element: T) -> (r: Self) {
        CMatrix { grid: Grid::from_diagonal(rows, columns, element) }
    }

    fn from_text(text: &Vec<char>, delimiter: char, rows: usize, columns: usize) -> (r: Result<
        Self,
        Error,
    >) {
        match Grid::from_text(text, delimiter, rows, columns) {
            Ok(g) => Ok(CMatrix { grid: g }),
            Err(e) => Err(e),
        }
    }

    fn to_matrix2(self) -> (r: Result<Matrix2<T>, Error>) {
        assert(Matrix2::<T>::shape_message() == "Can't make Matrix2 from this elements! Wrong size maybe?"@);
        Matrix2::from_grid(self.grid)
    }

    fn to_matrix3(self) -> (r: Result<Matrix3<T>, Error>) {
        assert(Matrix3::<T>::shape_message() == "Can't make Matrix3 from this elements! Wrong size maybe?"@);
        Matrix3::from_grid(self.grid)
    }

    fn push(&mut self, v: Vec<T>) -> (r: Result<(), Error>) {
        let rows = self.grid.rows();
        match self.grid.try_insert_row(rows, &v) {
            Ok(g) => {
                self.grid = g;
                Ok(())
            },
            Err(e) => Err(e),
        }
    }

    fn pop(&mut self) -> (r: Result<(), Error>) {
        let rows = self.grid.rows();
        if rows == 0 {
            return Err(Error::new(ErrorKind::IndexError, "Wrong index value!"));
        }
        match self.grid.try_remove_row(rows - 1) {
            Ok(g) => {
                self.grid = g;
                Ok(())
            },
            Err(e) => Err(e),
        }
    }
}

} // verus!
