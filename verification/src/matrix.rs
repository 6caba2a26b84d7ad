//! The operations that every matrix type offers.

use vstd::prelude::*;
use crate::scalar::Scalar;
use crate::model::{cell_values, rectangular, row_values, Table};
use crate::error::{fails, Error, ErrorKind};
use crate::grid::Grid;
use crate::cmatrix::CMatrix;

verus! {

/// Whether a matrix type that keeps the size `fixed`, if it keeps one, can
/// hold `t`.
pub open spec fn admits(fixed: Option<nat>, t: Table) -> bool {
    match fixed {
        Some(n) => t.rows == n && t.columns == n,
        None => true,
    }
}

/// Whether a matrix type that keeps the size `fixed`, if it keeps one, takes
/// the rows `v` as its content: any rows where it keeps none, else only as
/// many rows as it keeps, each of that length.
pub open spec fn accepts<T>(fixed: Option<nat>, v: Seq<Vec<T>>) -> bool {
    match fixed {
        Some(n) => rectangular(v, n as int, n as int),
        None => true,
    }
}

/// The operations that every matrix offers, whatever its shape.
pub trait Matrix<T: Scalar>: Sized {
    /// The mathematical content of the matrix.
    spec fn table(&self) -> Table;

    /// The number of rows and of columns that the type keeps, if it keeps
    /// one.
    spec fn fixed_size() -> Option<nat>;

    /// The sentence of the error for elements that do not have the size
    /// that the type keeps.
    spec fn shape_message() -> Seq<char>;

    /// The grid that holds the elements.
    fn grid(&self) -> (g: &Grid<T>)
        ensures
            g@ == self.table(),
            g@.well_formed(),
            admits(Self::fixed_size(), self.table()),
    ;

    /// The matrix that holds `g`.
    ///
    /// Fails with `ShapeError` where the type keeps a size that `g` does not
    /// have.
    fn from_grid(g: Grid<T>) -> (r: Result<Self, Error>)
        ensures
            admits(Self::fixed_size(), g@) <==> r.is_ok(),
            r.is_ok() ==> r.unwrap().table() == g@,
            r.is_err() ==> fails(r, ErrorKind::ShapeError, Self::shape_message()),
    ;

    /// The number of rows.
    fn get_rows(&self) -> (r: usize)
        ensures
            r == self.table().rows,
    {
        self.grid().rows()
    }

    /// The number of columns.
    fn get_columns(&self) -> (r: usize)
        ensures
            r == self.table().columns,
    {
        self.grid().columns()
    }

    /// A copy of the elements, row by row.
    fn get_elements(&self) -> (r: Vec<Vec<T>>)
        ensures
            cell_values(r@) == self.table().cells,
            rectangular(r@, self.table().rows as int, self.table().columns as int),
    {
        self.grid().elements()
    }

    /// Replaces the content by the given rows. A type that keeps no size
    /// fills each row up with zeros at its end to the length of the longest.
    ///
    /// Fails with `ShapeError`, and changes nothing, where the type keeps a
    /// size and the rows are not as many, each of that length.
    fn set_elements(&mut self, v: Vec<Vec<T>>) -> (r: Result<(), Error>)
        ensures
            accepts(Self::fixed_size(), v@) <==> r.is_ok(),
            r.is_ok() ==> final(self).table() == Table::padded(cell_values(v@)),
            r.is_err() ==> fails(r, ErrorKind::ShapeError, Self::shape_message()),
            r.is_err() ==> final(self).table() == old(self).table(),
    ;

    /// Puts `e` into row `i` and column `j`.
    ///
    /// Fails with `IndexError`, and changes nothing, unless there is such a
    /// cell.
    fn set_element(&mut self, i: usize, j: usize, e: T) -> (r: Result<(), Error>)
        ensures
            i < old(self).table().rows && j < old(self).table().columns <==> r.is_ok(),
            r.is_ok() ==> final(self).table() == old(self).table().with_cell(
                i as int,
                j as int,
                e.value(),
            ),
            r.is_err() ==> fails(r, ErrorKind::IndexError, "Wrong index value!"@),
            r.is_err() ==> final(self).table() == old(self).table(),
    {
        let mut g = self.grid().clone();
        match g.set_element(i, j, e) {
            Ok(()) => {
                match Self::from_grid(g) {
                    Ok(m) => {
                        *self = m;
                    },
                    Err(_) => {
                        assert(false);
                    },
                }
                Ok(())
            },
            Err(e) => Err(e),
        }
    }

    /// Checks that the matrix has the size that its type keeps, which it
    /// always has.
    fn check_size(&self) -> (r: Result<(), Error>)
        ensures
            r.is_ok(),
    {
        Ok(())
    }

    /// Exchanges rows and columns.
    fn transpose(&mut self)
        ensures
            final(self).table() == old(self).table().transposed(),
    {
        let t = self.grid().transposed();
        match Self::from_grid(t) {
            Ok(m) => {
                *self = m;
            },
            Err(_) => {
                assert(false);
            },
        }
    }

    /// The determinant, by elimination in the element type.
    ///
    /// Fails with `NotSquare` unless the matrix is square, and with
    /// `Arithmetic` where an intermediate result is not a value of the
    /// element type.
    fn try_det(&self) -> (r: Result<T, Error>)
        ensures
            !self.table().is_square() <==> fails(
                r,
                ErrorKind::NotSquare,
                "Can't find determinant! Maybe rows != columns?"@,
            ),
            self.table().is_square() && self.table().determinant_in::<T>().is_none() <==> fails(
                r,
                ErrorKind::Arithmetic,
                "A result is not a value of the element type"@,
            ),
            self.table().is_square() && self.table().determinant_in::<T>().is_some() <==> r.is_ok(),
            r.is_ok() ==> Some(r.unwrap().value()) == self.table().determinant_in::<T>(),
            r.is_ok() ==> r.unwrap().value() == self.table().determinant(),
    {
        self.grid().try_det()
    }

    /// The determinant of a square matrix, where it can be formed.
    fn det(&self) -> (r: T)
        requires
            self.table().is_square(),
            self.table().determinant_in::<T>().is_some(),
        ensures
            Some(r.value()) == self.table().determinant_in::<T>(),
            r.value() == self.table().determinant(),
    {
        self.try_det().unwrap()
    }

    /// Replaces the matrix by its inverse, by elimination in the element
    /// type.
    ///
    /// Fails, and changes nothing, with `NotSquare` unless the matrix is
    /// square, with `Singular` where the determinant is zero, and with
    /// `Arithmetic` where an intermediate result, of the determinant or of
    /// the inverse, is not a value of the element type or a pivot is zero.
    fn try_inverse(&mut self) -> (r: Result<(), Error>)
        ensures
            !old(self).table().is_square() <==> fails(
                r,
                ErrorKind::NotSquare,
                "Can't inverse this matrix! Maybe rows != columns?"@,
            ),
            old(self).table().is_square() && old(self).table().determinant_in::<T>() == Some(0int)
                <==> fails(r, ErrorKind::Singular, "Can't inverse this matrix! determinant = 0"@),
            old(self).table().is_square() && (old(self).table().determinant_in::<T>().is_none() || (
            old(self).table().determinant_in::<T>() != Some(0int) && old(
                self,
            ).table().inverse_in::<T>().is_none())) <==> fails(
                r,
                ErrorKind::Arithmetic,
                "A result is not a value of the element type"@,
            ),
            old(self).table().is_square() && old(self).table().determinant_in::<T>().is_some()
                && old(self).table().determinant_in::<T>() != Some(0int) && old(
                self,
            ).table().inverse_in::<T>().is_some() <==> r.is_ok(),
            r.is_ok() ==> Some(final(self).table()) == old(self).table().inverse_in::<T>(),
            fails(r, ErrorKind::Singular, "Can't inverse this matrix! determinant = 0"@) ==> old(self).table().determinant()
                == 0,
            r.is_ok() ==> old(self).table().determinant() != 0,
            r.is_err() ==> final(self).table() == old(self).table(),
    {
        match self.grid().try_inverse() {
            Ok(g) => {
                match Self::from_grid(g) {
                    Ok(m) => {
                        *self = m;
                    },
                    Err(_) => {
                        assert(false);
                    },
                }
                Ok(())
            },
            Err(e) => Err(e),
        }
    }

    /// Replaces the matrix by its inverse, where it can be formed.
    fn inverse(&mut self)
        requires
            old(self).table().is_square(),
            old(self).table().determinant_in::<T>().is_some(),
            old(self).table().determinant_in::<T>() != Some(0int),
            old(self).table().inverse_in::<T>().is_some(),
        ensures
            Some(final(self).table()) == old(self).table().inverse_in::<T>(),
    {
        let _done = self.try_inverse();
    }

    /// Every cell times `factor`.
    ///
    /// Fails with `Arithmetic` where a product is not a value of the element
    /// type.
    fn try_scale(&self, factor: T) -> (r: Result<Self, Error>)
        ensures
            !self.table().scaling_fits::<T>(factor.value()) <==> fails(
                r,
                ErrorKind::Arithmetic,
                "A result is not a value of the element type"@,
            ),
            self.table().scaling_fits::<T>(factor.value()) <==> r.is_ok(),
            r.is_ok() ==> r.unwrap().table() == self.table().scaled(factor.value()),
    {
        match self.grid().try_scale(factor) {
            Ok(g) => Self::from_grid(g),
            Err(e) => Err(e),
        }
    }

    /// The text of the matrix: the literals of its elements row by row, with
    /// `delimiter` between each two of them.
    ///
    /// Where the literal of no element holds the delimiter, the text reads as
    /// the matrix again.
    fn to_text(&self, delimiter: char) -> (r: Vec<char>)
        ensures
            r@ == self.table().rendered(delimiter),
            self.table().literals_avoid(delimiter) ==> Table::read::<T>(
                r@,
                delimiter,
                self.table().rows,
                self.table().columns,
            ) == Some(self.table()),
    {
        self.grid().to_text(delimiter)
    }

    /// Whether `element` is in the matrix.
    fn contains(&self, element: T) -> (r: bool)
        ensures
            r == self.table().holds(element.value()),
    {
        self.grid().contains(element)
    }

    /// The row and column of the first cell in row-major order that holds
    /// `element`, or `None` where no cell does.
    fn find(&self, element: T) -> (r: Option<(usize, usize)>)
        ensures
            match r {
                Some((i, j)) => self.table().first_at(element.value(), i as int, j as int),
                None => !self.table().holds(element.value()),
            },
    {
        self.grid().find(element)
    }

    /// The element in row `i` and column `j`.
    ///
    /// Fails with `IndexError` unless there is such a cell.
    fn element(&self, i: usize, j: usize) -> (r: Result<T, Error>)
        ensures
            i < self.table().rows && j < self.table().columns <==> r.is_ok(),
            r.is_ok() ==> r.unwrap().value() == self.table().at(i as int, j as int),
            r.is_err() ==> fails(r, ErrorKind::IndexError, "Wrong index value!"@),
    {
        self.grid().element(i, j)
    }

    /// The matrix without row `index`.
    ///
    /// Fails with `IndexError` unless there is such a row.
    fn try_remove_row(&self, index: usize) -> (r: Result<CMatrix<T>, Error>)
        ensures
            index >= self.table().rows <==> fails(r, ErrorKind::IndexError, "Wrong index value!"@),
            index < self.table().rows <==> r.is_ok(),
            r.is_ok() ==> r.unwrap()@ == self.table().without_row(index as int),
    {
        match self.grid().try_remove_row(index) {
            Ok(g) => Ok(CMatrix::hold(g)),
            Err(e) => Err(e),
        }
    }

    /// The matrix without column `index`.
    ///
    /// Fails with `IndexError` unless there is such a column.
    fn try_remove_column(&self, index: usize) -> (r: Result<CMatrix<T>, Error>)
        ensures
            index >= self.table().columns <==> fails(
                r,
                ErrorKind::IndexError,
                "Wrong index value!"@,
            ),
            index < self.table().columns <==> r.is_ok(),
            r.is_ok() ==> r.unwrap()@ == self.table().without_column(index as int),
    {
        match self.grid().try_remove_column(index) {
            Ok(g) => Ok(CMatrix::hold(g)),
            Err(e) => Err(e),
        }
    }

    /// The matrix with `row` as a new row at position `index`.
    ///
    /// Fails with `IndexError` where `index` is beyond the number of rows,
    /// else with `ShapeError` unless `row` has one element for each column.
    fn try_insert_row(&self, index: usize, row: &Vec<T>) -> (r: Result<CMatrix<T>, Error>)
        ensures
            index > self.table().rows <==> fails(r, ErrorKind::IndexError, "Wrong index value!"@),
            index <= self.table().rows && row.len() != self.table().columns <==> fails(
                r,
                ErrorKind::ShapeError,
                "Wrong row size!"@,
            ),
            index <= self.table().rows && row.len() == self.table().columns <==> r.is_ok(),
            r.is_ok() ==> r.unwrap()@ == self.table().with_row(index as int, row_values(row@)),
    {
        match self.grid().try_insert_row(index, row) {
            Ok(g) => Ok(CMatrix::hold(g)),
            Err(e) => Err(e),
        }
    }

    /// The matrix with `column` as a new column at position `index`.
    ///
    /// Fails with `IndexError` where `index` is beyond the number of columns
    /// or the new column would have no index in the machine's range, else
    /// with `ShapeError` unless `column` has one element for each row.
    fn try_insert_column(&self, index: usize, column: &Vec<T>) -> (r: Result<CMatrix<T>, Error>)
        ensures
            index > self.table().columns || self.table().columns == usize::MAX <==> fails(
                r,
                ErrorKind::IndexError,
                "Wrong index value!"@,
            ),
            index <= self.table().columns < usize::MAX && column.len() != self.table().rows
                <==> fails(r, ErrorKind::ShapeError, "Wrong column size!"@),
            index <= self.table().columns < usize::MAX && column.len() == self.table().rows
                <==> r.is_ok(),
            r.is_ok() ==> r.unwrap()@ == self.table().with_column(
                index as int,
                row_values(column@),
            ),
    {
        match self.grid().try_insert_column(index, column) {
            Ok(g) => Ok(CMatrix::hold(g)),
            Err(e) => Err(e),
        }
    }

    /// The `amount` rows from row `index` on, or a copy of the whole matrix
    /// where `amount` is zero.
    ///
    /// Fails with `IndexError` where `amount` is not zero and the matrix has
    /// no such rows.
    fn try_get_rows(&self, index: usize, amount: usize) -> (r: Result<CMatrix<T>, Error>)
        ensures
            amount != 0 && index >= self.table().rows ==> fails(
                r,
                ErrorKind::IndexError,
                "Wrong index value!"@,
            ),
            amount != 0 && index < self.table().rows && index + amount > self.table().rows ==> fails(
                r,
                ErrorKind::IndexError,
                "Can't take that amount of rows from that index!"@,
            ),
            amount == 0 || index + amount <= self.table().rows <==> r.is_ok(),
            r.is_ok() && amount == 0 ==> r.unwrap()@ == self.table(),
            r.is_ok() && amount != 0 ==> r.unwrap()@ == self.table().row_range(
                index as int,
                amount as int,
            ),
    {
        match self.grid().try_get_rows(index, amount) {
            Ok(g) => Ok(CMatrix::hold(g)),
            Err(e) => Err(e),
        }
    }

    /// The `amount` columns from column `index` on, or a copy of the whole
    /// matrix where `amount` is zero.
    ///
    /// Fails with `IndexError` where `amount` is not zero and the matrix has
    /// no such columns.
    fn try_get_columns(&self, index: usize, amount: usize) -> (r: Result<CMatrix<T>, Error>)
        ensures
            amount != 0 && index >= self.table().columns ==> fails(
                r,
                ErrorKind::IndexError,
                "Wrong index value!"@,
            ),
            amount != 0 && index < self.table().columns && index + amount > self.table().columns ==> fails(
                r,
                ErrorKind::IndexError,
                "Can't take that amount of columns from that index!"@,
            ),
            amount == 0 || index + amount <= self.table().columns <==> r.is_ok(),
            r.is_ok() && amount == 0 ==> r.unwrap()@ == self.table(),
            r.is_ok() && amount != 0 ==> r.unwrap()@ == self.table().column_range(
                index as int,
                amount as int,
            ),
    {
        match self.grid().try_get_columns(index, amount) {
            Ok(g) => Ok(CMatrix::hold(g)),
            Err(e) => Err(e),
        }
    }

    /// The matrix with `row` in place of row `index`.
    ///
    /// Fails with `IndexError` unless there is such a row, else with
    /// `ShapeError` unless `row` has one element for each column.
    fn try_replace_row(&self, index: usize, row: &Vec<T>) -> (r: Result<CMatrix<T>, Error>)
        ensures
            index >= self.table().rows <==> fails(r, ErrorKind::IndexError, "Wrong index value!"@),
            index < self.table().rows && row.len() != self.table().columns <==> fails(
                r,
                ErrorKind::ShapeError,
                "Wrong row size!"@,
            ),
            index < self.table().rows && row.len() == self.table().columns <==> r.is_ok(),
            r.is_ok() ==> r.unwrap()@ == self.table().row_replaced(index as int, row_values(row@)),
    {
        match self.grid().try_replace_row(index, row) {
            Ok(g) => Ok(CMatrix::hold(g)),
            Err(e) => Err(e),
        }
    }

    /// The matrix with `column` in place of column `index`.
    ///
    /// Fails with `IndexError` unless there is such a column, else with
    /// `ShapeError` unless `column` has one element for each row.
    fn try_replace_column(&self, index: usize, column: &Vec<T>) -> (r: Result<CMatrix<T>, Error>)
        ensures
            index >= self.table().columns <==> fails(
                r,
                ErrorKind::IndexError,
                "Wrong index value!"@,
            ),
            index < self.table().columns && column.len() != self.table().rows <==> fails(
                r,
                ErrorKind::ShapeError,
                "Wrong row size!"@,
            ),
            index < self.table().columns && column.len() == self.table().rows <==> r.is_ok(),
            r.is_ok() ==> r.unwrap()@ == self.table().column_replaced(
                index as int,
                row_values(column@),
            ),
    {
        match self.grid().try_replace_column(index, column) {
            Ok(g) => Ok(CMatrix::hold(g)),
            Err(e) => Err(e),
        }
    }
}

} // verus!
