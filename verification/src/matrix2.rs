//! The matrix of two rows and two columns.

use vstd::prelude::*;
use crate::scalar::Scalar;
use crate::model::{cell_values, lemma_padded_rectangular, Table};
use crate::error::{Error, ErrorKind};
use crate::grid::{arrange, Grid};
use crate::matrix::Matrix;
use crate::matrix23::{exact, Matrix23};
use crate::cmatrix::CMatrix;

verus! {

/// A matrix of two rows and two columns.
#[derive(Debug)]
pub struct Matrix2<T: Scalar> {
    grid: Grid<T>,
}

impl<T: Scalar> View for Matrix2<T> {
    type V = Table;

    closed spec fn view(&self) -> Table {
        self.grid@
    }
}

impl<T: Scalar> Clone for Matrix2<T> {
    /// A copy with the same content.
    fn clone(&self) -> (r: Self)
        ensures
            r@ == self@,
    {
        proof {
            use_type_invariant(self);
        }
        Matrix2 { grid: self.grid.clone() }
    }
}

impl<T: Scalar> Matrix2<T> {
    #[verifier::type_invariant]
    spec fn sized(self) -> bool {
        self.grid@.rows == 2 && self.grid@.columns == 2
    }

    /// The matrix of the given elements, row by row.
    pub fn new(m11: T, m12: T, m21: T, m22: T) -> (r: Matrix2<T>)
        ensures
            r@ == (Table {
                rows: 2,
                columns: 2,
                cells: seq![seq![m11.value(), m12.value()], seq![m21.value(), m22.value()]],
            }),
    {
        let mut first: Vec<T> = Vec::new();
        first.push(m11);
        first.push(m12);
        let mut second: Vec<T> = Vec::new();
        second.push(m21);
        second.push(m22);
        let mut rows: Vec<Vec<T>> = Vec::new();
        rows.push(first);
        rows.push(second);
        let ghost t = Table {
            rows: 2,
            columns: 2,
            cells: seq![seq![m11.value(), m12.value()], seq![m21.value(), m22.value()]],
        };
        proof {
            assert(cell_values(rows@) =~~= t.cells);
            lemma_padded_rectangular(t);
        }
        Matrix2 { grid: Grid::from_rows(rows) }
    }
}

impl<T: Scalar> Matrix<T> for Matrix2<T> {
    open spec fn table(&self) -> Table {
        self@
    }

    open spec fn fixed_size() -> Option<nat> {
        Some(2nat)
    }

    open spec fn shape_message() -> Seq<char> {
        "Can't make Matrix2 from this elements! Wrong size maybe?"@
    }

    fn grid(&self) -> (g: &Grid<T>) {
        proof {
            use_type_invariant(self);
        }
        let _rows = self.grid.rows();
        assert(Self::fixed_size() == Some(2nat));
        &self.grid
    }

    fn from_grid(g: Grid<T>) -> (r: Result<Self, Error>) {
        assert(Self::fixed_size() == Some(2nat));
        if g.rows() == 2 && g.columns() == 2 {
            Ok(Matrix2 { grid: g })
        } else {
            assert(Self::shape_message() == "Can't make Matrix2 from this elements! Wrong size maybe?"@);
            Err(
                Error::new(
                    ErrorKind::ShapeError,
                    "Can't make Matrix2 from this elements! Wrong size maybe?",
                ),
            )
        }
    }

    fn set_elements(&mut self, v: Vec<Vec<T>>) -> (r: Result<(), Error>) {
        assert(Self::fixed_size() == Some(2nat));
        assert(Self::shape_message() == "Can't make Matrix2 from this elements! Wrong size maybe?"@);
        if exact(&v, 2) {
            proof {
                lemma_padded_rectangular(Table { rows: 2, columns: 2, cells: cell_values(v@) });
            }
            self.grid = Grid::from_rows(v);
            Ok(())
        } else {
            Err(
                Error::new(
                    ErrorKind::ShapeError,
                    "Can't make Matrix2 from this elements! Wrong size maybe?",
                ),
            )
        }
    }
}

impl<T: Scalar> Matrix23<T> for Matrix2<T> {
    open spec fn size() -> nat {
        2
    }

    fn zero() -> (r: Self) {
        assert(Self::size() == 2);
        Matrix2 { grid: Grid::zero(2, 2) }
    }

    fn one() -> (r: Self) {
        assert(Self::size() == 2);
        Matrix2 { grid: Grid::one(2, 2) }
    }

    fn identity() -> (r: Self) {
        assert(Self::size() == 2);
        Matrix2 { grid: Grid::identity(2, 2) }
    }

    fn from_element(e: T) -> (r: Self) {
        assert(Self::size() == 2);
        Matrix2 { grid: Grid::from_element(2, 2, e) }
    }

    fn from_vec_as_columns(v: Vec<T>) -> (r: Result<Self, Error>) {
        assert(Self::size() == 2);
        if v.len() > 4 {
            Err(Error::new(ErrorKind::ShapeError, "Too much elements in vector!"))
        } else if v.len() < 4 {
            Err(Error::new(ErrorKind::ShapeError, "Not enough elements in vector!"))
        } else {
            Ok(Matrix2 { grid: arrange(&v, 2, 2).transposed() })
        }
    }

    fn from_vec_as_rows(v: Vec<T>) -> (r: Result<Self, Error>) {
        assert(Self::size() == 2);
        if v.len() > 4 {
            Err(Error::new(ErrorKind::ShapeError, "Too much elements in vector!"))
        } else if v.len() < 4 {
            Err(Error::new(ErrorKind::ShapeError, "Not enough elements in vector!"))
        } else {
            Ok(Matrix2 { grid: arrange(&v, 2, 2) })
        }
    }

    fn from_text(text: &Vec<char>, delimiter: char) -> (r: Result<Self, Error>) {
        assert(Self::size() == 2);
        match Grid::from_text(text, delimiter, 2, 2) {
            Ok(g) => Ok(Matrix2 { grid: g }),
            Err(e) => Err(e),
        }
    }

    fn from_diagonal(element: T) -> (r: Self) {
        assert(Self::size() == 2);
        Matrix2 { grid: Grid::from_diagonal(2, 2, element) }
    }

    fn to_cmatrix(self) -> (r: CMatrix<T>) {
        CMatrix::hold(self.grid)
    }
}

} // verus!
