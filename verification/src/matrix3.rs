//! The matrix of three rows and three columns.

use vstd::prelude::*;
use crate::scalar::Scalar;
use crate::model::{cell_values, lemma_padded_rectangular, Table};
use crate::error::{Error, ErrorKind};
use crate::grid::{arrange, Grid};
use crate::matrix::Matrix;
use crate::matrix23::{exact, Matrix23};
use crate::cmatrix::CMatrix;

verus! {

/// A matrix of three rows and three columns.
#[derive(Debug)]
pub struct Matrix3<T: Scalar> {
    grid: Grid<T>,
}

impl<T: Scalar> View for Matrix3<T> {
    type V = Table;

    closed spec fn view(&self) -> Table {
        self.grid@
    }
}

impl<T: Scalar> Clone for Matrix3<T> {
    /// A copy with the same content.
    fn clone(&self) -> (r: Self)
        ensures
            r@ == self@,
    {
        proof {
            use_type_invariant(self);
        }
        Matrix3 { grid: self.grid.clone() }
    }
}

impl<T: Scalar> Matrix3<T> {
    #[verifier::type_invariant]
    spec fn sized(self) -> bool {
        self.grid@.rows == 3 && self.grid@.columns == 3
    }

    /// The matrix of the given elements, row by row.
    pub fn new(
        m11: T,
        m12: T,
        m13: T,
        m21: T,
        m22: T,
        m23: T,
        m31: T,
        m32: T,
        m33: T,
    ) -> (r: Matrix3<T>)
        ensures
            r@ == (Table {
                rows: 3,
                columns: 3,
                cells: seq![
                    seq![m11.value(), m12.value(), m13.value()],
                    seq![m21.value(), m22.value(), m23.value()],
                    seq![m31.value(), m32.value(), m33.value()],
                ],
            }),
    {
        let mut first: Vec<T> = Vec::new();
        first.push(m11);
        first.push(m12);
        first.push(m13);
        let mut second: Vec<T> = Vec::new();
        second.push(m21);
        second.push(m22);
        second.push(m23);
        let mut third: Vec<T> = Vec::new();
        third.push(m31);
        third.push(m32);
        third.push(m33);
        let mut rows: Vec<Vec<T>> = Vec::new();
        rows.push(first);
        rows.push(second);
        rows.push(third);
        let ghost t = Table {
            rows: 3,
            columns: 3,
            cells: seq![
                seq![m11.value(), m12.value(), m13.value()],
                seq![m21.value(), m22.value(), m23.value()],
                seq![m31.value(), m32.value(), m33.value()],
            ],
        };
        proof {
            assert(cell_values(rows@) =~~= t.cells);
            lemma_padded_rectangular(t);
        }
        Matrix3 { grid: Grid::from_rows(rows) }
    }
}

impl<T: Scalar> Matrix<T> for Matrix3<T> {
    open spec fn table(&self) -> Table {
        self@
    }

    open spec fn fixed_size() -> Option<nat> {
        Some(3nat)
    }

    open spec fn shape_message() -> Seq<char> {
        "Can't make Matrix3 from this elements! Wrong size maybe?"@
    }

    fn grid(&self) -> (g: &Grid<T>) {
        proof {
            use_type_invariant(self);
        }
        let _rows = self.grid.rows();
        assert(Self::fixed_size() == Some(3nat));
        &self.grid
    }

    fn from_grid(g: Grid<T>) -> (r: Result<Self, Error>) {
        assert(Self::fixed_size() == Some(3nat));
        if g.rows() == 3 && g.columns() == 3 {
            Ok(Matrix3 { grid: g })
        } else {
            assert(Self::shape_message() == "Can't make Matrix3 from this elements! Wrong size maybe?"@);
            Err(
                Error::new(
                    ErrorKind::ShapeError,
                    "Can't make Matrix3 from this elements! Wrong size maybe?",
                ),
            )
        }
    }

    fn set_elements(&mut self, v: Vec<Vec<T>>) -> (r: Result<(), Error>) {
        assert(Self::fixed_size() == Some(3nat));
        assert(Self::shape_message() == "Can't make Matrix3 from this elements! Wrong size maybe?"@);
        if exact(&v, 3) {
            proof {
                lemma_padded_rectangular(Table { rows: 3, columns: 3, cells: cell_values(v@) });
            }
            self.grid = Grid::from_rows(v);
            Ok(())
        } else {
            Err(
                Error::new(
                    ErrorKind::ShapeError,
                    "Can't make Matrix3 from this elements! Wrong size maybe?",
                ),
            )
        }
    }
}

impl<T: Scalar> Matrix23<T> for Matrix3<T> {
    open spec fn size() -> nat {
        3
    }

    fn zero() -> (r: Self) {
        assert(Self::size() == 3);
        Matrix3 { grid: Grid::zero(3, 3) }
    }

    fn one() -> (r: Self) {
        assert(Self::size() == 3);
        Matrix3 { grid: Grid::one(3, 3) }
    }

    fn identity() -> (r: Self) {
        assert(Self::size() == 3);
        Matrix3 { grid: Grid::identity(3, 3) }
    }

    fn from_element(e: T) -> (r: Self) {
        assert(Self::size() == 3);
        Matrix3 { grid: Grid::from_element(3, 3, e) }
    }

    fn from_vec_as_columns(v: Vec<T>) -> (r: Result<Self, Error>) {
        assert(Self::size() == 3);
        if v.len() > 9 {
            Err(Error::new(ErrorKind::ShapeError, "Too much elements in vector!"))
        } else if v.len() < 9 {
            Err(Error::new(ErrorKind::ShapeError, "Not enough elements in vector!"))
        } else {
            Ok(Matrix3 { grid: arrange(&v, 3, 3).transposed() })
        }
    }

    fn from_vec_as_rows(v: Vec<T>) -> (r: Result<Self, Error>) {
        assert(Self::size() == 3);
        if v.len() > 9 {
            Err(Error::new(ErrorKind::ShapeError, "Too much elements in vector!"))
        } else if v.len() < 9 {
            Err(Error::new(ErrorKind::ShapeError, "Not enough elements in vector!"))
        } else {
            Ok(Matrix3 { grid: arrange(&v, 3, 3) })
        }
    }

    fn from_text(text: &Vec<char>, delimiter: char) -> (r: Result<Self, Error>) {
        assert(Self::size() == 3);
        match Grid::from_text(text, delimiter, 3, 3) {
            Ok(g) => Ok(Matrix3 { grid: g }),
            Err(e) => Err(e),
        }
    }

    fn from_diagonal(element: T) -> (r: Self) {
        assert(Self::size() == 3);
        Matrix3 { grid: Grid::from_diagonal(3, 3, element) }
    }

    fn to_cmatrix(self) -> (r: CMatrix<T>) {
        CMatrix::hold(self.grid)
    }
}

} // verus!
