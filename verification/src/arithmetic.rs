//! Determinant, inverse, sums, differences and multiples of grids.

use vstd::prelude::*;
use crate::scalar::Scalar;
use crate::model::rectangular;
use crate::error::{fails, Error, ErrorKind};
use crate::grid::Grid;
use crate::determinant::determinant;
use crate::inverse::inverse;

verus! {

impl<T: Scalar> Grid<T> {
    /// The determinant, by elimination in the element type.
    ///
    /// Fails with `NotSquare` unless the grid is square, and with
    /// `Arithmetic` where an intermediate result of the elimination is not a
    /// value of the element type.
    pub fn try_det(&self) -> (r: Result<T, Error>)
        ensures
            !self@.is_square() <==> fails(
                r,
                ErrorKind::NotSquare,
                "Can't find determinant! Maybe rows != columns?"@,
            ),
            self@.is_square() && self@.determinant_in::<T>().is_none() <==> fails(
                r,
                ErrorKind::Arithmetic,
                "A result is not a value of the element type"@,
            ),
            self@.is_square() && self@.determinant_in::<T>().is_some() <==> r.is_ok(),
            r.is_ok() ==> Some(r.unwrap().value()) == self@.determinant_in::<T>(),
            r.is_ok() ==> r.unwrap().value() == self@.determinant(),
    {
        proof {
            use_type_invariant(self);
            if self@.is_square() && self@.determinant_in::<T>().is_some() {
                crate::algebra::correctness::lemma_elimination::<T>(self@.cells, self.rows as int);
            }
        }
        if self.rows != self.columns {
            return Err(
                Error::new(
                    ErrorKind::NotSquare,
                    "Can't find determinant! Maybe rows != columns?",
                ),
            );
        }
        match determinant(&self.elems) {
            Some(d) => Ok(d),
            None => Err(Error::new(ErrorKind::Arithmetic, "A result is not a value of the element type")),
        }
    }

    /// The inverse, by elimination in the element type.
    ///
    /// Fails with `NotSquare` unless the grid is square, with `Singular`
    /// where the determinant is zero, and with `Arithmetic` where an
    /// intermediate result, of the determinant or of the inverse, is not a
    /// value of the element type or a pivot is zero.
    pub fn try_inverse(&self) -> (r: Result<Grid<T>, Error>)
        ensures
            !self@.is_square() <==> fails(
                r,
                ErrorKind::NotSquare,
                "Can't inverse this matrix! Maybe rows != columns?"@,
            ),
            self@.is_square() && self@.determinant_in::<T>() == Some(0int) <==> fails(
                r,
                ErrorKind::Singular,
                "Can't inverse this matrix! determinant = 0"@,
            ),
            self@.is_square() && (self@.determinant_in::<T>().is_none() || (
            self@.determinant_in::<T>() != Some(0int) && self@.inverse_in::<T>().is_none()))
                <==> fails(
                    r,
                    ErrorKind::Arithmetic,
                    "A result is not a value of the element type"@,
                ),
            self@.is_square() && self@.determinant_in::<T>().is_some() && self@.determinant_in::<T>()
                != Some(0int) && self@.inverse_in::<T>().is_some() <==> r.is_ok(),
            r.is_ok() ==> Some(r.unwrap()@) == self@.inverse_in::<T>(),
            fails(r, ErrorKind::Singular, "Can't inverse this matrix! determinant = 0"@) ==> self@.determinant() == 0,
            r.is_ok() ==> self@.determinant() != 0,
    {
        proof {
            use_type_invariant(self);
            if self@.is_square() && self@.determinant_in::<T>().is_some() {
                crate::algebra::correctness::lemma_elimination::<T>(self@.cells, self.rows as int);
            }
        }
        if self.rows != self.columns {
            return Err(
                Error::new(
                    ErrorKind::NotSquare,
                    "Can't inverse this matrix! Maybe rows != columns?",
                ),
            );
        }
        match determinant(&self.elems) {
            Some(d) => {
                if d.same(T::zero()) {
                    return Err(
                        Error::new(
                            ErrorKind::Singular,
                            "Can't inverse this matrix! determinant = 0",
                        ),
                    );
                }
            },
            None => {
                return Err(
                    Error::new(
                        ErrorKind::Arithmetic,
                        "A result is not a value of the element type",
                    ),
                );
            },
        }
        match inverse(&self.elems) {
            Some(elems) => Ok(Grid { rows: self.rows, columns: self.columns, elems }),
            None => Err(Error::new(ErrorKind::Arithmetic, "A result is not a value of the element type")),
        }
    }

    /// The sum with `rhs`, cell by cell.
    ///
    /// Fails with `DimensionMismatch` unless the shapes are equal, and with
    /// `Arithmetic` where a sum is not a value of the element type.
    pub fn try_add(&self, rhs: &Grid<T>) -> (r: Result<Grid<T>, Error>)
        ensures
            !(self@.rows == rhs@.rows && self@.columns == rhs@.columns) <==> fails(
                r,
                ErrorKind::DimensionMismatch,
                "Can't fold this matrices: self.columns != rhs.columns || self.rows != rhs.rows"@,
            ),
            self@.rows == rhs@.rows && self@.columns == rhs@.columns && !self@.sum_fits::<T>(rhs@)
                <==> fails(
                    r,
                    ErrorKind::Arithmetic,
                    "A result is not a value of the element type"@,
                ),
            self@.rows == rhs@.rows && self@.columns == rhs@.columns && self@.sum_fits::<T>(rhs@)
                <==> r.is_ok(),
            r.is_ok() ==> r.unwrap()@ == self@.plus(rhs@),
    {
        proof {
            use_type_invariant(self);
            use_type_invariant(rhs);
        }
        if self.rows != rhs.rows || self.columns != rhs.columns {
            return Err(
                Error::new(
                    ErrorKind::DimensionMismatch,
                    "Can't fold this matrices: self.columns != rhs.columns || self.rows != rhs.rows",
                ),
            );
        }
        let ghost a = self@;
        let ghost b = rhs@;
        let mut out: Vec<Vec<T>> = Vec::new();
        let mut i: usize = 0;
        while i < self.rows
            invariant
                i <= self.rows,
                a == self@,
                b == rhs@,
                self.rows == rhs.rows,
                self.columns == rhs.columns,
                rectangular(self.elems@, self.rows as int, self.columns as int),
                rectangular(rhs.elems@, self.rows as int, self.columns as int),
                rectangular(out@, i as int, self.columns as int),
                forall|x: int, y: int|
                    0 <= x < i && 0 <= y < self.columns ==> T::representable(
                        #[trigger] a.cells[x][y] + b.cells[x][y],
                    ),
                forall|x: int, y: int|
                    0 <= x < i && 0 <= y < self.columns ==> (#[trigger] out[x][y]).value()
                        == a.cells[x][y] + b.cells[x][y],
            decreases self.rows - i,
        {
            let mut line: Vec<T> = Vec::new();
            let mut j: usize = 0;
            while j < self.columns
                invariant
                    j <= self.columns,
                    i < self.rows,
                    a == self@,
                    b == rhs@,
                    self.rows == rhs.rows,
                    self.columns == rhs.columns,
                    rectangular(self.elems@, self.rows as int, self.columns as int),
                    rectangular(rhs.elems@, self.rows as int, self.columns as int),
                    line.len() == j,
                    forall|y: int|
                        0 <= y < j ==> T::representable(
                            #[trigger] a.cells[i as int][y] + b.cells[i as int][y],
                        ),
                    forall|y: int|
                        0 <= y < j ==> (#[trigger] line[y]).value() == a.cells[i as int][y]
                            + b.cells[i as int][y],
                decreases self.columns - j,
            {
                assert(a.cells[i as int][j as int] == self.elems[i as int][j as int].value());
                assert(b.cells[i as int][j as int] == rhs.elems[i as int][j as int].value());
                match self.elems[i][j].checked_add(rhs.elems[i][j]) {
                    Some(c) => {
                        line.push(c);
                    },
                    None => {
                        return Err(
                            Error::new(
                                ErrorKind::Arithmetic,
                                "A result is not a value of the element type",
                            ),
                        );
                    },
                }
                j += 1;
            }
            out.push(line);
            i += 1;
        }
        let r = Grid { rows: self.rows, columns: self.columns, elems: out };
        assert(r@.cells =~~= a.plus(b).cells);
        Ok(r)
    }

    /// The difference with `rhs`, cell by cell.
    ///
    /// Fails with `DimensionMismatch` unless the shapes are equal, and with
    /// `Arithmetic` where a difference is not a value of the element type.
    pub fn try_sub(&self, rhs: &Grid<T>) -> (r: Result<Grid<T>, Error>)
        ensures
            !(self@.rows == rhs@.rows && self@.columns == rhs@.columns) <==> fails(
                r,
                ErrorKind::DimensionMismatch,
                "Can't fold this matrices: self.columns != rhs.columns || self.rows != rhs.rows"@,
            ),
            self@.rows == rhs@.rows && self@.columns == rhs@.columns && !self@.difference_fits::<T>(
                rhs@,
            ) <==> fails(r, ErrorKind::Arithmetic, "A result is not a value of the element type"@),
            self@.rows == rhs@.rows && self@.columns == rhs@.columns && self@.difference_fits::<T>(
                rhs@,
            ) <==> r.is_ok(),
            r.is_ok() ==> r.unwrap()@ == self@.minus(rhs@),
    {
        proof {
            use_type_invariant(self);
            use_type_invariant(rhs);
        }
        if self.rows != rhs.rows || self.columns != rhs.columns {
            return Err(
                Error::new(
                    ErrorKind::DimensionMismatch,
                    "Can't fold this matrices: self.columns != rhs.columns || self.rows != rhs.rows",
                ),
            );
        }
        let ghost a = self@;
        let ghost b = rhs@;
        let mut out: Vec<Vec<T>> = Vec::new();
        let mut i: usize = 0;
        while i < self.rows
            invariant
                i <= self.rows,
                a == self@,
                b == rhs@,
                self.rows == rhs.rows,
                self.columns == rhs.columns,
                rectangular(self.elems@, self.rows as int, self.columns as int),
                rectangular(rhs.elems@, self.rows as int, self.columns as int),
                rectangular(out@, i as int, self.columns as int),
                forall|x: int, y: int|
                    0 <= x < i && 0 <= y < self.columns ==> T::representable(
                        #[trigger] a.cells[x][y] - b.cells[x][y],
                    ),
                forall|x: int, y: int|
                    0 <= x < i && 0 <= y < self.columns ==> (#[trigger] out[x][y]).value()
                        == a.cells[x][y] - b.cells[x][y],
            decreases self.rows - i,
        {
            let mut line: Vec<T> = Vec::new();
            let mut j: usize = 0;
            while j < self.columns
                invariant
                    j <= self.columns,
                    i < self.rows,
                    a == self@,
                    b == rhs@,
                    self.rows == rhs.rows,
                    self.columns == rhs.columns,
                    rectangular(self.elems@, self.rows as int, self.columns as int),
                    rectangular(rhs.elems@, self.rows as int, self.columns as int),
                    line.len() == j,
                    forall|y: int|
                        0 <= y < j ==> T::representable(
                            #[trigger] a.cells[i as int][y] - b.cells[i as int][y],
                        ),
                    forall|y: int|
                        0 <= y < j ==> (#[trigger] line[y]).value() == a.cells[i as int][y]
                            - b.cells[i as int][y],
                decreases self.columns - j,
            {
                assert(a.cells[i as int][j as int] == self.elems[i as int][j as int].value());
                assert(b.cells[i as int][j as int] == rhs.elems[i as int][j as int].value());
                match self.elems[i][j].checked_sub(rhs.elems[i][j]) {
                    Some(c) => {
                        line.push(c);
                    },
                    None => {
                        return Err(
                            Error::new(
                                ErrorKind::Arithmetic,
                                "A result is not a value of the element type",
                            ),
                        );
                    },
                }
                j += 1;
            }
            out.push(line);
            i += 1;
        }
        let r = Grid { rows: self.rows, columns: self.columns, elems: out };
        assert(r@.cells =~~= a.minus(b).cells);
        Ok(r)
    }

    /// Every cell times `factor`.
    ///
    /// Fails with `Arithmetic` where a product is not a value of the element
    /// type.
    pub fn try_scale(&self, factor: T) -> (r: Result<Grid<T>, Error>)
        ensures
            !self@.scaling_fits::<T>(factor.value()) <==> fails(
                r,
                ErrorKind::Arithmetic,
                "A result is not a value of the element type"@,
            ),
            self@.scaling_fits::<T>(factor.value()) <==> r.is_ok(),
            r.is_ok() ==> r.unwrap()@ == self@.scaled(factor.value()),
    {
        proof {
            use_type_invariant(self);
        }
        let ghost a = self@;
        let ghost v = factor.value();
        let mut out: Vec<Vec<T>> = Vec::new();
        let mut i: usize = 0;
        while i < self.rows
            invariant
                i <= self.rows,
                a == self@,
                v == factor.value(),
                rectangular(self.elems@, self.rows as int, self.columns as int),
                rectangular(out@, i as int, self.columns as int),
                forall|x: int, y: int|
                    0 <= x < i && 0 <= y < self.columns ==> T::representable(
                        #[trigger] a.cells[x][y] * v,
                    ),
                forall|x: int, y: int|
                    0 <= x < i && 0 <= y < self.columns ==> (#[trigger] out[x][y]).value()
                        == a.cells[x][y] * v,
            decreases self.rows - i,
        {
            let mut line: Vec<T> = Vec::new();
            let mut j: usize = 0;
            while j < self.columns
                invariant
                    j <= self.columns,
                    i < self.rows,
                    a == self@,
                    v == factor.value(),
                    rectangular(self.elems@, self.rows as int, self.columns as int),
                    line.len() == j,
                    forall|y: int|
                        0 <= y < j ==> T::representable(#[trigger] a.cells[i as int][y] * v),
                    forall|y: int|
                        0 <= y < j ==> (#[trigger] line[y]).value() == a.cells[i as int][y] * v,
                decreases self.columns - j,
            {
                assert(a.cells[i as int][j as int] == self.elems[i as int][j as int].value());
                match self.elems[i][j].checked_mul(factor) {
                    Some(c) => {
                        line.push(c);
                    },
                    None => {
                        return Err(
                            Error::new(
                                ErrorKind::Arithmetic,
                                "A result is not a value of the element type",
                            ),
                        );
                    },
                }
                j += 1;
            }
            out.push(line);
            i += 1;
        }
        let r = Grid { rows: self.rows, columns: self.columns, elems: out };
        assert(r@.cells =~~= a.scaled(v).cells);
        Ok(r)
    }
}

} // verus!
