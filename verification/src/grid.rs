//! The container of the elements of a matrix, its constructors and its
//! product.

use vstd::prelude::*;
use crate::scalar::Scalar;
use crate::model::{
    arranged, cell_values, divides, dot, dot_fits, lemma_longest, longest, rectangular, row_values,
    share, Table,
};
use crate::error::{fails, Error, ErrorKind};
use crate::rows::{copied_row, copied_rows};

verus! {

/// A row-major container of elements with its row and column counts.
#[derive(Debug)]
pub struct Grid<T: Scalar> {
    pub(crate) rows: usize,
    pub(crate) columns: usize,
    pub(crate) elems: Vec<Vec<T>>,
}

impl<T: Scalar> View for Grid<T> {
    type V = Table;

    open(crate) spec fn view(&self) -> Table {
        Table {
            rows: self.rows as nat,
            columns: self.columns as nat,
            cells: cell_values(self.elems@),
        }
    }
}

/// A row of `n` copies of `e`.
fn filled_row<T: Scalar>(n: usize, e: T) -> (r: Vec<T>)
    ensures
        r.len() == n,
        forall|j: int| 0 <= j < n ==> r[j] == e,
{
    let mut line: Vec<T> = Vec::new();
    let mut j: usize = 0;
    while j < n
        invariant
            j <= n,
            line.len() == j,
            forall|b: int| 0 <= b < j ==> line[b] == e,
        decreases n - j,
    {
        line.push(e);
        j += 1;
    }
    line
}

/// A row of `n` elements: `e` at position `at`, zero elsewhere.
fn unit_row<T: Scalar>(n: usize, at: usize, e: T) -> (r: Vec<T>)
    ensures
        r.len() == n,
        forall|j: int|
            0 <= j < n ==> (#[trigger] r[j]).value() == if j == at {
                e.value()
            } else {
                0
            },
{
    let mut line: Vec<T> = Vec::new();
    let mut j: usize = 0;
    while j < n
        invariant
            j <= n,
            line.len() == j,
            forall|b: int|
                0 <= b < j ==> (#[trigger] line[b]).value() == if b == at {
                    e.value()
                } else {
                    0
                },
        decreases n - j,
    {
        if j == at {
            line.push(e);
        } else {
            line.push(T::zero());
        }
        j += 1;
    }
    line
}

/// The grid of the given shape that the values fill row by row, with zero
/// in the cells that are left once the values have run out.
pub(crate) fn arrange<T: Scalar>(values: &Vec<T>, rows: usize, columns: usize) -> (r: Grid<T>)
    ensures
        r@ == arranged(row_values(values@), rows as nat, columns as nat),
{
    let ghost vals = row_values(values@);
    let mut out: Vec<Vec<T>> = Vec::new();
    let mut k: usize = 0;
    let mut i: usize = 0;
    while i < rows
        invariant
            i <= rows,
            vals == row_values(values@),
            k <= values.len(),
            k as int == if i * columns < values.len() {
                i * columns
            } else {
                values.len() as int
            },
            rectangular(out@, i as int, columns as int),
            forall|a: int, b: int|
                0 <= a < i && 0 <= b < columns ==> (#[trigger] out[a][b]).value() == if a * columns
                    + b < vals.len() {
                    vals[a * columns + b]
                } else {
                    0
                },
        decreases rows - i,
    {
        let mut line: Vec<T> = Vec::new();
        let mut j: usize = 0;
        while j < columns
            invariant
                j <= columns,
                vals == row_values(values@),
                k <= values.len(),
                k as int == if i * columns + j < values.len() {
                    i * columns + j
                } else {
                    values.len() as int
                },
                line.len() == j,
                forall|b: int|
                    0 <= b < j ==> (#[trigger] line[b]).value() == if i * columns + b < vals.len() {
                        vals[i * columns + b]
                    } else {
                        0
                    },
            decreases columns - j,
        {
            if k < values.len() {
                assert(vals[k as int] == values[k as int].value());
                line.push(values[k]);
                k += 1;
            } else {
                line.push(T::zero());
            }
            j += 1;
        }
        proof {
            assert((i + 1) * columns == i * columns + columns) by (nonlinear_arith);
        }
        out.push(line);
        i += 1;
    }
    let r = Grid { rows, columns, elems: out };
    assert(r@.cells =~~= arranged(vals, rows as nat, columns as nat).cells);
    r
}

impl<T: Scalar> Default for Grid<T> {
    /// The grid without rows and columns.
    fn default() -> (r: Self)
        ensures
            r@ == Table::filled(0, 0, 0),
    {
        Grid::from_element(0, 0, T::zero())
    }
}

impl<T: Scalar> Clone for Grid<T> {
    /// A copy with the same content.
    fn clone(&self) -> (r: Self)
        ensures
            r@ == self@,
    {
        proof {
            use_type_invariant(self);
        }
        Grid {
            rows: self.rows,
            columns: self.columns,
            elems: copied_rows(&self.elems),
        }
    }
}

impl<T: Scalar> Grid<T> {
    #[verifier::type_invariant]
    pub(crate) open spec fn shaped(self) -> bool {
        rectangular(self.elems@, self.rows as int, self.columns as int)
    }

    /// The number of rows.
    pub fn rows(&self) -> (r: usize)
        ensures
            r == self@.rows,
            self@.well_formed(),
    {
        proof {
            use_type_invariant(self);
        }
        self.rows
    }

    /// The number of columns.
    pub fn columns(&self) -> (r: usize)
        ensures
            r == self@.columns,
            self@.well_formed(),
    {
        proof {
            use_type_invariant(self);
        }
        self.columns
    }

    /// The grid of the given shape with `e` in every cell.
    pub fn from_element(rows: usize, columns: usize, e: T) -> (r: Grid<T>)
        ensures
            r@ == Table::filled(rows as nat, columns as nat, e.value()),
    {
        let mut out: Vec<Vec<T>> = Vec::new();
        let mut i: usize = 0;
        while i < rows
            invariant
                i <= rows,
                rectangular(out@, i as int, columns as int),
                forall|a: int, b: int| 0 <= a < i && 0 <= b < columns ==> #[trigger] out[a][b] == e,
            decreases rows - i,
        {
            out.push(filled_row(columns, e));
            i += 1;
        }
        let r = Grid { rows, columns, elems: out };
        assert(r@.cells =~~= Table::filled(rows as nat, columns as nat, e.value()).cells);
        r
    }

    /// The grid of the given shape with zero in every cell.
    pub fn zero(rows: usize, columns: usize) -> (r: Grid<T>)
        ensures
            r@ == Table::filled(rows as nat, columns as nat, 0),
    {
        Grid::from_element(rows, columns, T::zero())
    }

    /// The grid of the given shape with one in every cell.
    pub fn one(rows: usize, columns: usize) -> (r: Grid<T>)
        ensures
            r@ == Table::filled(rows as nat, columns as nat, 1),
    {
        Grid::from_element(rows, columns, T::one())
    }

    /// The grid of the given shape with `e` on the diagonal and zero
    /// elsewhere.
    pub fn from_diagonal(rows: usize, columns: usize, e: T) -> (r: Grid<T>)
        ensures
            r@ == Table::diagonal(rows as nat, columns as nat, e.value()),
    {
        let mut out: Vec<Vec<T>> = Vec::new();
        let mut i: usize = 0;
        while i < rows
            invariant
                i <= rows,
                rectangular(out@, i as int, columns as int),
                forall|a: int, b: int|
                    0 <= a < i && 0 <= b < columns ==> (#[trigger] out[a][b]).value() == if a == b {
                        e.value()
                    } else {
                        0
                    },
            decreases rows - i,
        {
            out.push(unit_row(columns, i, e));
            i += 1;
        }
        let r = Grid { rows, columns, elems: out };
        assert(r@.cells =~~= Table::diagonal(rows as nat, columns as nat, e.value()).cells);
        r
    }

    /// The identity of the given shape.
    pub fn identity(rows: usize, columns: usize) -> (r: Grid<T>)
        ensures
            r@ == Table::identity(rows as nat, columns as nat),
    {
        Grid::from_diagonal(rows, columns, T::one())
    }

    /// The grid of `rows` rows that the elements of `v` fill row by row.
    ///
    /// Fails with `ShapeError` unless the elements fill `rows` rows of one
    /// length.
    pub fn from_vec_as_rows(rows: usize, v: &Vec<T>) -> (r: Result<Grid<T>, Error>)
        ensures
            divides(rows as int, v.len() as int) <==> r.is_ok(),
            r.is_ok() ==> r.unwrap()@ == arranged(
                row_values(v@),
                rows as nat,
                share(rows as int, v.len() as int),
            ),
            r.is_err() ==> fails(r, ErrorKind::ShapeError, "Wrong vector size!"@),
    {
        if rows == 0 {
            if v.len() == 0 {
                Ok(arrange(v, 0, 0))
            } else {
                Err(Error::new(ErrorKind::ShapeError, "Wrong vector size!"))
            }
        } else if v.len() % rows != 0 {
            Err(Error::new(ErrorKind::ShapeError, "Wrong vector size!"))
        } else {
            Ok(arrange(v, rows, v.len() / rows))
        }
    }

    /// The grid of `columns` columns that the elements of `v` fill column by
    /// column.
    ///
    /// Fails with `ShapeError` unless the elements fill `columns` columns of
    /// one length.
    pub fn from_vec_as_columns(columns: usize, v: &Vec<T>) -> (r: Result<Grid<T>, Error>)
        ensures
            divides(columns as int, v.len() as int) <==> r.is_ok(),
            r.is_ok() ==> r.unwrap()@ == arranged(
                row_values(v@),
                columns as nat,
                share(columns as int, v.len() as int),
            ).transposed(),
            r.is_err() ==> fails(r, ErrorKind::ShapeError, "Wrong vector size!"@),
    {
        if columns == 0 {
            if v.len() == 0 {
                Ok(arrange(v, 0, 0).transposed())
            } else {
                Err(Error::new(ErrorKind::ShapeError, "Wrong vector size!"))
            }
        } else if v.len() % columns != 0 {
            Err(Error::new(ErrorKind::ShapeError, "Wrong vector size!"))
        } else {
            Ok(arrange(v, columns, v.len() / columns).transposed())
        }
    }

    /// A copy of the elements, row by row.
    pub fn elements(&self) -> (r: Vec<Vec<T>>)
        ensures
            cell_values(r@) == self@.cells,
            rectangular(r@, self@.rows as int, self@.columns as int),
            self@.well_formed(),
    {
        proof {
            use_type_invariant(self);
        }
        copied_rows(&self.elems)
    }

    /// The element in row `i` and column `j`.
    pub fn element(&self, i: usize, j: usize) -> (r: Result<T, Error>)
        ensures
            i < self@.rows && j < self@.columns <==> r.is_ok(),
            r.is_ok() ==> r.unwrap().value() == self@.at(i as int, j as int),
            r.is_err() ==> fails(r, ErrorKind::IndexError, "Wrong index value!"@),
    {
        proof {
            use_type_invariant(self);
        }
        if i < self.rows && j < self.columns {
            Ok(self.elems[i][j])
        } else {
            Err(Error::new(ErrorKind::IndexError, "Wrong index value!"))
        }
    }

    /// Puts `e` into row `i` and column `j`.
    ///
    /// Fails with `IndexError`, and changes nothing, unless there is such a
    /// cell.
    pub fn set_element(&mut self, i: usize, j: usize, e: T) -> (r: Result<(), Error>)
        ensures
            i < old(self)@.rows && j < old(self)@.columns <==> r.is_ok(),
            r.is_ok() ==> final(self)@ == old(self)@.with_cell(i as int, j as int, e.value()),
            r.is_err() ==> fails(r, ErrorKind::IndexError, "Wrong index value!"@),
            r.is_err() ==> final(self)@ == old(self)@,
    {
        proof {
            use_type_invariant(&*self);
        }
        if i < self.rows && j < self.columns {
            let mut line = copied_row(&self.elems[i]);
            line.set(j, e);
            let mut out = copied_rows(&self.elems);
            out.set(i, line);
            let ghost before = self@;
            self.elems = out;
            assert(self@.cells =~~= before.with_cell(i as int, j as int, e.value()).cells);
            Ok(())
        } else {
            Err(Error::new(ErrorKind::IndexError, "Wrong index value!"))
        }
    }

    /// The transposed grid.
    pub fn transposed(&self) -> (r: Grid<T>)
        ensures
            r@ == self@.transposed(),
    {
        proof {
            use_type_invariant(self);
        }
        let mut out: Vec<Vec<T>> = Vec::new();
        let mut j: usize = 0;
        while j < self.columns
            invariant
                j <= self.columns,
                rectangular(self.elems@, self.rows as int, self.columns as int),
                rectangular(out@, j as int, self.rows as int),
                forall|b: int, a: int|
                    0 <= b < j && 0 <= a < self.rows ==> (#[trigger] out[b][a])
                        == self.elems[a][b],
            decreases self.columns - j,
        {
            let mut line: Vec<T> = Vec::new();
            let mut i: usize = 0;
            while i < self.rows
                invariant
                    i <= self.rows,
                    j < self.columns,
                    rectangular(self.elems@, self.rows as int, self.columns as int),
                    line.len() == i,
                    forall|a: int| 0 <= a < i ==> (#[trigger] line[a]) == self.elems[a][j as int],
                decreases self.rows - i,
            {
                line.push(self.elems[i][j]);
                i += 1;
            }
            out.push(line);
            j += 1;
        }
        let r = Grid { rows: self.columns, columns: self.rows, elems: out };
        assert(r@.cells =~~= self@.transposed().cells);
        r
    }

    /// The grid of the given rows, each filled up with zeros at its end to the
    /// length of the longest.
    pub fn from_rows(v: Vec<Vec<T>>) -> (r: Grid<T>)
        ensures
            r@ == Table::padded(cell_values(v@)),
    {
        let ghost cells = cell_values(v@);
        let mut width: usize = 0;
        let mut i: usize = 0;
        while i < v.len()
            invariant
                i <= v.len(),
                cells == cell_values(v@),
                width == longest(cells.take(i as int)),
            decreases v.len() - i,
        {
            proof {
                let next = cells.take(i + 1);
                assert(next.drop_last() =~= cells.take(i as int));
                assert(next.last() == row_values(v[i as int]@));
            }
            if v[i].len() > width {
                width = v[i].len();
            }
            i += 1;
        }
        proof {
            assert(cells.take(v.len() as int) =~= cells);
            lemma_longest(cells);
        }
        let mut out: Vec<Vec<T>> = Vec::new();
        let mut i: usize = 0;
        while i < v.len()
            invariant
                i <= v.len(),
                cells == cell_values(v@),
                width == longest(cells),
                forall|a: int| 0 <= a < v.len() ==> (#[trigger] cells[a]).len() <= width,
                rectangular(out@, i as int, width as int),
                forall|a: int, b: int|
                    0 <= a < i && 0 <= b < width ==> (#[trigger] out[a][b]).value() == if b
                        < cells[a].len() {
                        cells[a][b]
                    } else {
                        0
                    },
            decreases v.len() - i,
        {
            assert(cells[i as int] == row_values(v[i as int]@));
            let mut line: Vec<T> = Vec::new();
            let mut j: usize = 0;
            while j < width
                invariant
                    j <= width,
                    i < v.len(),
                    line.len() == j,
                    cells == cell_values(v@),
                    forall|b: int|
                        0 <= b < j ==> (#[trigger] line[b]).value() == if b < cells[i as int].len() {
                            cells[i as int][b]
                        } else {
                            0
                        },
                decreases width - j,
            {
                assert(cells[i as int] == row_values(v[i as int]@));
                if j < v[i].len() {
                    line.push(v[i][j]);
                } else {
                    line.push(T::zero());
                }
                j += 1;
            }
            out.push(line);
            i += 1;
        }
        let r = Grid { rows: v.len(), columns: width, elems: out };
        assert(r@.cells =~~= Table::padded(cells).cells);
        r
    }

    /// Cell `(i, j)` of the product with `rhs`, if it can be formed.
    fn cell_product(&self, rhs: &Grid<T>, i: usize, j: usize) -> (r: Option<T>)
        requires
            self@.columns == rhs@.rows,
            i < self@.rows,
            j < rhs@.columns,
        ensures
            r.is_some() <==> dot_fits::<T>(self@, rhs@, i as int, j as int),
            r.is_some() ==> r.unwrap().value() == dot(
                self@,
                rhs@,
                i as int,
                j as int,
                self@.columns as int,
            ),
    {
        proof {
            use_type_invariant(self);
            use_type_invariant(rhs);
        }
        let ghost a = self@;
        let ghost b = rhs@;
        let mut acc = T::zero();
        let mut k: usize = 0;
        while k < self.columns
            invariant
                k <= self.columns,
                a == self@,
                b == rhs@,
                i < self.rows,
                j < rhs.columns,
                self.columns == rhs.rows,
                rectangular(self.elems@, self.rows as int, self.columns as int),
                rectangular(rhs.elems@, rhs.rows as int, rhs.columns as int),
                acc.value() == dot(a, b, i as int, j as int, k as int),
                forall|t: int|
                    0 <= t < k ==> T::representable(
                        #[trigger] a.cells[i as int][t] * b.cells[t][j as int],
                    ),
                forall|t: int|
                    1 <= t <= k ==> T::representable(#[trigger] dot(a, b, i as int, j as int, t)),
            decreases self.columns - k,
        {
            proof {
                assert(a.cells[i as int][k as int] == self.elems[i as int][k as int].value());
                assert(b.cells[k as int][j as int] == rhs.elems[k as int][j as int].value());
                assert(dot(a, b, i as int, j as int, k + 1) == dot(a, b, i as int, j as int, k as int)
                    + a.cells[i as int][k as int] * b.cells[k as int][j as int]);
            }
            let p = match self.elems[i][k].checked_mul(rhs.elems[k][j]) {
                Some(p) => p,
                None => {
                    return None;
                },
            };
            acc = match acc.checked_add(p) {
                Some(s) => s,
                None => {
                    return None;
                },
            };
            k += 1;
        }
        Some(acc)
    }

    /// The matrix product with `rhs`.
    ///
    /// Fails with `DimensionMismatch` unless this grid has as many columns as
    /// `rhs` has rows, and with `Arithmetic` where a product or a partial sum
    /// is not a value of the element type.
    pub fn try_multiplicate(&self, rhs: &Grid<T>) -> (r: Result<Grid<T>, Error>)
        ensures
            self@.columns != rhs@.rows <==> fails(
                r,
                ErrorKind::DimensionMismatch,
                "Can't multiplicate this matrices: self.columns != rhs.rows"@,
            ),
            self@.columns == rhs@.rows && !self@.product_fits::<T>(rhs@) <==> fails(
                r,
                ErrorKind::Arithmetic,
                "A result is not a value of the element type"@,
            ),
            self@.columns == rhs@.rows && self@.product_fits::<T>(rhs@) <==> r.is_ok(),
            r.is_ok() ==> r.unwrap()@ == self@.times(rhs@),
    {
        proof {
            use_type_invariant(self);
            use_type_invariant(rhs);
        }
        if self.columns != rhs.rows {
            return Err(
                Error::new(
                    ErrorKind::DimensionMismatch,
                    "Can't multiplicate this matrices: self.columns != rhs.rows",
                ),
            );
        }
        let ghost a = self@;
        let ghost b = rhs@;
        let mut out: Vec<Vec<T>> = Vec::new();
        let mut i: usize = 0;
        while i < self.rows
            invariant
                i <= self.rows,
                a == self@,
                b == rhs@,
                self.columns == rhs.rows,
                rectangular(out@, i as int, rhs.columns as int),
                forall|x: int, y: int|
                    0 <= x < i && 0 <= y < rhs.columns ==> #[trigger] dot_fits::<T>(a, b, x, y),
                forall|x: int, y: int|
                    0 <= x < i && 0 <= y < rhs.columns ==> (#[trigger] out[x][y]).value() == dot(
                        a,
                        b,
                        x,
                        y,
                        a.columns as int,
                    ),
            decreases self.rows - i,
        {
            let mut line: Vec<T> = Vec::new();
            let mut j: usize = 0;
            while j < rhs.columns
                invariant
                    j <= rhs.columns,
                    i < self.rows,
                    a == self@,
                    b == rhs@,
                    self.columns == rhs.rows,
                    line.len() == j,
                    forall|y: int| 0 <= y < j ==> #[trigger] dot_fits::<T>(a, b, i as int, y),
                    forall|y: int|
                        0 <= y < j ==> (#[trigger] line[y]).value() == dot(
                            a,
                            b,
                            i as int,
                            y,
                            a.columns as int,
                        ),
                decreases rhs.columns - j,
            {
                match self.cell_product(rhs, i, j) {
                    Some(c) => {
                        line.push(c);
                    },
                    None => {
                        assert(!dot_fits::<T>(a, b, i as int, j as int));
                        return Err(
                            Error::new(
                                ErrorKind::Arithmetic,
                                "A result is not a value of the element type",
                            ),
                        );
                    },
                }
                j += 1;
            }
            out.push(line);
            i += 1;
        }
        let r = Grid { rows: self.rows, columns: rhs.columns, elems: out };
        assert(r@.cells =~~= a.times(b).cells);
        Ok(r)
    }
}

} // verus!
