//! Rows and columns taken out of a grid, put into it or replaced, and the
//! search for an element.

use vstd::prelude::*;
use crate::scalar::Scalar;
use crate::model::{rectangular, row_values};
use crate::error::{fails, Error, ErrorKind};
use crate::grid::Grid;
use crate::rows::{copied_row, copied_rows};

verus! {

/// The elements of `x` from `from` on, `amount` of them.
fn row_slice<T: Scalar>(x: &Vec<T>, from: usize, amount: usize) -> (r: Vec<T>)
    requires
        from + amount <= x.len(),
    ensures
        r@ == x@.subrange(from as int, from + amount),
{
    let mut out: Vec<T> = Vec::new();
    let mut k: usize = 0;
    while k < amount
        invariant
            k <= amount,
            from + amount <= x.len(),
            out.len() == k,
            forall|t: int| 0 <= t < k ==> out[t] == x[from + t],
        decreases amount - k,
    {
        out.push(x[from + k]);
        k += 1;
    }
    assert(out@ =~= x@.subrange(from as int, from + amount));
    out
}

impl<T: Scalar> Grid<T> {
    /// The grid without row `index`.
    ///
    /// Fails with `IndexError` unless there is such a row.
    pub fn try_remove_row(&self, index: usize) -> (r: Result<Grid<T>, Error>)
        ensures
            index >= self@.rows <==> fails(r, ErrorKind::IndexError, "Wrong index value!"@),
            index < self@.rows <==> r.is_ok(),
            r.is_ok() ==> r.unwrap()@ == self@.without_row(index as int),
    {
        proof {
            use_type_invariant(self);
        }
        if index >= self.rows {
            return Err(Error::new(ErrorKind::IndexError, "Wrong index value!"));
        }
        let mut out = copied_rows(&self.elems);
        out.remove(index);
        let r = Grid { rows: self.rows - 1, columns: self.columns, elems: out };
        assert(r@.cells =~~= self@.without_row(index as int).cells);
        Ok(r)
    }

    /// The grid without column `index`.
    ///
    /// Fails with `IndexError` unless there is such a column.
    pub fn try_remove_column(&self, index: usize) -> (r: Result<Grid<T>, Error>)
        ensures
            index >= self@.columns <==> fails(r, ErrorKind::IndexError, "Wrong index value!"@),
            index < self@.columns <==> r.is_ok(),
            r.is_ok() ==> r.unwrap()@ == self@.without_column(index as int),
    {
        proof {
            use_type_invariant(self);
        }
        if index >= self.columns {
            return Err(Error::new(ErrorKind::IndexError, "Wrong index value!"));
        }
        let mut out: Vec<Vec<T>> = Vec::new();
        let mut i: usize = 0;
        while i < self.rows
            invariant
                i <= self.rows,
                index < self.columns,
                rectangular(self.elems@, self.rows as int, self.columns as int),
                rectangular(out@, i as int, self.columns - 1),
                forall|a: int| 0 <= a < i ==> (#[trigger] out[a])@ == self.elems[a]@.remove(index as int),
            decreases self.rows - i,
        {
            let mut line = copied_row(&self.elems[i]);
            line.remove(index);
            out.push(line);
            i += 1;
        }
        let r = Grid { rows: self.rows, columns: self.columns - 1, elems: out };
        assert(r@.cells =~~= self@.without_column(index as int).cells);
        Ok(r)
    }

    /// The grid with `row` as a new row at position `index`.
    ///
    /// Fails with `IndexError` where `index` is beyond the number of rows,
    /// else with `ShapeError` unless `row` has one element for each column.
    pub fn try_insert_row(&self, index: usize, row: &Vec<T>) -> (r: Result<Grid<T>, Error>)
        ensures
            index > self@.rows <==> fails(r, ErrorKind::IndexError, "Wrong index value!"@),
            index <= self@.rows && row.len() != self@.columns <==> fails(
                r,
                ErrorKind::ShapeError,
                "Wrong row size!"@,
            ),
            index <= self@.rows && row.len() == self@.columns <==> r.is_ok(),
            r.is_ok() ==> r.unwrap()@ == self@.with_row(index as int, row_values(row@)),
    {
        proof {
            use_type_invariant(self);
        }
        if index > self.rows {
            return Err(Error::new(ErrorKind::IndexError, "Wrong index value!"));
        }
        if row.len() != self.columns {
            return Err(Error::new(ErrorKind::ShapeError, "Wrong row size!"));
        }
        let mut out = copied_rows(&self.elems);
        out.insert(index, copied_row(row));
        let r = Grid { rows: out.len(), columns: self.columns, elems: out };
        assert(r@.cells =~~= self@.with_row(index as int, row_values(row@)).cells);
        Ok(r)
    }

    /// The grid with `column` as a new column at position `index`.
    ///
    /// Fails with `IndexError` where `index` is beyond the number of columns
    /// or the new column would have no index in the machine's range, else
    /// with `ShapeError` unless `column` has one element for each row.
    pub fn try_insert_column(&self, index: usize, column: &Vec<T>) -> (r: Result<Grid<T>, Error>)
        ensures
            index > self@.columns || self@.columns == usize::MAX <==> fails(
                r,
                ErrorKind::IndexError,
                "Wrong index value!"@,
            ),
            index <= self@.columns < usize::MAX && column.len() != self@.rows <==> fails(
                r,
                ErrorKind::ShapeError,
                "Wrong column size!"@,
            ),
            index <= self@.columns < usize::MAX && column.len() == self@.rows <==> r.is_ok(),
            r.is_ok() ==> r.unwrap()@ == self@.with_column(index as int, row_values(column@)),
    {
        proof {
            use_type_invariant(self);
        }
        if index > self.columns || self.columns == usize::MAX {
            return Err(Error::new(ErrorKind::IndexError, "Wrong index value!"));
        }
        if column.len() != self.rows {
            return Err(Error::new(ErrorKind::ShapeError, "Wrong column size!"));
        }
        let mut out: Vec<Vec<T>> = Vec::new();
        let mut i: usize = 0;
        while i < self.rows
            invariant
                i <= self.rows,
                index <= self.columns,
                self.columns < usize::MAX,
                column.len() == self.rows,
                rectangular(self.elems@, self.rows as int, self.columns as int),
                rectangular(out@, i as int, self.columns + 1),
                forall|a: int|
                    0 <= a < i ==> (#[trigger] out[a])@ == self.elems[a]@.insert(
                        index as int,
                        column[a],
                    ),
            decreases self.rows - i,
        {
            let mut line = copied_row(&self.elems[i]);
            line.insert(index, column[i]);
            out.push(line);
            i += 1;
        }
        let r = Grid { rows: self.rows, columns: self.columns + 1, elems: out };
        assert(r@.cells =~~= self@.with_column(index as int, row_values(column@)).cells);
        Ok(r)
    }

    /// The `amount` rows from row `index` on, or a copy of the whole grid
    /// where `amount` is zero.
    ///
    /// Fails with `IndexError` where `amount` is not zero and the grid has
    /// no such rows.
    pub fn try_get_rows(&self, index: usize, amount: usize) -> (r: Result<Grid<T>, Error>)
        ensures
            amount != 0 && index >= self@.rows ==> fails(
                r,
                ErrorKind::IndexError,
                "Wrong index value!"@,
            ),
            amount != 0 && index < self@.rows && index + amount > self@.rows ==> fails(
                r,
                ErrorKind::IndexError,
                "Can't take that amount of rows from that index!"@,
            ),
            amount == 0 || index + amount <= self@.rows <==> r.is_ok(),
            r.is_ok() && amount == 0 ==> r.unwrap()@ == self@,
            r.is_ok() && amount != 0 ==> r.unwrap()@ == self@.row_range(index as int, amount as int),
    {
        proof {
            use_type_invariant(self);
        }
        if amount == 0 {
            let r = Grid {
                rows: self.rows,
                columns: self.columns,
                elems: copied_rows(&self.elems),
            };
            assert(r@.cells =~~= self@.cells);
            return Ok(r);
        }
        if index >= self.rows {
            return Err(Error::new(ErrorKind::IndexError, "Wrong index value!"));
        }
        if amount > self.rows - index {
            return Err(
                Error::new(ErrorKind::IndexError, "Can't take that amount of rows from that index!"),
            );
        }
        let mut out: Vec<Vec<T>> = Vec::new();
        let mut i: usize = 0;
        while i < amount
            invariant
                i <= amount,
                index + amount <= self.rows,
                rectangular(self.elems@, self.rows as int, self.columns as int),
                rectangular(out@, i as int, self.columns as int),
                forall|a: int| 0 <= a < i ==> (#[trigger] out[a])@ == self.elems[index + a]@,
            decreases amount - i,
        {
            out.push(copied_row(&self.elems[index + i]));
            i += 1;
        }
        let r = Grid { rows: amount, columns: self.columns, elems: out };
        assert(r@.cells =~~= self@.row_range(index as int, amount as int).cells);
        Ok(r)
    }

    /// The `amount` columns from column `index` on, or a copy of the whole
    /// grid where `amount` is zero.
    ///
    /// Fails with `IndexError` where `amount` is not zero and the grid has
    /// no such columns.
    pub fn try_get_columns(&self, index: usize, amount: usize) -> (r: Result<Grid<T>, Error>)
        ensures
            amount != 0 && index >= self@.columns ==> fails(
                r,
                ErrorKind::IndexError,
                "Wrong index value!"@,
            ),
            amount != 0 && index < self@.columns && index + amount > self@.columns ==> fails(
                r,
                ErrorKind::IndexError,
                "Can't take that amount of columns from that index!"@,
            ),
            amount == 0 || index + amount <= self@.columns <==> r.is_ok(),
            r.is_ok() && amount == 0 ==> r.unwrap()@ == self@,
            r.is_ok() && amount != 0 ==> r.unwrap()@ == self@.column_range(
                index as int,
                amount as int,
            ),
    {
        proof {
            use_type_invariant(self);
        }
        if amount == 0 {
            let r = Grid {
                rows: self.rows,
                columns: self.columns,
                elems: copied_rows(&self.elems),
            };
            assert(r@.cells =~~= self@.cells);
            return Ok(r);
        }
        if index >= self.columns {
            return Err(Error::new(ErrorKind::IndexError, "Wrong index value!"));
        }
        if amount > self.columns - index {
            return Err(
                Error::new(ErrorKind::IndexError, "Can't take that amount of columns from that index!"),
            );
        }
        let mut out: Vec<Vec<T>> = Vec::new();
        let mut i: usize = 0;
        while i < self.rows
            invariant
                i <= self.rows,
                index + amount <= self.columns,
                rectangular(self.elems@, self.rows as int, self.columns as int),
                rectangular(out@, i as int, amount as int),
                forall|a: int|
                    0 <= a < i ==> (#[trigger] out[a])@ == self.elems[a]@.subrange(
                        index as int,
                        index + amount,
                    ),
            decreases self.rows - i,
        {
            out.push(row_slice(&self.elems[i], index, amount));
            i += 1;
        }
        let r = Grid { rows: self.rows, columns: amount, elems: out };
        assert(r@.cells =~~= self@.column_range(index as int, amount as int).cells);
        Ok(r)
    }

    /// The grid with `row` in place of row `index`.
    ///
    /// Fails with `IndexError` unless there is such a row, else with
    /// `ShapeError` unless `row` has one element for each column.
    pub fn try_replace_row(&self, index: usize, row: &Vec<T>) -> (r: Result<Grid<T>, Error>)
        ensures
            index >= self@.rows <==> fails(r, ErrorKind::IndexError, "Wrong index value!"@),
            index < self@.rows && row.len() != self@.columns <==> fails(
                r,
                ErrorKind::ShapeError,
                "Wrong row size!"@,
            ),
            index < self@.rows && row.len() == self@.columns <==> r.is_ok(),
            r.is_ok() ==> r.unwrap()@ == self@.row_replaced(index as int, row_values(row@)),
    {
        proof {
            use_type_invariant(self);
        }
        if index >= self.rows {
            return Err(Error::new(ErrorKind::IndexError, "Wrong index value!"));
        }
        if row.len() != self.columns {
            return Err(Error::new(ErrorKind::ShapeError, "Wrong row size!"));
        }
        let mut out = copied_rows(&self.elems);
        out.set(index, copied_row(row));
        let r = Grid { rows: self.rows, columns: self.columns, elems: out };
        assert(r@.cells =~~= self@.row_replaced(index as int, row_values(row@)).cells);
        Ok(r)
    }

    /// The grid with `column` in place of column `index`.
    ///
    /// Fails with `IndexError` unless there is such a column, else with
    /// `ShapeError` unless `column` has one element for each row.
    pub fn try_replace_column(&self, index: usize, column: &Vec<T>) -> (r: Result<Grid<T>, Error>)
        ensures
            index >= self@.columns <==> fails(r, ErrorKind::IndexError, "Wrong index value!"@),
            index < self@.columns && column.len() != self@.rows <==> fails(
                r,
                ErrorKind::ShapeError,
                "Wrong row size!"@,
            ),
            index < self@.columns && column.len() == self@.rows <==> r.is_ok(),
            r.is_ok() ==> r.unwrap()@ == self@.column_replaced(index as int, row_values(column@)),
    {
        proof {
            use_type_invariant(self);
        }
        if index >= self.columns {
            return Err(Error::new(ErrorKind::IndexError, "Wrong index value!"));
        }
        if column.len() != self.rows {
            return Err(Error::new(ErrorKind::ShapeError, "Wrong row size!"));
        }
        let mut out: Vec<Vec<T>> = Vec::new();
        let mut i: usize = 0;
        while i < self.rows
            invariant
                i <= self.rows,
                index < self.columns,
                column.len() == self.rows,
                rectangular(self.elems@, self.rows as int, self.columns as int),
                rectangular(out@, i as int, self.columns as int),
                forall|a: int|
                    0 <= a < i ==> (#[trigger] out[a])@ == self.elems[a]@.update(
                        index as int,
                        column[a],
                    ),
            decreases self.rows - i,
        {
            let mut line = copied_row(&self.elems[i]);
            line.set(index, column[i]);
            out.push(line);
            i += 1;
        }
        let r = Grid { rows: self.rows, columns: self.columns, elems: out };
        assert(r@.cells =~~= self@.column_replaced(index as int, row_values(column@)).cells);
        Ok(r)
    }

    /// Whether `element` is in the grid.
    pub fn contains(&self, element: T) -> (r: bool)
        ensures
            r == self@.holds(element.value()),
    {
        self.find(element).is_some()
    }

    /// The row and column of the first cell in row-major order that holds
    /// `element`, or `None` where no cell does.
    pub fn find(&self, element: T) -> (r: Option<(usize, usize)>)
        ensures
            match r {
                Some((i, j)) => self@.first_at(element.value(), i as int, j as int),
                None => !self@.holds(element.value()),
            },
    {
        proof {
            use_type_invariant(self);
        }
        let ghost a = self@;
        let ghost v = element.value();
        let mut i: usize = 0;
        while i < self.rows
            invariant
                i <= self.rows,
                a == self@,
                v == element.value(),
                rectangular(self.elems@, self.rows as int, self.columns as int),
                forall|x: int, y: int|
                    0 <= x < i && 0 <= y < self.columns ==> #[trigger] a.cells[x][y] != v,
            decreases self.rows - i,
        {
            let mut j: usize = 0;
            while j < self.columns
                invariant
                    j <= self.columns,
                    i < self.rows,
                    a == self@,
                    v == element.value(),
                    rectangular(self.elems@, self.rows as int, self.columns as int),
                    forall|x: int, y: int|
                        0 <= x < i && 0 <= y < self.columns ==> #[trigger] a.cells[x][y] != v,
                    forall|y: int| 0 <= y < j ==> #[trigger] a.cells[i as int][y] != v,
                decreases self.columns - j,
            {
                assert(a.cells[i as int][j as int] == self.elems[i as int][j as int].value());
                if self.elems[i][j].same(element) {
                    return Some((i, j));
                }
                j += 1;
            }
            i += 1;
        }
        None
    }

    /// Whether the two grids have the same shape and the same elements.
    pub fn same(&self, other: &Grid<T>) -> (r: bool)
        ensures
            r == (self@ == other@),
    {
        proof {
            use_type_invariant(self);
            use_type_invariant(other);
        }
        if self.rows != other.rows || self.columns != other.columns {
            return false;
        }
        let ghost a = self@;
        let ghost b = other@;
        let mut i: usize = 0;
        while i < self.rows
            invariant
                i <= self.rows,
                a == self@,
                b == other@,
                self.rows == other.rows,
                self.columns == other.columns,
                rectangular(self.elems@, self.rows as int, self.columns as int),
                rectangular(other.elems@, self.rows as int, self.columns as int),
                forall|x: int, y: int|
                    0 <= x < i && 0 <= y < self.columns ==> #[trigger] a.cells[x][y]
                        == b.cells[x][y],
            decreases self.rows - i,
        {
            let mut j: usize = 0;
            while j < self.columns
                invariant
                    j <= self.columns,
                    i < self.rows,
                    a == self@,
                    b == other@,
                    self.rows == other.rows,
                    self.columns == other.columns,
                    rectangular(self.elems@, self.rows as int, self.columns as int),
                    rectangular(other.elems@, self.rows as int, self.columns as int),
                    forall|y: int|
                        0 <= y < j ==> #[trigger] a.cells[i as int][y] == b.cells[i as int][y],
                decreases self.columns - j,
            {
                assert(a.cells[i as int][j as int] == self.elems[i as int][j as int].value());
                assert(b.cells[i as int][j as int] == other.elems[i as int][j as int].value());
                if !self.elems[i][j].same(other.elems[i][j]) {
                    return false;
                }
                j += 1;
            }
            i += 1;
        }
        assert(a.cells =~~= b.cells);
        true
    }
}

} // verus!
