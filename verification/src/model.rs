//! The mathematical content of a matrix and the operations on it that the
//! contracts of the library speak of.

use vstd::prelude::*;
use crate::scalar::Scalar;
use crate::elimination::{eliminated_determinant, eliminated_inverse};
use crate::algebra::minors::determinant;
use crate::algebra::inversion::inverts_exactly;

verus! {

/// The values of a row of elements.
pub open spec fn row_values<T: Scalar>(row: Seq<T>) -> Seq<int> {
    Seq::new(row.len(), |j: int| row[j].value())
}

/// The values of rows of elements.
pub open spec fn cell_values<T: Scalar>(elems: Seq<Vec<T>>) -> Seq<Seq<int>> {
    Seq::new(elems.len(), |i: int| row_values(elems[i]@))
}

/// The value of an element that may be missing.
pub open spec fn value_of<T: Scalar>(x: Option<T>) -> Option<int> {
    match x {
        Some(e) => Some(e.value()),
        None => None,
    }
}

/// Whether there are `rows` rows of `columns` elements each.
pub open spec fn rectangular<T>(elems: Seq<Vec<T>>, rows: int, columns: int) -> bool {
    &&& elems.len() == rows
    &&& forall|i: int| 0 <= i < rows ==> (#[trigger] elems[i]).len() == columns
}

/// The mathematical content of a matrix: its two dimensions and its cells,
/// row by row.
pub struct Table {
    pub rows: nat,
    pub columns: nat,
    pub cells: Seq<Seq<int>>,
}

impl Table {
    /// There are `rows` rows, each of `columns` cells.
    pub open spec fn well_formed(self) -> bool {
        &&& self.cells.len() == self.rows
        &&& forall|i: int| 0 <= i < self.rows ==> (#[trigger] self.cells[i]).len() == self.columns
    }

    /// The cell in row `i` and column `j`.
    pub open spec fn at(self, i: int, j: int) -> int {
        self.cells[i][j]
    }

    /// Rows and columns exchanged.
    pub open spec fn transposed(self) -> Table {
        Table {
            rows: self.columns,
            columns: self.rows,
            cells: Seq::new(
                self.columns,
                |j: int| Seq::new(self.rows, |i: int| self.cells[i][j]),
            ),
        }
    }
}

/// The length of the longest of the rows, zero where there is none.
pub open spec fn longest(rows: Seq<Seq<int>>) -> nat
    decreases rows.len(),
{
    if rows.len() == 0 {
        0
    } else {
        let rest = longest(rows.drop_last());
        if rows.last().len() > rest {
            rows.last().len()
        } else {
            rest
        }
    }
}

/// No row is longer than the longest, and where there are rows, one of them
/// is that long.
pub proof fn lemma_longest(rows: Seq<Seq<int>>)
    ensures
        forall|i: int| 0 <= i < rows.len() ==> (#[trigger] rows[i]).len() <= longest(rows),
        rows.len() > 0 ==> exists|i: int| 0 <= i < rows.len() && (#[trigger] rows[i]).len() == longest(rows),
    decreases rows.len(),
{
    if rows.len() > 0 {
        let rest = rows.drop_last();
        lemma_longest(rest);
        assert forall|i: int| 0 <= i < rows.len() implies (#[trigger] rows[i]).len() <= longest(
            rows,
        ) by {
            if i < rest.len() {
                assert(rows[i] == rest[i]);
            }
        }
        if rows.last().len() > longest(rest) {
            assert(rows[rows.len() - 1].len() == longest(rows));
        } else if rest.len() > 0 {
            let w = choose|i: int| 0 <= i < rest.len() && (#[trigger] rest[i]).len() == longest(rest);
            assert(rows[w] == rest[w]);
        } else {
            assert(rows[0].len() == longest(rows));
        }
    }
}

/// Rows that all have the same length are filled up with nothing.
pub proof fn lemma_padded_rectangular(t: Table)
    requires
        t.well_formed(),
        t.rows > 0,
    ensures
        Table::padded(t.cells) == t,
{
    lemma_longest(t.cells);
    let w = choose|i: int| 0 <= i < t.cells.len() && (#[trigger] t.cells[i]).len() == longest(t.cells);
    assert(t.cells[w].len() == t.columns);
    assert(Table::padded(t.cells).cells =~~= t.cells);
}

/// Whether `len` cells fill `rows` rows of one length.
pub open spec fn divides(rows: int, len: int) -> bool {
    if rows == 0 {
        len == 0
    } else {
        len % rows == 0
    }
}

/// The length of each of the `rows` rows that `len` cells fill.
pub open spec fn share(rows: int, len: int) -> nat {
    if rows == 0 {
        0
    } else {
        (len / rows) as nat
    }
}

/// The table of the given shape that the values fill row by row, with zero
/// in the cells that are left once the values have run out.
pub open spec fn arranged(values: Seq<int>, rows: nat, columns: nat) -> Table {
    Table {
        rows,
        columns,
        cells: Seq::new(
            rows,
            |i: int|
                Seq::new(
                    columns,
                    |j: int|
                        if i * columns + j < values.len() {
                            values[i * columns + j]
                        } else {
                            0
                        },
                ),
        ),
    }
}

/// The sum of the first `k` products of cells along row `i` of `a` and column
/// `j` of `b`.
pub open spec fn dot(a: Table, b: Table, i: int, j: int, k: int) -> int
    decreases k,
{
    if k <= 0 {
        0
    } else {
        dot(a, b, i, j, k - 1) + a.cells[i][k - 1] * b.cells[k - 1][j]
    }
}

/// Whether the element type `T` holds every product and every partial sum
/// that cell `(i, j)` of the product of `a` and `b` takes.
pub open spec fn dot_fits<T: Scalar>(a: Table, b: Table, i: int, j: int) -> bool {
    &&& forall|k: int|
        0 <= k < a.columns ==> T::representable(#[trigger] a.cells[i][k] * b.cells[k][j])
    &&& forall|k: int| 1 <= k <= a.columns ==> T::representable(#[trigger] dot(a, b, i, j, k))
}

impl Table {
    /// The table of the given shape with `v` in every cell.
    pub open spec fn filled(rows: nat, columns: nat, v: int) -> Table {
        Table { rows, columns, cells: Seq::new(rows, |i: int| Seq::new(columns, |j: int| v)) }
    }

    /// The table of the given shape with `v` on the diagonal and zero
    /// elsewhere.
    pub open spec fn diagonal(rows: nat, columns: nat, v: int) -> Table {
        Table {
            rows,
            columns,
            cells: Seq::new(
                rows,
                |i: int|
                    Seq::new(
                        columns,
                        |j: int|
                            if i == j {
                                v
                            } else {
                                0
                            },
                    ),
            ),
        }
    }

    /// The identity of the given shape: one on the diagonal, zero elsewhere.
    pub open spec fn identity(rows: nat, columns: nat) -> Table {
        Table::diagonal(rows, columns, 1)
    }

    /// The table of the given rows, each filled up with zeros at its end to
    /// the length of the longest.
    pub open spec fn padded(rows: Seq<Seq<int>>) -> Table {
        Table {
            rows: rows.len(),
            columns: longest(rows),
            cells: Seq::new(
                rows.len(),
                |i: int|
                    Seq::new(
                        longest(rows),
                        |j: int|
                            if j < rows[i].len() {
                                rows[i][j]
                            } else {
                                0
                            },
                    ),
            ),
        }
    }

    /// Whether the table has as many rows as columns.
    pub open spec fn is_square(self) -> bool {
        self.rows == self.columns
    }

    /// Whether the product with `b` can be formed in the element type `T`.
    pub open spec fn product_fits<T: Scalar>(self, b: Table) -> bool {
        forall|i: int, j: int|
            0 <= i < self.rows && 0 <= j < b.columns ==> #[trigger] dot_fits::<T>(self, b, i, j)
    }

    /// The matrix product with `b`.
    pub open spec fn times(self, b: Table) -> Table {
        Table {
            rows: self.rows,
            columns: b.columns,
            cells: Seq::new(
                self.rows,
                |i: int| Seq::new(b.columns, |j: int| dot(self, b, i, j, self.columns as int)),
            ),
        }
    }

    /// Whether the sum with `b` can be formed in the element type `T`.
    pub open spec fn sum_fits<T: Scalar>(self, b: Table) -> bool {
        forall|i: int, j: int|
            0 <= i < self.rows && 0 <= j < self.columns ==> T::representable(
                #[trigger] self.cells[i][j] + b.cells[i][j],
            )
    }

    /// The sum with `b`, cell by cell.
    pub open spec fn plus(self, b: Table) -> Table {
        Table {
            rows: self.rows,
            columns: self.columns,
            cells: Seq::new(
                self.rows,
                |i: int| Seq::new(self.columns, |j: int| self.cells[i][j] + b.cells[i][j]),
            ),
        }
    }

    /// Whether the difference with `b` can be formed in the element type `T`.
    pub open spec fn difference_fits<T: Scalar>(self, b: Table) -> bool {
        forall|i: int, j: int|
            0 <= i < self.rows && 0 <= j < self.columns ==> T::representable(
                #[trigger] self.cells[i][j] - b.cells[i][j],
            )
    }

    /// The difference with `b`, cell by cell.
    pub open spec fn minus(self, b: Table) -> Table {
        Table {
            rows: self.rows,
            columns: self.columns,
            cells: Seq::new(
                self.rows,
                |i: int| Seq::new(self.columns, |j: int| self.cells[i][j] - b.cells[i][j]),
            ),
        }
    }

    /// Whether every cell times `v` can be formed in the element type `T`.
    pub open spec fn scaling_fits<T: Scalar>(self, v: int) -> bool {
        forall|i: int, j: int|
            0 <= i < self.rows && 0 <= j < self.columns ==> T::representable(
                #[trigger] self.cells[i][j] * v,
            )
    }

    /// Every cell times `v`.
    pub open spec fn scaled(self, v: int) -> Table {
        Table {
            rows: self.rows,
            columns: self.columns,
            cells: Seq::new(
                self.rows,
                |i: int| Seq::new(self.columns, |j: int| self.cells[i][j] * v),
            ),
        }
    }

    /// The determinant of a square table: its expansion along the first
    /// column, and one for the table without cells.
    pub open spec fn determinant(self) -> int {
        determinant(self.cells)
    }

    /// The determinant as elimination computes it in the element type `T`,
    /// or `None` where an intermediate result is not a value of `T`.
    pub open spec fn determinant_in<T: Scalar>(self) -> Option<int> {
        eliminated_determinant::<T>(self.cells)
    }

    /// The inverse as elimination computes it in the element type `T`, or
    /// `None` where an intermediate result is not a value of `T` or a pivot
    /// is zero.
    pub open spec fn inverse_in<T: Scalar>(self) -> Option<Table> {
        match eliminated_inverse::<T>(self.cells) {
            Some(cells) => Some(Table { rows: self.rows, columns: self.columns, cells }),
            None => None,
        }
    }

    /// The table without row `index`.
    pub open spec fn without_row(self, index: int) -> Table {
        Table {
            rows: (self.rows - 1) as nat,
            columns: self.columns,
            cells: self.cells.remove(index),
        }
    }

    /// The table without column `index`.
    pub open spec fn without_column(self, index: int) -> Table {
        Table {
            rows: self.rows,
            columns: (self.columns - 1) as nat,
            cells: Seq::new(self.rows, |i: int| self.cells[i].remove(index)),
        }
    }

    /// The table with `row` as a new row at position `index`.
    pub open spec fn with_row(self, index: int, row: Seq<int>) -> Table {
        Table { rows: self.rows + 1, columns: self.columns, cells: self.cells.insert(index, row) }
    }

    /// The table with `column` as a new column at position `index`.
    pub open spec fn with_column(self, index: int, column: Seq<int>) -> Table {
        Table {
            rows: self.rows,
            columns: self.columns + 1,
            cells: Seq::new(self.rows, |i: int| self.cells[i].insert(index, column[i])),
        }
    }

    /// The `amount` rows from row `index` on.
    pub open spec fn row_range(self, index: int, amount: int) -> Table {
        Table {
            rows: amount as nat,
            columns: self.columns,
            cells: self.cells.subrange(index, index + amount),
        }
    }

    /// The `amount` columns from column `index` on.
    pub open spec fn column_range(self, index: int, amount: int) -> Table {
        Table {
            rows: self.rows,
            columns: amount as nat,
            cells: Seq::new(self.rows, |i: int| self.cells[i].subrange(index, index + amount)),
        }
    }

    /// The table with `v` in place of the cell in row `i` and column `j`.
    pub open spec fn with_cell(self, i: int, j: int, v: int) -> Table {
        Table {
            rows: self.rows,
            columns: self.columns,
            cells: self.cells.update(i, self.cells[i].update(j, v)),
        }
    }

    /// The table with `row` in place of row `index`.
    pub open spec fn row_replaced(self, index: int, row: Seq<int>) -> Table {
        Table { rows: self.rows, columns: self.columns, cells: self.cells.update(index, row) }
    }

    /// The table with `column` in place of column `index`.
    pub open spec fn column_replaced(self, index: int, column: Seq<int>) -> Table {
        Table {
            rows: self.rows,
            columns: self.columns,
            cells: Seq::new(self.rows, |i: int| self.cells[i].update(index, column[i])),
        }
    }

    /// Whether the divisions of the inversion of a square table in the
    /// element type `T` leave no remainder.
    pub open spec fn inverts_exactly<T: Scalar>(self) -> bool {
        inverts_exactly::<T>(self.cells)
    }

    /// Whether `v` is in some cell.
    pub open spec fn holds(self, v: int) -> bool {
        exists|i: int, j: int|
            0 <= i < self.rows && 0 <= j < self.columns && #[trigger] self.cells[i][j] == v
    }

    /// Whether cell `(i, j)` is the first in row-major order to hold `v`.
    pub open spec fn first_at(self, v: int, i: int, j: int) -> bool {
        &&& 0 <= i < self.rows
        &&& 0 <= j < self.columns
        &&& self.cells[i][j] == v
        &&& forall|b: int| 0 <= b < j ==> #[trigger] self.cells[i][b] != v
        &&& forall|a: int, b: int|
            0 <= a < i && 0 <= b < self.columns ==> #[trigger] self.cells[a][b] != v
    }
}

} // verus!
