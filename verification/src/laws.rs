//! What holds of the operations on matrices, whatever the matrices.

use vstd::prelude::*;
use crate::scalar::Scalar;
use crate::model::{dot, dot_fits, Table};
use crate::algebra::correctness::lemma_elimination;
use crate::algebra::transpose::{flipped, lemma_flipped};
use crate::elimination::identity_rows;
use crate::algebra::inversion::{lemma_left_inverse, table_of};
use crate::algebra::adjugate::lemma_right_inverse;

verus! {

/// A partial sum of cell `(j, i)` of the product of the transposes, in
/// reverse order, is the partial sum of cell `(i, j)` of the product.
proof fn lemma_dot_transposed(m: Table, n: Table, i: int, j: int, k: int)
    requires
        m.well_formed(),
        n.well_formed(),
        m.columns == n.rows,
        0 <= i < m.rows,
        0 <= j < n.columns,
        0 <= k <= m.columns,
    ensures
        dot(n.transposed(), m.transposed(), j, i, k) == dot(m, n, i, j, k),
    decreases k,
{
    if k > 0 {
        lemma_dot_transposed(m, n, i, j, k - 1);
        assert(n.transposed().cells[j][k - 1] == n.cells[k - 1][j]);
        assert(m.transposed().cells[k - 1][i] == m.cells[i][k - 1]);
        assert(n.cells[k - 1][j] * m.cells[i][k - 1] == m.cells[i][k - 1] * n.cells[k - 1][j])
            by (nonlinear_arith);
    }
}

/// Cell `(j, i)` of the product of the transposes, in reverse order, can be
/// formed exactly when cell `(i, j)` of the product can.
proof fn lemma_dot_fits_transposed<T: Scalar>(m: Table, n: Table, i: int, j: int)
    requires
        m.well_formed(),
        n.well_formed(),
        m.columns == n.rows,
        0 <= i < m.rows,
        0 <= j < n.columns,
    ensures
        dot_fits::<T>(n.transposed(), m.transposed(), j, i) == dot_fits::<T>(m, n, i, j),
{
    let nt = n.transposed();
    let mt = m.transposed();
    assert forall|k: int| 0 <= k < m.columns implies #[trigger] nt.cells[j][k] * mt.cells[k][i]
        == m.cells[i][k] * n.cells[k][j] by {
        assert(nt.cells[j][k] == n.cells[k][j]);
        assert(mt.cells[k][i] == m.cells[i][k]);
        assert(n.cells[k][j] * m.cells[i][k] == m.cells[i][k] * n.cells[k][j])
            by (nonlinear_arith);
    }
    assert forall|k: int| 1 <= k <= m.columns implies #[trigger] dot(nt, mt, j, i, k) == dot(
        m,
        n,
        i,
        j,
        k,
    ) by {
        lemma_dot_transposed(m, n, i, j, k);
    }
    if dot_fits::<T>(m, n, i, j) {
        assert forall|k: int| 0 <= k < nt.columns implies T::representable(
            #[trigger] nt.cells[j][k] * mt.cells[k][i],
        ) by {
            assert(T::representable(m.cells[i][k] * n.cells[k][j]));
        }
        assert forall|k: int| 1 <= k <= nt.columns implies T::representable(
            #[trigger] dot(nt, mt, j, i, k),
        ) by {
            assert(T::representable(dot(m, n, i, j, k)));
        }
    }
    if dot_fits::<T>(nt, mt, j, i) {
        assert forall|k: int| 0 <= k < m.columns implies T::representable(
            #[trigger] m.cells[i][k] * n.cells[k][j],
        ) by {
            assert(T::representable(nt.cells[j][k] * mt.cells[k][i]));
        }
        assert forall|k: int| 1 <= k <= m.columns implies T::representable(
            #[trigger] dot(m, n, i, j, k),
        ) by {
            assert(T::representable(dot(nt, mt, j, i, k)));
        }
    }
}

/// The transpose of a product is the product of the transposes in reverse
/// order: for `m` with as many columns as `n` has rows, the two tables are
/// equal, and one can be formed in the element type `T` exactly when the
/// other can.
pub proof fn transpose_of_product<T: Scalar>(m: Table, n: Table)
    requires
        m.well_formed(),
        n.well_formed(),
        m.columns == n.rows,
    ensures
        m.times(n).transposed() == n.transposed().times(m.transposed()),
        m.product_fits::<T>(n) == n.transposed().product_fits::<T>(m.transposed()),
{
    let nt = n.transposed();
    let mt = m.transposed();
    let left = m.times(n).transposed();
    let right = nt.times(mt);
    assert forall|j: int, i: int| 0 <= j < n.columns && 0 <= i < m.rows implies left.cells[j][i]
        == right.cells[j][i] by {
        lemma_dot_transposed(m, n, i, j, m.columns as int);
        assert(m.times(n).cells[i][j] == dot(m, n, i, j, m.columns as int));
    }
    assert(left.cells =~~= right.cells);
    assert forall|i: int, j: int| 0 <= i < m.rows && 0 <= j < n.columns implies dot_fits::<T>(
        nt,
        mt,
        j,
        i,
    ) == dot_fits::<T>(m, n, i, j) by {
        lemma_dot_fits_transposed::<T>(m, n, i, j);
    }
    if m.product_fits::<T>(n) {
        assert forall|j: int, i: int| 0 <= j < nt.rows && 0 <= i < mt.columns implies #[trigger] dot_fits::<
            T,
        >(nt, mt, j, i) by {
            assert(dot_fits::<T>(m, n, i, j));
        }
    }
    if nt.product_fits::<T>(mt) {
        assert forall|i: int, j: int| 0 <= i < m.rows && 0 <= j < n.columns implies #[trigger] dot_fits::<
            T,
        >(m, n, i, j) by {
            assert(dot_fits::<T>(nt, mt, j, i));
        }
    }
}

/// Elimination computes the determinant: where no intermediate result
/// leaves the element type `T`, what it returns for a square table is the
/// determinant of the table.
pub proof fn elimination_gives_determinant<T: Scalar>(m: Table)
    requires
        m.well_formed(),
        m.is_square(),
        m.determinant_in::<T>().is_some(),
    ensures
        m.determinant_in::<T>() == Some(m.determinant()),
{
    lemma_elimination::<T>(m.cells, m.rows as int);
}

/// The determinant of the transpose of a square table is the determinant of
/// the table.
pub proof fn determinant_of_transpose(m: Table)
    requires
        m.well_formed(),
        m.is_square(),
    ensures
        m.transposed().determinant() == m.determinant(),
{
    assert(m.transposed().cells =~~= flipped(m.cells));
    lemma_flipped(m.cells, m.rows as int);
}

/// The determinant that elimination computes for the transpose of a square
/// table is the one that it computes for the table, where it computes both
/// in the element type `T`.
pub proof fn computed_determinant_of_transpose<T: Scalar>(m: Table)
    requires
        m.well_formed(),
        m.is_square(),
        m.determinant_in::<T>().is_some(),
        m.transposed().determinant_in::<T>().is_some(),
    ensures
        m.transposed().determinant_in::<T>() == m.determinant_in::<T>(),
{
    determinant_of_transpose(m);
    elimination_gives_determinant::<T>(m);
    assert(m.transposed().cells =~~= flipped(m.cells));
    elimination_gives_determinant::<T>(m.transposed());
}

/// A matrix times its inverse is the identity, and so is the inverse times
/// the matrix, where the divisions of the inversion leave no remainder: for
/// a square table `m` whose determinant is not zero and whose inverse
/// elimination computes in the element type `T` with exact divisions.
pub proof fn product_with_inverse<T: Scalar>(m: Table)
    requires
        m.well_formed(),
        m.is_square(),
        m.determinant() != 0,
        m.inverse_in::<T>().is_some(),
        m.inverts_exactly::<T>(),
    ensures
        m.times(m.inverse_in::<T>().unwrap()) == Table::identity(m.rows, m.columns),
        m.inverse_in::<T>().unwrap().times(m) == Table::identity(m.rows, m.columns),
{
    let n = m.rows as int;
    let inverse = m.inverse_in::<T>().unwrap();
    lemma_left_inverse::<T>(m.cells, n);
    assert(table_of(m.cells) == m);
    assert(table_of(inverse.cells) == inverse);
    lemma_right_inverse(m.cells, inverse.cells, n);
    assert(table_of(identity_rows(n)).cells =~~= Table::identity(m.rows, m.columns).cells);
}

} // verus!
