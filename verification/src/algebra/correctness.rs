//! Elimination computes the determinant.

use vstd::prelude::*;
use vstd::arithmetic::div_mod::lemma_div_multiples_vanish;
use crate::scalar::{quotient, Scalar};
use crate::elimination::{
    cleared_below, combination, diagonal_product, eliminated_determinant, first_nonzero, negated,
    reduced_from, square, step, swapped, Reduction,
};
use crate::algebra::minors::{
    alternating, determinant, expansion, lemma_minor_square, lemma_row_operation, lemma_swap,
    minor, term,
};

verus! {

/// Whether the columns before `upto` hold zero below the diagonal.
pub open spec fn cleared(m: Seq<Seq<int>>, n: int, upto: int) -> bool {
    forall|r: int, c: int| 0 <= c < upto && c < r < n ==> #[trigger] m[r][c] == 0
}

/// The product of the diagonal cells from position `i` on.
pub open spec fn diagonal_from(m: Seq<Seq<int>>, i: int) -> int
    decreases m.len() - i,
{
    if i < 0 || i >= m.len() {
        1
    } else {
        m[i][i] * diagonal_from(m, i + 1)
    }
}

/// Where the first column holds zero below its first cell, the expansion is
/// its first term.
proof fn lemma_expansion_first_term(m: Seq<Seq<int>>, n: int, k: int)
    requires
        square(m, n),
        1 <= k <= n,
        forall|r: int| 1 <= r < n ==> (#[trigger] m[r])[0] == 0,
    ensures
        expansion(m, k) == term(m, 0),
    decreases k,
{
    if k > 1 {
        lemma_expansion_first_term(m, n, k - 1);
        let i = k - 1;
        assert(m[i][0] == 0);
        assert(alternating(i) * 0 * determinant(minor(m, i, 0)) == 0) by (nonlinear_arith);
    } else {
        assert(expansion(m, 0) == 0);
    }
}

/// The diagonal of the rows without the first row and column is the diagonal
/// from the second cell on.
proof fn lemma_diagonal_minor(m: Seq<Seq<int>>, n: int, i: int)
    requires
        square(m, n),
        n >= 1,
        0 <= i <= n - 1,
    ensures
        diagonal_from(minor(m, 0, 0), i) == diagonal_from(m, i + 1),
    decreases n - i,
{
    if i < n - 1 {
        lemma_diagonal_minor(m, n, i + 1);
        assert(minor(m, 0, 0)[i][i] == m[i + 1][i + 1]);
    }
}

/// The determinant of rows with zero below the diagonal is the product of
/// the diagonal.
pub proof fn lemma_triangular(m: Seq<Seq<int>>, n: int)
    requires
        square(m, n),
        cleared(m, n, n),
    ensures
        determinant(m) == diagonal_from(m, 0),
    decreases n,
{
    if n > 0 {
        let sub = minor(m, 0, 0);
        lemma_minor_square(m, n, 0, 0);
        assert forall|r: int, c: int| 0 <= c < n - 1 && c < r < n - 1 implies #[trigger] sub[r][c]
            == 0 by {
            assert(sub[r][c] == m[r + 1][c + 1]);
        }
        lemma_triangular(sub, n - 1);
        assert forall|r: int| 1 <= r < n implies (#[trigger] m[r])[0] == 0 by {
            assert(m[r][0] == 0);
        }
        lemma_expansion_first_term(m, n, n);
        lemma_diagonal_minor(m, n, 0);
        assert(alternating(0) == 1);
        assert(1 * m[0][0] * determinant(sub) == m[0][0] * determinant(sub)) by (nonlinear_arith);
    }
}

/// The checked product of the diagonal, where it can be formed, is the
/// product.
proof fn lemma_diagonal_product<T: Scalar>(m: Seq<Seq<int>>, acc: int, i: int)
    requires
        0 <= i,
        diagonal_product::<T>(m, acc, i).is_some(),
    ensures
        diagonal_product::<T>(m, acc, i).unwrap() == acc * diagonal_from(m, i),
    decreases m.len() - i,
{
    if i < m.len() {
        lemma_diagonal_product::<T>(m, acc * m[i][i], i + 1);
        assert(acc * m[i][i] * diagonal_from(m, i + 1) == acc * (m[i][i] * diagonal_from(m, i + 1)))
            by (nonlinear_arith);
    } else {
        assert(acc * 1 == acc);
    }
}

/// The first row from `from` on with a cell other than zero in a column lies
/// behind rows with zero there.
proof fn lemma_first_nonzero(m: Seq<Seq<int>>, col: int, from: int)
    requires
        0 <= from <= m.len(),
    ensures
        from <= first_nonzero(m, col, from) <= m.len(),
        first_nonzero(m, col, from) < m.len() ==> m[first_nonzero(m, col, from)][col] != 0,
        forall|r: int| from <= r < first_nonzero(m, col, from) ==> (#[trigger] m[r])[col] == 0,
    decreases m.len() - from,
{
    if from < m.len() && m[from][col] == 0 {
        lemma_first_nonzero(m, col, from + 1);
    }
}

/// What holds of the state of an elimination of rows of determinant `d0`
/// before column `i`: the columns before `i` are cleared, the product of the
/// pivots is not zero, and sign times determinant is that product times
/// `d0`.
pub open spec fn tracks(s: Reduction, n: int, i: int, d0: int) -> bool {
    &&& square(s.rows, n)
    &&& cleared(s.rows, n, i)
    &&& s.total != 0
    &&& s.sign * determinant(s.rows) == s.total * d0
}

/// Clearing a column below a pivot that is not zero keeps what holds of the
/// state.
proof fn lemma_cleared_below<T: Scalar>(s: Reduction, n: int, i: int, j: int, d0: int)
    requires
        tracks(s, n, i, d0),
        0 <= i < j <= n,
        s.rows[i][i] != 0,
        forall|r: int| i < r < j ==> (#[trigger] s.rows[r])[i] == 0,
        cleared_below::<T>(s, n, i, j).is_some(),
    ensures
        tracks(cleared_below::<T>(s, n, i, j).unwrap(), n, i + 1, d0),
    decreases n - j,
{
    if j < n {
        let pivot = s.rows[i][i];
        let lead = s.rows[j][i];
        let row = combination(pivot, s.rows[j], lead, s.rows[i]);
        let next = Reduction { rows: s.rows.update(j, row), total: s.total * pivot, sign: s.sign };
        lemma_row_operation(s.rows, n, j, pivot, lead, i);
        let d = determinant(s.rows);
        assert(s.sign * (pivot * d) == pivot * (s.sign * d)) by (nonlinear_arith);
        assert(pivot * (s.total * d0) == (s.total * pivot) * d0) by (nonlinear_arith);
        assert(s.total * pivot != 0) by (nonlinear_arith)
            requires
                s.total != 0,
                pivot != 0,
        ;
        assert forall|r: int, c: int| 0 <= c < i && c < r < n implies #[trigger] next.rows[r][c]
            == 0 by {
            if r == j {
                assert(s.rows[j][c] == 0);
                assert(s.rows[i][c] == 0);
                assert(row[c] == pivot * s.rows[j][c] - lead * s.rows[i][c]);
                assert(pivot * 0 - lead * 0 == 0);
            } else {
                assert(s.rows[r][c] == 0);
            }
        }
        assert(row[i] == pivot * lead - lead * pivot);
        assert(pivot * lead - lead * pivot == 0) by (nonlinear_arith);
        assert forall|r: int| i < r < j + 1 implies (#[trigger] next.rows[r])[i] == 0 by {
            if r < j {
                assert(s.rows[r][i] == 0);
            }
        }
        lemma_cleared_below::<T>(next, n, i, j + 1, d0);
    } else {
        assert forall|r: int, c: int| 0 <= c < i + 1 && c < r < n implies #[trigger] s.rows[r][c]
            == 0 by {
            if c == i {
                assert(s.rows[r][i] == 0);
            }
        }
    }
}

/// A step of the elimination keeps what holds of the state.
proof fn lemma_step<T: Scalar>(s: Reduction, n: int, i: int, d0: int)
    requires
        tracks(s, n, i, d0),
        0 <= i < n,
        step::<T>(s, n, i).is_some(),
    ensures
        tracks(step::<T>(s, n, i).unwrap(), n, i + 1, d0),
{
    let p = first_nonzero(s.rows, i, i);
    lemma_first_nonzero(s.rows, i, i);
    if p >= n {
        assert forall|r: int, c: int| 0 <= c < i + 1 && c < r < n implies #[trigger] s.rows[r][c]
            == 0 by {
            if c == i {
                assert(s.rows[r][i] == 0);
            }
        }
    } else if p == i {
        lemma_cleared_below::<T>(s, n, i, i + 1, d0);
    } else {
        let sign = negated::<T>(s.sign).unwrap();
        let next = Reduction { rows: swapped(s.rows, i, p), total: s.total, sign };
        lemma_swap(s.rows, n, i, p);
        let d = determinant(s.rows);
        assert((-s.sign) * (-d) == s.sign * d) by (nonlinear_arith);
        assert forall|r: int, c: int| 0 <= c < i && c < r < n implies #[trigger] next.rows[r][c]
            == 0 by {
            assert(s.rows[i][c] == 0);
            assert(s.rows[p][c] == 0);
            assert(s.rows[r][c] == 0);
        }
        assert(next.rows[i][i] == s.rows[p][i]);
        lemma_cleared_below::<T>(next, n, i, i + 1, d0);
    }
}

/// The elimination from column `i` on keeps what holds of the state.
proof fn lemma_reduced<T: Scalar>(s: Reduction, n: int, i: int, d0: int)
    requires
        tracks(s, n, i, d0),
        0 <= i <= n,
        reduced_from::<T>(s, n, i).is_some(),
    ensures
        tracks(reduced_from::<T>(s, n, i).unwrap(), n, n, d0),
    decreases n - i,
{
    if i < n {
        lemma_step::<T>(s, n, i, d0);
        lemma_reduced::<T>(step::<T>(s, n, i).unwrap(), n, i + 1, d0);
    }
}

/// A product divided by one of its factors, other than zero, is the other.
proof fn lemma_quotient_exact(t: int, d: int)
    requires
        t != 0,
    ensures
        quotient(t * d, t) == d,
{
    if t > 0 {
        if d >= 0 {
            assert(t * d >= 0) by (nonlinear_arith)
                requires
                    t > 0,
                    d >= 0,
            ;
            lemma_div_multiples_vanish(d, t);
        } else {
            assert(t * d < 0) by (nonlinear_arith)
                requires
                    t > 0,
                    d < 0,
            ;
            assert(-(t * d) == t * (-d)) by (nonlinear_arith);
            lemma_div_multiples_vanish(-d, t);
        }
    } else {
        let u = -t;
        if d > 0 {
            assert(t * d < 0) by (nonlinear_arith)
                requires
                    t < 0,
                    d > 0,
            ;
            assert(-(t * d) == u * d) by (nonlinear_arith)
                requires
                    u == -t,
            ;
            lemma_div_multiples_vanish(d, u);
        } else {
            assert(t * d >= 0) by (nonlinear_arith)
                requires
                    t < 0,
                    d <= 0,
            ;
            assert(t * d == u * (-d)) by (nonlinear_arith)
                requires
                    u == -t,
            ;
            lemma_div_multiples_vanish(-d, u);
        }
    }
}

/// Elimination computes the determinant: where no intermediate result
/// leaves the element type `T`, what it returns for square rows is their
/// determinant.
pub proof fn lemma_elimination<T: Scalar>(m: Seq<Seq<int>>, n: int)
    requires
        square(m, n),
        eliminated_determinant::<T>(m).is_some(),
    ensures
        eliminated_determinant::<T>(m) == Some(determinant(m)),
{
    let d0 = determinant(m);
    let start = Reduction { rows: m, total: 1, sign: 1 };
    assert(1 * d0 == 1 * d0);
    lemma_reduced::<T>(start, n, 0, d0);
    let s = reduced_from::<T>(start, n, 0).unwrap();
    lemma_triangular(s.rows, n);
    lemma_diagonal_product::<T>(s.rows, s.sign, 0);
    let d = diagonal_product::<T>(s.rows, s.sign, 0).unwrap();
    assert(d == s.total * d0);
    lemma_quotient_exact(s.total, d0);
}

} // verus!
