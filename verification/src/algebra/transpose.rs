//! The determinant by expansion along the first row, and the determinant of
//! the rows with rows and columns exchanged.

use vstd::prelude::*;
use crate::elimination::{combination, square};
use crate::algebra::minors::{
    alternating, determinant, expansion, lemma_minor_square, lemma_row_combination, minor, term,
    without,
};

verus! {

/// The row of `n` cells with one in column `j` and zero elsewhere.
pub open spec fn unit(n: int, j: int) -> Seq<int> {
    Seq::new(
        n as nat,
        |c: int|
            if c == j {
                1int
            } else {
                0int
            },
    )
}

/// The row of `n` zeros.
pub open spec fn zeros(n: int) -> Seq<int> {
    Seq::new(n as nat, |c: int| 0int)
}

/// With a row of zeros, the determinant is zero.
pub proof fn lemma_zero_row(m: Seq<Seq<int>>, n: int, r: int)
    requires
        square(m, n),
        0 <= r < n,
        m[r] == zeros(n),
    ensures
        determinant(m) == 0,
{
    lemma_row_combination(m, n, r, 0, 0, m[r]);
    assert(combination(0, m[r], 0, m[r]) =~= zeros(n));
    assert(m.update(r, zeros(n)) =~= m);
    assert(0 * determinant(m) - 0 * determinant(m.update(r, m[r])) == 0);
}

/// Where the first row is a unit row with its one in the first column, the
/// expansion is its first term.
proof fn lemma_expansion_unit_first(m: Seq<Seq<int>>, n: int, k: int)
    requires
        square(m, n),
        1 <= k <= n,
        m[0] == unit(n, 0),
    ensures
        expansion(m, k) == term(m, 0),
    decreases k,
{
    if k > 1 {
        lemma_expansion_unit_first(m, n, k - 1);
        let i = k - 1;
        let sub = minor(m, i, 0);
        lemma_minor_square(m, n, i, 0);
        assert(sub[0] =~= zeros(n - 1));
        lemma_zero_row(sub, n - 1, 0);
        assert(alternating(i) * m[i][0] * 0 == 0);
    } else {
        assert(expansion(m, 0) == 0);
    }
}

/// The sign of a sum of positions is the product of their signs.
proof fn lemma_alternating_shift(i: int, j: int)
    requires
        i >= 1,
        j >= 1,
    ensures
        alternating(i) * alternating(j - 1) == alternating(j) * alternating(i - 1),
{
}

/// Where the first row is a unit row, the determinant is that of the rows
/// without the first row and without the column of the one, with the sign of
/// that column.
pub proof fn lemma_unit_row(m: Seq<Seq<int>>, n: int, j: int)
    requires
        square(m, n),
        0 <= j < n,
        m[0] == unit(n, j),
    ensures
        determinant(m) == alternating(j) * determinant(minor(m, 0, j)),
    decreases n, n + 1,
{
    if j == 0 {
        lemma_expansion_unit_first(m, n, n);
        assert(m[0][0] == 1);
        assert(alternating(0) == 1);
        assert(1 * 1 * determinant(minor(m, 0, 0)) == 1 * determinant(minor(m, 0, 0)));
    } else {
        lemma_expansion_unit_later(m, n, j, n);
        let sub = minor(m, 0, j);
        lemma_minor_square(m, n, 0, j);
        assert(determinant(sub) == expansion(sub, n - 1));
    }
}

/// Where the first row is a unit row with its one in a later column `j`,
/// the first `k` terms of the expansion are, with the sign of `j`, the first
/// `k - 1` terms of the expansion of the rows without the first row and
/// without column `j`.
proof fn lemma_expansion_unit_later(m: Seq<Seq<int>>, n: int, j: int, k: int)
    requires
        square(m, n),
        1 <= j < n,
        m[0] == unit(n, j),
        1 <= k <= n,
    ensures
        expansion(m, k) == alternating(j) * expansion(minor(m, 0, j), k - 1),
    decreases n, k,
{
    let rest = minor(m, 0, j);
    lemma_minor_square(m, n, 0, j);
    if k == 1 {
        assert(expansion(m, 0) == 0);
        assert(m[0][0] == 0);
        assert(alternating(0) * 0 * determinant(minor(m, 0, 0)) == 0) by (nonlinear_arith);
        assert(expansion(rest, 0) == 0);
        assert(alternating(j) * 0 == 0);
    } else {
        lemma_expansion_unit_later(m, n, j, k - 1);
        let i = k - 1;
        let sub = minor(m, i, 0);
        lemma_minor_square(m, n, i, 0);
        assert(sub[0] =~= unit(n - 1, j - 1));
        lemma_unit_row(sub, n - 1, j - 1);
        assert(minor(sub, 0, j - 1) =~~= minor(rest, i - 1, 0));
        let x = m[i][0];
        assert(rest[i - 1][0] == x);
        let d = determinant(minor(rest, i - 1, 0));
        lemma_alternating_shift(i, j);
        let si = alternating(i);
        let sj = alternating(j);
        let sj1 = alternating(j - 1);
        let si1 = alternating(i - 1);
        // term(m, i) == sj * term(rest, i - 1)
        assert(si * x * (sj1 * d) == sj * (si1 * x * d)) by (nonlinear_arith)
            requires
                si * sj1 == sj * si1,
        ;
        let e = expansion(rest, k - 2);
        let t = si1 * x * d;
        assert(sj * (e + t) == sj * e + sj * t) by (nonlinear_arith);
    }
}

/// The first `k` terms of the expansion of the determinant along the first
/// row: for each column, in turn with the signs plus and minus, the first
/// cell of the column times the determinant of the rows without the first
/// row and that column.
pub open spec fn row_expansion(m: Seq<Seq<int>>, k: int) -> int
    decreases k,
{
    if k <= 0 {
        0
    } else {
        row_expansion(m, k - 1) + alternating(k - 1) * m[0][k - 1] * determinant(
            minor(m, 0, k - 1),
        )
    }
}

/// The row with zero in place of its cells from column `k` on.
pub open spec fn head(row: Seq<int>, k: int) -> Seq<int> {
    Seq::new(
        row.len(),
        |c: int|
            if c < k {
                row[c]
            } else {
                0
            },
    )
}

/// With only the first `k` cells of the first row kept, the determinant is
/// the first `k` terms of the expansion along the first row.
proof fn lemma_row_partial(m: Seq<Seq<int>>, n: int, k: int)
    requires
        square(m, n),
        n >= 1,
        0 <= k <= n,
    ensures
        determinant(m.update(0, head(m[0], k))) == row_expansion(m, k),
    decreases k,
{
    if k == 0 {
        let z = m.update(0, head(m[0], 0));
        assert(z[0] =~= zeros(n));
        lemma_zero_row(z, n, 0);
    } else {
        lemma_row_partial(m, n, k - 1);
        let c = k - 1;
        let x = m[0][c];
        let a = m.update(0, head(m[0], k - 1));
        let u = m.update(0, unit(n, c));
        lemma_row_combination(a, n, 0, 1, -x, unit(n, c));
        assert(combination(1, a[0], -x, unit(n, c)) =~= head(m[0], k));
        assert(a.update(0, head(m[0], k)) =~= m.update(0, head(m[0], k)));
        assert(a.update(0, unit(n, c)) =~= u);
        lemma_unit_row(u, n, c);
        assert(minor(u, 0, c) =~~= minor(m, 0, c));
        let d = determinant(minor(m, 0, c));
        let s = alternating(c);
        assert(1 * determinant(a) - (-x) * (s * d) == determinant(a) + s * x * d)
            by (nonlinear_arith);
    }
}

/// The determinant is its expansion along the first row.
pub proof fn lemma_row_expansion(m: Seq<Seq<int>>, n: int)
    requires
        square(m, n),
        n >= 1,
    ensures
        determinant(m) == row_expansion(m, n),
{
    lemma_row_partial(m, n, n);
    assert(head(m[0], n) =~= m[0]);
    assert(m.update(0, m[0]) =~= m);
}

/// Square rows with rows and columns exchanged.
pub open spec fn flipped(m: Seq<Seq<int>>) -> Seq<Seq<int>> {
    Seq::new(m.len(), |j: int| Seq::new(m.len(), |i: int| m[i][j]))
}

/// Exchanging rows and columns keeps the determinant.
pub proof fn lemma_flipped(m: Seq<Seq<int>>, n: int)
    requires
        square(m, n),
    ensures
        determinant(flipped(m)) == determinant(m),
    decreases n, n + 1,
{
    if n > 0 {
        lemma_flipped_expansion(m, n, n);
        lemma_row_expansion(m, n);
    }
}

/// The expansion along the first column of the rows with rows and columns
/// exchanged is the expansion along the first row.
proof fn lemma_flipped_expansion(m: Seq<Seq<int>>, n: int, k: int)
    requires
        square(m, n),
        0 <= k <= n,
    ensures
        expansion(flipped(m), k) == row_expansion(m, k),
    decreases n, k,
{
    if k > 0 {
        lemma_flipped_expansion(m, n, k - 1);
        let i = k - 1;
        let sub = minor(m, 0, i);
        lemma_minor_square(m, n, 0, i);
        assert(flipped(m)[i][0] == m[0][i]);
        assert(minor(flipped(m), i, 0) =~~= flipped(sub));
        lemma_flipped(sub, n - 1);
    }
}

} // verus!
