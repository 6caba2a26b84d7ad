//! The adjugate, and why a left inverse of square rows is a right inverse.

use vstd::prelude::*;
use crate::model::{dot, Table};
use crate::elimination::{identity_rows, square, swapped};
use crate::algebra::inversion::{lemma_cancel, lemma_dot_combination, lemma_dot_row, table_of};
use crate::algebra::minors::{
    alternating, determinant, lemma_adjacent_swap, lemma_equal_rows, minor,
};
use crate::algebra::transpose::{lemma_row_expansion, row_expansion};

verus! {

/// The rows with row `k` moved to the top.
pub open spec fn lifted(m: Seq<Seq<int>>, k: int) -> Seq<Seq<int>> {
    Seq::new(
        m.len(),
        |r: int|
            if r == 0 {
                m[k]
            } else if r <= k {
                m[r - 1]
            } else {
                m[r]
            },
    )
}

/// Moving row `k` to the top gives the determinant the sign of `k`.
pub proof fn lemma_lifted(m: Seq<Seq<int>>, n: int, k: int)
    requires
        square(m, n),
        0 <= k < n,
    ensures
        determinant(lifted(m, k)) == alternating(k) * determinant(m),
    decreases k,
{
    if k == 0 {
        assert(lifted(m, 0) =~= m);
        assert(1 * determinant(m) == determinant(m));
    } else {
        let a = swapped(m, k - 1, k);
        lemma_adjacent_swap(m, n, k - 1);
        lemma_lifted(a, n, k - 1);
        assert(lifted(a, k - 1) =~= lifted(m, k));
        let d = determinant(m);
        assert(alternating(k - 1) * (-d) == alternating(k) * d) by (nonlinear_arith)
            requires
                alternating(k - 1) == -alternating(k),
        ;
    }
}

/// The sign of a sum is the product of the signs.
pub proof fn lemma_alternating_sum(a: int, b: int)
    ensures
        alternating(a + b) == alternating(a) * alternating(b),
{
    if a % 2 == 0 {
        if b % 2 == 0 {
            assert((a + b) % 2 == 0);
            assert(1 * 1 == 1int);
        } else {
            assert((a + b) % 2 != 0);
            assert(1 * (-1) == -1int);
        }
    } else {
        if b % 2 == 0 {
            assert((a + b) % 2 != 0);
            assert((-1) * 1 == -1int);
        } else {
            assert((a + b) % 2 == 0);
            assert((-1) * (-1) == 1int);
        }
    }
}

/// The first `j` terms of the expansion of the determinant along row `k`.
pub open spec fn row_terms(m: Seq<Seq<int>>, k: int, j: int) -> int
    decreases j,
{
    if j <= 0 {
        0
    } else {
        row_terms(m, k, j - 1) + alternating(k + j - 1) * m[k][j - 1] * determinant(
            minor(m, k, j - 1),
        )
    }
}

/// The terms of the expansion along row `k` are, with the sign of `k`, those
/// of the expansion along the first row once row `k` has moved to the top.
proof fn lemma_row_terms(m: Seq<Seq<int>>, n: int, k: int, j: int)
    requires
        square(m, n),
        0 <= k < n,
        0 <= j <= n,
    ensures
        row_terms(m, k, j) == alternating(k) * row_expansion(lifted(m, k), j),
    decreases j,
{
    if j > 0 {
        lemma_row_terms(m, n, k, j - 1);
        let c = j - 1;
        assert(minor(lifted(m, k), 0, c) =~~= minor(m, k, c));
        assert(lifted(m, k)[0][c] == m[k][c]);
        let d = determinant(minor(m, k, c));
        let x = m[k][c];
        let sk = alternating(k);
        let sc = alternating(c);
        lemma_alternating_sum(k, c);
        let e = row_expansion(lifted(m, k), j - 1);
        assert(sk * (e + sc * x * d) == sk * e + (sk * sc) * x * d) by (nonlinear_arith);
    } else {
        assert(alternating(k) * 0 == 0);
    }
}

/// The determinant is its expansion along any row.
pub proof fn lemma_expansion_along_row(m: Seq<Seq<int>>, n: int, k: int)
    requires
        square(m, n),
        0 <= k < n,
    ensures
        determinant(m) == row_terms(m, k, n),
{
    lemma_row_terms(m, n, k, n);
    assert(square(lifted(m, k), n));
    lemma_row_expansion(lifted(m, k), n);
    lemma_lifted(m, n, k);
    let d = determinant(m);
    let s = alternating(k);
    assert(s * (s * d) == d) by (nonlinear_arith)
        requires
            s == 1 || s == -1,
    ;
}

/// The determinant of the rows without row `r` and column `c`, with the sign
/// of `r + c`.
pub open spec fn cofactor(m: Seq<Seq<int>>, r: int, c: int) -> int {
    alternating(r + c) * determinant(minor(m, r, c))
}

/// The adjugate: the cofactors with rows and columns exchanged.
pub open spec fn adjugate(m: Seq<Seq<int>>) -> Seq<Seq<int>> {
    Seq::new(m.len(), |j: int| Seq::new(m.len(), |k: int| cofactor(m, k, j)))
}

/// The sum of the cells of row `i` times the cofactors of row `k` is the
/// expansion along row `k` of the rows with row `i` in place of row `k`.
proof fn lemma_adjugate_terms(m: Seq<Seq<int>>, n: int, i: int, k: int, j: int)
    requires
        square(m, n),
        0 <= i < n,
        0 <= k < n,
        0 <= j <= n,
    ensures
        dot(table_of(m), table_of(adjugate(m)), i, k, j) == row_terms(m.update(k, m[i]), k, j),
    decreases j,
{
    if j > 0 {
        lemma_adjugate_terms(m, n, i, k, j - 1);
        let c = j - 1;
        let other = m.update(k, m[i]);
        assert(minor(other, k, c) =~~= minor(m, k, c));
        assert(adjugate(m)[c][k] == cofactor(m, k, c));
        let s = alternating(k + c);
        let x = m[i][c];
        let d = determinant(minor(m, k, c));
        assert(x * (s * d) == s * x * d) by (nonlinear_arith);
    }
}

/// Rows times their adjugate are the determinant times the identity.
pub proof fn lemma_times_adjugate(m: Seq<Seq<int>>, n: int, i: int, k: int)
    requires
        square(m, n),
        0 <= i < n,
        0 <= k < n,
    ensures
        dot(table_of(m), table_of(adjugate(m)), i, k, n) == if i == k {
            determinant(m)
        } else {
            0
        },
{
    lemma_adjugate_terms(m, n, i, k, n);
    let other = m.update(k, m[i]);
    lemma_expansion_along_row(other, n, k);
    if i == k {
        assert(other =~= m);
    } else if i < k {
        lemma_equal_rows(other, n, i, k);
    } else {
        lemma_equal_rows(other, n, k, i);
    }
}

/// The table of one row that holds, for each column, the first `l` terms of
/// the product of row `r` of `b` with that column of `a`.
pub open spec fn partial_row(b: Table, a: Table, r: int, l: int, n: int) -> Table {
    Table { rows: 1, columns: n as nat, cells: seq![Seq::new(n as nat, |t: int| dot(b, a, r, t, l))] }
}

/// The first `l` terms of a cell of a product with a product.
proof fn lemma_associative_terms(
    b: Seq<Seq<int>>,
    a: Seq<Seq<int>>,
    c: Seq<Seq<int>>,
    n: int,
    r: int,
    col: int,
    l: int,
)
    requires
        square(b, n),
        square(a, n),
        square(c, n),
        0 <= r < n,
        0 <= col < n,
        0 <= l <= n,
    ensures
        dot(partial_row(table_of(b), table_of(a), r, l, n), table_of(c), 0, col, n) == dot(
            table_of(b),
            table_of(a).times(table_of(c)),
            r,
            col,
            l,
        ),
    decreases l,
{
    let tb = table_of(b);
    let ta = table_of(a);
    let tc = table_of(c);
    let now = partial_row(tb, ta, r, l, n);
    if l > 0 {
        let before = partial_row(tb, ta, r, l - 1, n);
        lemma_associative_terms(b, a, c, n, r, col, l - 1);
        let f = b[r][l - 1];
        assert forall|t: int| 0 <= t < n implies (#[trigger] now.cells[0][t]) == 1
            * before.cells[0][t] + f * ta.cells[l - 1][t] by {
            assert(now.cells[0][t] == dot(tb, ta, r, t, l));
            assert(before.cells[0][t] == dot(tb, ta, r, t, l - 1));
        }
        lemma_dot_combination(now, 0, before, 0, 1, ta, l - 1, f, tc, col, n);
        assert(ta.times(tc).cells[l - 1][col] == dot(ta, tc, l - 1, col, n));
    } else {
        assert forall|t: int| 0 <= t < n implies (#[trigger] now.cells[0][t]) == 0 * now.cells[0][t]
            + 0 * now.cells[0][t] by {
            assert(now.cells[0][t] == dot(tb, ta, r, t, 0));
        }
        lemma_dot_combination(now, 0, now, 0, 0, now, 0, 0, tc, col, n);
        assert(0 * dot(now, tc, 0, col, n) + 0 * dot(now, tc, 0, col, n) == 0);
    }
}

/// The product of square tables is associative, cell by cell.
pub proof fn lemma_associative(
    b: Seq<Seq<int>>,
    a: Seq<Seq<int>>,
    c: Seq<Seq<int>>,
    n: int,
    r: int,
    col: int,
)
    requires
        square(b, n),
        square(a, n),
        square(c, n),
        0 <= r < n,
        0 <= col < n,
    ensures
        dot(table_of(b).times(table_of(a)), table_of(c), r, col, n) == dot(
            table_of(b),
            table_of(a).times(table_of(c)),
            r,
            col,
            n,
        ),
{
    lemma_associative_terms(b, a, c, n, r, col, n);
    let whole = partial_row(table_of(b), table_of(a), r, n, n);
    let product = table_of(b).times(table_of(a));
    assert(product.cells[r] =~= whole.cells[0]);
    lemma_dot_row(product, r, whole, 0, table_of(c), col, n);
}

/// A sum of products is linear in the column that it runs along.
pub proof fn lemma_dot_scaled_right(a: Table, b: Table, scaled: Table, d: int, r: int, c: int, k: int)
    requires
        0 <= k,
        forall|t: int| 0 <= t < k ==> (#[trigger] scaled.cells[t])[c] == d * b.cells[t][c],
    ensures
        dot(a, scaled, r, c, k) == d * dot(a, b, r, c, k),
    decreases k,
{
    if k > 0 {
        lemma_dot_scaled_right(a, b, scaled, d, r, c, k - 1);
        let t = k - 1;
        let x = a.cells[r][t];
        let y = b.cells[t][c];
        assert(scaled.cells[t][c] == d * y);
        let e = dot(a, b, r, c, k - 1);
        assert(d * e + x * (d * y) == d * (e + x * y)) by (nonlinear_arith);
    } else {
        assert(d * 0 == 0);
    }
}

/// The product of rows with the identity is the rows.
pub proof fn lemma_dot_identity_right(m: Seq<Seq<int>>, n: int, r: int, c: int, k: int)
    requires
        square(m, n),
        0 <= r < n,
        0 <= c < n,
        0 <= k <= n,
    ensures
        dot(table_of(m), table_of(identity_rows(n)), r, c, k) == if c < k {
            m[r][c]
        } else {
            0
        },
    decreases k,
{
    if k > 0 {
        lemma_dot_identity_right(m, n, r, c, k - 1);
        let t = k - 1;
        assert(identity_rows(n)[t][c] == if t == c {
            1int
        } else {
            0int
        });
        assert(m[r][t] * 1 == m[r][t]);
        assert(m[r][t] * 0 == 0);
    }
}

/// Square rows whose determinant is not zero have their left inverse as
/// right inverse: where `b` times `a` is the identity, `a` times `b` is.
pub proof fn lemma_right_inverse(a: Seq<Seq<int>>, b: Seq<Seq<int>>, n: int)
    requires
        square(a, n),
        square(b, n),
        determinant(a) != 0,
        table_of(b).times(table_of(a)) == table_of(identity_rows(n)),
    ensures
        table_of(a).times(table_of(b)) == table_of(identity_rows(n)),
{
    let d = determinant(a);
    let adj = adjugate(a);
    let ta = table_of(a);
    let tb = table_of(b);
    let tadj = table_of(adj);
    let unit = table_of(identity_rows(n));
    assert(square(adj, n));
    assert forall|r: int, c: int| 0 <= r < n && 0 <= c < n implies #[trigger] adj[r][c] == d
        * b[r][c] by {
        lemma_associative(b, a, adj, n, r, c);
        crate::algebra::inversion::lemma_identity_dot(adj, n, r, c, n);
        let product = ta.times(tadj);
        assert forall|t: int| 0 <= t < n implies (#[trigger] product.cells[t])[c] == d
            * unit.cells[t][c] by {
            lemma_times_adjugate(a, n, t, c);
            assert(product.cells[t][c] == dot(ta, tadj, t, c, n));
            assert(d * 1 == d);
            assert(d * 0 == 0);
        }
        lemma_dot_scaled_right(tb, unit, product, d, r, c, n);
        lemma_dot_identity_right(b, n, r, c, n);
    }
    assert forall|r: int, c: int| 0 <= r < n && 0 <= c < n implies ta.times(tb).cells[r][c]
        == identity_rows(n)[r][c] by {
        lemma_times_adjugate(a, n, r, c);
        assert forall|t: int| 0 <= t < n implies (#[trigger] tadj.cells[t])[c] == d
            * tb.cells[t][c] by {
            assert(adj[t][c] == d * b[t][c]);
        }
        lemma_dot_scaled_right(ta, tb, tadj, d, r, c, n);
        let x = dot(ta, tb, r, c, n);
        assert(d * 1 == d);
        assert(d * 0 == 0);
        lemma_cancel(d, x, identity_rows(n)[r][c]);
    }
    assert(ta.times(tb).cells =~~= identity_rows(n));
}

} // verus!
