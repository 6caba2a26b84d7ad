//! The determinant by expansion along the first column, and how it changes
//! with the rows.

use vstd::prelude::*;
use crate::elimination::{combination, square, swapped};

verus! {

/// The position in the whole of position `i` in what is left without
/// position `r`.
pub open spec fn skip(i: int, r: int) -> int {
    if i < r {
        i
    } else {
        i + 1
    }
}

/// The row without its cell in column `c`.
pub open spec fn without(row: Seq<int>, c: int) -> Seq<int> {
    Seq::new((row.len() - 1) as nat, |j: int| row[skip(j, c)])
}

/// The rows without row `r` and without column `c`.
pub open spec fn minor(m: Seq<Seq<int>>, r: int, c: int) -> Seq<Seq<int>> {
    Seq::new((m.len() - 1) as nat, |i: int| without(m[skip(i, r)], c))
}

/// One for an even `k`, minus one for an odd one.
pub open spec fn alternating(k: int) -> int {
    if k % 2 == 0 {
        1
    } else {
        -1
    }
}

/// The first `k` terms of the expansion of the determinant along the first
/// column: for each row, in turn with the signs plus and minus, its first
/// cell times the determinant of the rows without that row and the first
/// column.
pub open spec fn expansion(m: Seq<Seq<int>>, k: int) -> int
    decreases m.len(), k,
{
    if k <= 0 || k > m.len() {
        0
    } else {
        expansion(m, k - 1) + alternating(k - 1) * m[k - 1][0] * determinant(minor(m, k - 1, 0))
    }
}

/// The determinant of square rows: one for no rows, else the expansion along
/// the first column.
pub open spec fn determinant(m: Seq<Seq<int>>) -> int
    decreases m.len(), m.len() + 1,
{
    if m.len() == 0 {
        1
    } else {
        expansion(m, m.len() as int)
    }
}

/// A minor of square rows is square.
pub proof fn lemma_minor_square(m: Seq<Seq<int>>, n: int, r: int, c: int)
    requires
        square(m, n),
        0 <= r < n,
        0 <= c < n,
    ensures
        square(minor(m, r, c), n - 1),
{
}

/// The term of row `i` in the expansion along the first column.
pub open spec fn term(m: Seq<Seq<int>>, i: int) -> int {
    alternating(i) * m[i][0] * determinant(minor(m, i, 0))
}

/// A product with a difference of two scaled numbers in the middle.
pub proof fn lemma_scaled_difference(s: int, a: int, x: int, b: int, y: int, d: int)
    ensures
        s * (a * x - b * y) * d == a * (s * x * d) - b * (s * y * d),
{
    let u = s * x;
    let v = s * y;
    assert(s * (a * x - b * y) == a * u - b * v) by (nonlinear_arith)
        requires
            u == s * x,
            v == s * y,
    ;
    assert((a * u - b * v) * d == a * (u * d) - b * (v * d)) by (nonlinear_arith);
}

/// A product with a difference of two scaled numbers at the end.
pub proof fn lemma_scaled_difference_last(s: int, x: int, a: int, d: int, b: int, e: int)
    ensures
        s * x * (a * d - b * e) == a * (s * x * d) - b * (s * x * e),
{
    let u = s * x;
    assert(u * (a * d - b * e) == a * (u * d) - b * (u * e)) by (nonlinear_arith);
}

/// The determinant is linear in each row: with row `r` replaced by `a` times
/// itself less `b` times a row `y`, it is `a` times the determinant less `b`
/// times the determinant with `y` as row `r`.
pub proof fn lemma_row_combination(m: Seq<Seq<int>>, n: int, r: int, a: int, b: int, y: Seq<int>)
    requires
        square(m, n),
        0 <= r < n,
        y.len() == n,
    ensures
        determinant(m.update(r, combination(a, m[r], b, y))) == a * determinant(m) - b
            * determinant(m.update(r, y)),
    decreases n, n + 1,
{
    lemma_expansion_combination(m, n, r, a, b, y, n);
}

/// The first `k` terms of the expansion are linear in each row.
proof fn lemma_expansion_combination(
    m: Seq<Seq<int>>,
    n: int,
    r: int,
    a: int,
    b: int,
    y: Seq<int>,
    k: int,
)
    requires
        square(m, n),
        0 <= r < n,
        y.len() == n,
        0 <= k <= n,
    ensures
        expansion(m.update(r, combination(a, m[r], b, y)), k) == a * expansion(m, k) - b
            * expansion(m.update(r, y), k),
    decreases n, k,
{
    let m1 = m.update(r, combination(a, m[r], b, y));
    let m2 = m.update(r, y);
    if k > 0 {
        let i = k - 1;
        lemma_expansion_combination(m, n, r, a, b, y, k - 1);
        let s = alternating(i);
        let d = determinant(minor(m, i, 0));
        let d1 = determinant(minor(m1, i, 0));
        let d2 = determinant(minor(m2, i, 0));
        if i == r {
            assert(minor(m1, i, 0) =~~= minor(m, i, 0));
            assert(minor(m2, i, 0) =~~= minor(m, i, 0));
            let x = m[r][0];
            let y0 = y[0];
            assert(m1[i][0] == a * x - b * y0);
            lemma_scaled_difference(s, a, x, b, y0, d);
        } else {
            let q = if r < i {
                r
            } else {
                r - 1
            };
            let sub = minor(m, i, 0);
            lemma_minor_square(m, n, i, 0);
            assert(skip(q, i) == r);
            assert(minor(m1, i, 0) =~~= sub.update(
                q,
                combination(a, sub[q], b, without(y, 0)),
            ));
            assert(minor(m2, i, 0) =~~= sub.update(q, without(y, 0)));
            lemma_row_combination(sub, n - 1, q, a, b, without(y, 0));
            let x = m[i][0];
            assert(m1[i][0] == x);
            assert(m2[i][0] == x);
            assert(d1 == a * d - b * d2);
            lemma_scaled_difference_last(s, x, a, d, b, d2);
        }
        let e = expansion(m, k - 1);
        let e2 = expansion(m2, k - 1);
        let t = s * m[i][0] * d;
        let t2 = s * m2[i][0] * d2;
        assert(a * (e + t) - b * (e2 + t2) == (a * e - b * e2) + (a * t - b * t2))
            by (nonlinear_arith);
    }
}

/// With two equal rows next to each other, the determinant is zero.
pub proof fn lemma_adjacent_equal_rows(m: Seq<Seq<int>>, n: int, r: int)
    requires
        square(m, n),
        0 <= r,
        r + 1 < n,
        m[r] == m[r + 1],
    ensures
        determinant(m) == 0,
    decreases n, n + 1,
{
    lemma_expansion_adjacent(m, n, r, n);
}

/// With the rows `r` and `r + 1` equal, the terms of the expansion add up to
/// zero, but for the term of row `r` while that of row `r + 1` is missing.
proof fn lemma_expansion_adjacent(m: Seq<Seq<int>>, n: int, r: int, k: int)
    requires
        square(m, n),
        0 <= r,
        r + 1 < n,
        m[r] == m[r + 1],
        0 <= k <= n,
    ensures
        expansion(m, k) == if k == r + 1 {
            term(m, r)
        } else {
            0
        },
    decreases n, k,
{
    if k > 0 {
        let i = k - 1;
        lemma_expansion_adjacent(m, n, r, k - 1);
        if i == r {
        } else if i == r + 1 {
            assert(minor(m, r + 1, 0) =~~= minor(m, r, 0));
            let s = alternating(r);
            let x = m[r][0];
            let d = determinant(minor(m, r, 0));
            assert(alternating(r + 1) == -s);
            assert(s * x * d + (-s) * x * d == 0) by (nonlinear_arith);
        } else {
            let q = if r < i {
                r
            } else {
                r - 1
            };
            let sub = minor(m, i, 0);
            lemma_minor_square(m, n, i, 0);
            assert(sub[q] =~= sub[q + 1]);
            lemma_adjacent_equal_rows(sub, n - 1, q);
            assert(alternating(i) * m[i][0] * 0 == 0);
        }
    }
}

/// Exchanging two rows next to each other turns the sign of the
/// determinant.
pub proof fn lemma_adjacent_swap(m: Seq<Seq<int>>, n: int, r: int)
    requires
        square(m, n),
        0 <= r,
        r + 1 < n,
    ensures
        determinant(swapped(m, r, r + 1)) == -determinant(m),
{
    let x = m[r];
    let y = m[r + 1];
    let z = combination(1, x, -1, y);
    let xx = m.update(r + 1, x);
    let yx = m.update(r, y).update(r + 1, x);
    let yy = m.update(r, y);
    let xz = m.update(r + 1, z);
    let yz = m.update(r, y).update(r + 1, z);
    let zz = m.update(r, z).update(r + 1, z);
    assert(m.update(r, x) =~= m);
    assert(m.update(r + 1, y) =~= m);
    lemma_adjacent_equal_rows(zz, n, r);
    lemma_adjacent_equal_rows(xx, n, r);
    lemma_adjacent_equal_rows(yy, n, r);
    // Row r + 1 of (x, x) and of (y, x) becomes z.
    lemma_row_combination(xx, n, r + 1, 1, -1, y);
    assert(xx.update(r + 1, z) =~= xz);
    assert(xx.update(r + 1, y) =~= m);
    lemma_row_combination(yx, n, r + 1, 1, -1, y);
    assert(yx.update(r + 1, z) =~= yz);
    assert(yx.update(r + 1, y) =~= yy);
    // Row r of (x, z) becomes z.
    lemma_row_combination(xz, n, r, 1, -1, y);
    assert(xz.update(r, z) =~= zz);
    assert(xz.update(r, y) =~= yz);
    assert(swapped(m, r, r + 1) =~= yx);
}

/// Exchanging two rows turns the sign of the determinant.
pub proof fn lemma_swap(m: Seq<Seq<int>>, n: int, i: int, p: int)
    requires
        square(m, n),
        0 <= i < p < n,
    ensures
        determinant(swapped(m, i, p)) == -determinant(m),
    decreases p - i,
{
    if p == i + 1 {
        lemma_adjacent_swap(m, n, i);
    } else {
        let m1 = swapped(m, p - 1, p);
        lemma_adjacent_swap(m, n, p - 1);
        let m2 = swapped(m1, i, p - 1);
        lemma_swap(m1, n, i, p - 1);
        let m3 = swapped(m2, p - 1, p);
        lemma_adjacent_swap(m2, n, p - 1);
        assert(m3 =~= swapped(m, i, p));
    }
}

/// With two equal rows, the determinant is zero.
pub proof fn lemma_equal_rows(m: Seq<Seq<int>>, n: int, i: int, p: int)
    requires
        square(m, n),
        0 <= i < p < n,
        m[i] == m[p],
    ensures
        determinant(m) == 0,
{
    if p == i + 1 {
        lemma_adjacent_equal_rows(m, n, i);
    } else {
        let m1 = swapped(m, i + 1, p);
        lemma_swap(m, n, i + 1, p);
        lemma_adjacent_equal_rows(m1, n, i);
    }
}

/// Replacing a row by `a` times itself less `b` times another row
/// multiplies the determinant by `a`.
pub proof fn lemma_row_operation(m: Seq<Seq<int>>, n: int, j: int, a: int, b: int, i: int)
    requires
        square(m, n),
        0 <= i < n,
        0 <= j < n,
        i != j,
    ensures
        determinant(m.update(j, combination(a, m[j], b, m[i]))) == a * determinant(m),
{
    lemma_row_combination(m, n, j, a, b, m[i]);
    let same = m.update(j, m[i]);
    if i < j {
        lemma_equal_rows(same, n, i, j);
    } else {
        lemma_equal_rows(same, n, j, i);
    }
    assert(b * 0 == 0);
}

} // verus!
