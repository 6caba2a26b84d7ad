//! What elimination computes, step by step: the determinant and the inverse
//! of square rows in an element type.

use vstd::prelude::*;
use crate::scalar::{quotient, Scalar};

verus! {

/// `v`, if it is a value of the element type.
pub open spec fn fit<T: Scalar>(v: int) -> Option<int> {
    if T::representable(v) {
        Some(v)
    } else {
        None
    }
}

/// Whether every row of `m` has `n` cells, and there are `n` rows.
pub open spec fn square(m: Seq<Seq<int>>, n: int) -> bool {
    &&& m.len() == n
    &&& forall|i: int| 0 <= i < n ==> (#[trigger] m[i]).len() == n
}

/// The first row from `from` on whose cell in column `col` is not zero, or the
/// number of rows where there is none.
pub open spec fn first_nonzero(m: Seq<Seq<int>>, col: int, from: int) -> int
    decreases m.len() - from,
{
    if from >= m.len() {
        m.len() as int
    } else if m[from][col] != 0 {
        from
    } else {
        first_nonzero(m, col, from + 1)
    }
}

/// `m` with the rows `a` and `b` exchanged.
pub open spec fn swapped(m: Seq<Seq<int>>, a: int, b: int) -> Seq<Seq<int>> {
    m.update(a, m[b]).update(b, m[a])
}

/// `v` times minus one, where minus one is formed as zero less one.
pub open spec fn negated<T: Scalar>(v: int) -> Option<int> {
    if T::representable(-1) {
        fit::<T>(-v)
    } else {
        None
    }
}

/// Whether `a * x[k] - b * y[k]` can be formed for every `k`.
pub open spec fn combination_fits<T: Scalar>(a: int, x: Seq<int>, b: int, y: Seq<int>) -> bool {
    forall|k: int|
        #![trigger x[k]]
        #![trigger y[k]]
        0 <= k < x.len() ==> T::representable(a * x[k]) && T::representable(b * y[k])
            && T::representable(a * x[k] - b * y[k])
}

/// The row of the values `a * x[k] - b * y[k]`.
pub open spec fn combination(a: int, x: Seq<int>, b: int, y: Seq<int>) -> Seq<int> {
    Seq::new(x.len(), |k: int| a * x[k] - b * y[k])
}

/// The state of an elimination: the working rows, the product of the pivots
/// that rows were scaled by, and the sign that the row exchanges leave.
pub struct Reduction {
    pub rows: Seq<Seq<int>>,
    pub total: int,
    pub sign: int,
}

/// Clears column `i` in the rows from `j` on with the pivot row `i`: each such
/// row becomes pivot times the row less its own cell in column `i` times the
/// pivot row, and `total` takes the pivot as a factor once for each row.
pub open spec fn cleared_below<T: Scalar>(s: Reduction, n: int, i: int, j: int) -> Option<
    Reduction,
>
    decreases n - j,
{
    if j >= n || j < 0 {
        Some(s)
    } else {
        let pivot = s.rows[i][i];
        let lead = s.rows[j][i];
        if combination_fits::<T>(pivot, s.rows[j], lead, s.rows[i]) && T::representable(
            s.total * pivot,
        ) {
            cleared_below::<T>(
                Reduction {
                    rows: s.rows.update(j, combination(pivot, s.rows[j], lead, s.rows[i])),
                    total: s.total * pivot,
                    sign: s.sign,
                },
                n,
                i,
                j + 1,
            )
        } else {
            None
        }
    }
}

/// One step of the elimination, for column `i`: the first row from `i` on
/// with a cell other than zero in that column comes to position `i`, which
/// turns the sign, and the column is cleared below it. Where the column holds
/// only zeros from row `i` on, nothing changes.
pub open spec fn step<T: Scalar>(s: Reduction, n: int, i: int) -> Option<Reduction> {
    let p = first_nonzero(s.rows, i, i);
    if p >= n {
        Some(s)
    } else if p == i {
        cleared_below::<T>(s, n, i, i + 1)
    } else {
        match negated::<T>(s.sign) {
            Some(sign) => cleared_below::<T>(
                Reduction { rows: swapped(s.rows, i, p), total: s.total, sign },
                n,
                i,
                i + 1,
            ),
            None => None,
        }
    }
}

/// The elimination from column `i` on.
pub open spec fn reduced_from<T: Scalar>(s: Reduction, n: int, i: int) -> Option<Reduction>
    decreases n - i,
{
    if i >= n {
        Some(s)
    } else {
        match step::<T>(s, n, i) {
            Some(next) => reduced_from::<T>(next, n, i + 1),
            None => None,
        }
    }
}

/// `acc` times the diagonal cells of `m` from position `i` on, one factor
/// after the other.
pub open spec fn diagonal_product<T: Scalar>(m: Seq<Seq<int>>, acc: int, i: int) -> Option<int>
    decreases m.len() - i,
{
    if i >= m.len() {
        Some(acc)
    } else if T::representable(acc * m[i][i]) {
        diagonal_product::<T>(m, acc * m[i][i], i + 1)
    } else {
        None
    }
}

/// The determinant as elimination computes it in the element type `T`, or
/// `None` where an intermediate result is not a value of `T`.
///
/// The rows are reduced to a triangle column by column. The result is the
/// sign times the product of the diagonal, divided by the product of the
/// pivots that rows were scaled by (by one, where that product is zero).
pub open spec fn eliminated_determinant<T: Scalar>(m: Seq<Seq<int>>) -> Option<int> {
    match reduced_from::<T>(Reduction { rows: m, total: 1, sign: 1 }, m.len() as int, 0) {
        Some(s) => match diagonal_product::<T>(s.rows, s.sign, 0) {
            Some(d) => {
                let divisor = if s.total == 0 {
                    1
                } else {
                    s.total
                };
                fit::<T>(quotient(d, divisor))
            },
            None => None,
        },
        None => None,
    }
}

/// The size of `v`: `v` itself, or `v` times minus one where it is negative.
pub open spec fn magnitude<T: Scalar>(v: int) -> Option<int> {
    if v < 0 {
        negated::<T>(v)
    } else {
        Some(v)
    }
}

/// The row among `best` and the rows from `j` on whose cell in column `i` is
/// largest in size, the earliest of them where several are.
pub open spec fn pivot_choice<T: Scalar>(m: Seq<Seq<int>>, n: int, i: int, j: int, best: int)
    -> Option<int>
    decreases n - j,
{
    if j >= n || j < 0 {
        Some(best)
    } else {
        match (magnitude::<T>(m[j][i]), magnitude::<T>(m[best][i])) {
            (Some(candidate), Some(held)) => pivot_choice::<T>(
                m,
                n,
                i,
                j + 1,
                if candidate > held {
                    j
                } else {
                    best
                },
            ),
            _ => None,
        }
    }
}

/// Whether `x[k] / d` can be formed for every `k` from `from` on.
pub open spec fn division_fits<T: Scalar>(x: Seq<int>, d: int, from: int) -> bool {
    &&& from < x.len() ==> d != 0
    &&& forall|k: int| from <= k < x.len() ==> T::representable(quotient(#[trigger] x[k], d))
}

/// The row `x` with the cells from `from` on divided by `d`.
pub open spec fn divided(x: Seq<int>, d: int, from: int) -> Seq<int> {
    Seq::new(
        x.len(),
        |k: int|
            if k >= from {
                quotient(x[k], d)
            } else {
                x[k]
            },
    )
}

/// Whether `x[k] - f * p[k]` can be formed for every `k` from `from` on.
pub open spec fn reduction_fits<T: Scalar>(x: Seq<int>, f: int, p: Seq<int>, from: int) -> bool {
    forall|k: int|
        #![trigger x[k]]
        #![trigger p[k]]
        from <= k < x.len() ==> T::representable(f * p[k]) && T::representable(x[k] - f * p[k])
}

/// The row `x` less `f` times the row `p`, in the cells from `from` on.
pub open spec fn reduced(x: Seq<int>, f: int, p: Seq<int>, from: int) -> Seq<int> {
    Seq::new(
        x.len(),
        |k: int|
            if k >= from {
                x[k] - f * p[k]
            } else {
                x[k]
            },
    )
}

/// The state of an inversion: the working rows, and the rows that start as
/// the identity and end as the inverse.
pub struct Augmented {
    pub left: Seq<Seq<int>>,
    pub right: Seq<Seq<int>>,
}

/// Clears column `i` in every row from `j` on but row `i`: each such row
/// loses its own cell in column `i` times row `i`, on both sides.
pub open spec fn cleared_around<T: Scalar>(s: Augmented, n: int, i: int, j: int) -> Option<
    Augmented,
>
    decreases n - j,
{
    if j >= n || j < 0 {
        Some(s)
    } else if j == i {
        cleared_around::<T>(s, n, i, j + 1)
    } else {
        let f = s.left[j][i];
        if reduction_fits::<T>(s.left[j], f, s.left[i], i) && reduction_fits::<T>(
            s.right[j],
            f,
            s.right[i],
            0,
        ) {
            cleared_around::<T>(
                Augmented {
                    left: s.left.update(j, reduced(s.left[j], f, s.left[i], i)),
                    right: s.right.update(j, reduced(s.right[j], f, s.right[i], 0)),
                },
                n,
                i,
                j + 1,
            )
        } else {
            None
        }
    }
}

/// One step of the inversion, for column `i`: the row from `i` on with the
/// largest cell in that column comes to position `i` on both sides, is divided
/// by that cell, and clears the column in all other rows.
pub open spec fn pivoted<T: Scalar>(s: Augmented, n: int, i: int) -> Option<Augmented> {
    match pivot_choice::<T>(s.left, n, i, i + 1, i) {
        Some(p) => {
            let left = swapped(s.left, i, p);
            let right = swapped(s.right, i, p);
            let pivot = left[i][i];
            if division_fits::<T>(left[i], pivot, i) && division_fits::<T>(right[i], pivot, 0) {
                cleared_around::<T>(
                    Augmented {
                        left: left.update(i, divided(left[i], pivot, i)),
                        right: right.update(i, divided(right[i], pivot, 0)),
                    },
                    n,
                    i,
                    0,
                )
            } else {
                None
            }
        },
        None => None,
    }
}

/// The inversion from column `i` on.
pub open spec fn inverted_from<T: Scalar>(s: Augmented, n: int, i: int) -> Option<Augmented>
    decreases n - i,
{
    if i >= n {
        Some(s)
    } else {
        match pivoted::<T>(s, n, i) {
            Some(next) => inverted_from::<T>(next, n, i + 1),
            None => None,
        }
    }
}

/// The rows of the identity of size `n`.
pub open spec fn identity_rows(n: int) -> Seq<Seq<int>> {
    Seq::new(
        n as nat,
        |i: int|
            Seq::new(
                n as nat,
                |j: int|
                    if i == j {
                        1int
                    } else {
                        0int
                    },
            ),
    )
}

/// The inverse as elimination computes it in the element type `T`, or `None`
/// where an intermediate result is not a value of `T` or a pivot is zero.
///
/// The rows are reduced to the identity column by column, with the row of
/// the largest cell as pivot, and every operation on them is repeated on rows
/// that start as the identity. Divisions round towards zero.
pub open spec fn eliminated_inverse<T: Scalar>(m: Seq<Seq<int>>) -> Option<Seq<Seq<int>>> {
    match inverted_from::<T>(
        Augmented { left: m, right: identity_rows(m.len() as int) },
        m.len() as int,
        0,
    ) {
        Some(s) => Some(s.right),
        None => None,
    }
}

} // verus!
