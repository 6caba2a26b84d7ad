//! The inverse that elimination finds, times the rows, is the identity where
//! its divisions leave no remainder.

use vstd::prelude::*;
use crate::scalar::{quotient, Scalar};
use crate::model::{dot, Table};
use crate::elimination::{
    cleared_around, divided, division_fits, identity_rows, inverted_from, pivot_choice, pivoted,
    reduced, square, swapped, Augmented,
};

verus! {

/// Whether `x[k] / d` leaves no remainder for every `k` from `from` on.
pub open spec fn division_exact(x: Seq<int>, d: int, from: int) -> bool {
    forall|k: int| from <= k < x.len() ==> quotient(#[trigger] x[k], d) * d == x[k]
}

/// Whether the divisions of the step of the inversion for column `i` leave
/// no remainder.
pub open spec fn exactly_pivoted<T: Scalar>(s: Augmented, n: int, i: int) -> bool {
    match pivot_choice::<T>(s.left, n, i, i + 1, i) {
        Some(p) => {
            let left = swapped(s.left, i, p);
            let right = swapped(s.right, i, p);
            division_exact(left[i], left[i][i], i) && division_exact(right[i], left[i][i], 0)
        },
        None => true,
    }
}

/// Whether the divisions of the inversion from column `i` on leave no
/// remainder.
pub open spec fn exact_from<T: Scalar>(s: Augmented, n: int, i: int) -> bool
    decreases n - i,
{
    if i >= n {
        true
    } else {
        exactly_pivoted::<T>(s, n, i) && match pivoted::<T>(s, n, i) {
            Some(next) => exact_from::<T>(next, n, i + 1),
            None => true,
        }
    }
}

/// The square table of the given rows.
pub open spec fn table_of(cells: Seq<Seq<int>>) -> Table {
    Table { rows: cells.len(), columns: cells.len(), cells }
}

/// A sum of products is linear in the row that it runs along: where each
/// cell of a row is `x` times a cell of a second row plus `y` times a cell of
/// a third, the sum is `x` times the second sum plus `y` times the third.
pub proof fn lemma_dot_combination(
    a: Table,
    r: int,
    a1: Table,
    r1: int,
    x: int,
    a2: Table,
    r2: int,
    y: int,
    b: Table,
    c: int,
    k: int,
)
    requires
        0 <= k,
        forall|t: int|
            0 <= t < k ==> (#[trigger] a.cells[r][t]) == x * a1.cells[r1][t] + y * a2.cells[r2][t],
    ensures
        dot(a, b, r, c, k) == x * dot(a1, b, r1, c, k) + y * dot(a2, b, r2, c, k),
    decreases k,
{
    if k > 0 {
        lemma_dot_combination(a, r, a1, r1, x, a2, r2, y, b, c, k - 1);
        let t = k - 1;
        let u = a1.cells[r1][t];
        let v = a2.cells[r2][t];
        let w = b.cells[t][c];
        assert(a.cells[r][t] == x * u + y * v);
        let xu = x * u;
        let yv = y * v;
        assert((xu + yv) * w == xu * w + yv * w) by (nonlinear_arith);
        assert(xu * w == x * (u * w)) by (nonlinear_arith)
            requires
                xu == x * u,
        ;
        assert(yv * w == y * (v * w)) by (nonlinear_arith)
            requires
                yv == y * v,
        ;
        let d1 = dot(a1, b, r1, c, k - 1);
        let d2 = dot(a2, b, r2, c, k - 1);
        assert(x * (d1 + u * w) + y * (d2 + v * w) == (x * d1 + y * d2) + (x * (u * w) + y * (v
            * w))) by (nonlinear_arith);
    } else {
        assert(x * 0 + y * 0 == 0);
    }
}

/// The product of the identity with rows is the rows.
pub proof fn lemma_identity_dot(m: Seq<Seq<int>>, n: int, r: int, c: int, k: int)
    requires
        square(m, n),
        0 <= r < n,
        0 <= c < n,
        0 <= k <= n,
    ensures
        dot(table_of(identity_rows(n)), table_of(m), r, c, k) == if r < k {
            m[r][c]
        } else {
            0
        },
    decreases k,
{
    if k > 0 {
        lemma_identity_dot(m, n, r, c, k - 1);
        let t = k - 1;
        assert(identity_rows(n)[r][t] == if r == t {
            1int
        } else {
            0int
        });
        assert(1 * m[t][c] == m[t][c]);
        assert(0 * m[t][c] == 0);
    }
}

/// The row that is chosen as pivot for column `i` lies from `i` on.
pub proof fn lemma_pivot_choice<T: Scalar>(m: Seq<Seq<int>>, n: int, i: int, j: int, best: int)
    requires
        0 <= i <= best < n,
        i < j,
        pivot_choice::<T>(m, n, i, j, best).is_some(),
    ensures
        i <= pivot_choice::<T>(m, n, i, j, best).unwrap() < n,
    decreases n - j,
{
    if j < n {
        let candidate = crate::elimination::magnitude::<T>(m[j][i]).unwrap();
        let held = crate::elimination::magnitude::<T>(m[best][i]).unwrap();
        lemma_pivot_choice::<T>(
            m,
            n,
            i,
            j + 1,
            if candidate > held {
                j
            } else {
                best
            },
        );
    }
}

/// A sum of products along a row depends on that row only.
pub proof fn lemma_dot_row(a: Table, r: int, a1: Table, r1: int, b: Table, c: int, k: int)
    requires
        0 <= k,
        a.cells[r] == a1.cells[r1],
    ensures
        dot(a, b, r, c, k) == dot(a1, b, r1, c, k),
{
    lemma_dot_combination(a, r, a1, r1, 1, a1, r1, 0, b, c, k);
    assert(1 * dot(a1, b, r1, c, k) + 0 * dot(a1, b, r1, c, k) == dot(a1, b, r1, c, k));
}

/// Whether the right side times the rows `m0` is the left side.
pub open spec fn product_holds(s: Augmented, m0: Seq<Seq<int>>, n: int) -> bool {
    forall|r: int, c: int|
        0 <= r < n && 0 <= c < n ==> dot(table_of(s.right), table_of(m0), r, c, n)
            == #[trigger] s.left[r][c]
}

/// Whether the columns before `upto` are those of the identity.
pub open spec fn unit_columns(left: Seq<Seq<int>>, n: int, upto: int) -> bool {
    forall|r: int, c: int|
        0 <= r < n && 0 <= c < upto ==> #[trigger] left[r][c] == if r == c {
            1int
        } else {
            0int
        }
}

/// What holds of the state of an inversion of the rows `m0` before column
/// `i`: the right side times `m0` is the left side, whose columns before `i`
/// are those of the identity.
pub open spec fn holds(s: Augmented, m0: Seq<Seq<int>>, n: int, i: int) -> bool {
    &&& square(s.left, n)
    &&& square(s.right, n)
    &&& square(m0, n)
    &&& product_holds(s, m0, n)
    &&& unit_columns(s.left, n, i)
}

/// Exchanging two rows from `i` on, on both sides, keeps what holds of the
/// state.
proof fn lemma_holds_swapped(s: Augmented, m0: Seq<Seq<int>>, n: int, i: int, p: int)
    requires
        holds(s, m0, n, i),
        0 <= i <= p < n,
    ensures
        holds(Augmented { left: swapped(s.left, i, p), right: swapped(s.right, i, p) }, m0, n, i),
{
    let next = Augmented { left: swapped(s.left, i, p), right: swapped(s.right, i, p) };
    assert forall|r: int, c: int| 0 <= r < n && 0 <= c < n implies dot(
        table_of(next.right),
        table_of(m0),
        r,
        c,
        n,
    ) == #[trigger] next.left[r][c] by {
        let from = if r == i {
            p
        } else if r == p {
            i
        } else {
            r
        };
        assert(next.right[r] == s.right[from]);
        assert(next.left[r] == s.left[from]);
        lemma_dot_row(table_of(next.right), r, table_of(s.right), from, table_of(m0), c, n);
        assert(s.left[from][c] == dot(table_of(s.right), table_of(m0), from, c, n));
    }
    assert forall|r: int, c: int| 0 <= r < n && 0 <= c < i implies #[trigger] next.left[r][c]
        == if r == c {
        1int
    } else {
        0int
    } by {
        assert(s.left[i][c] == 0);
        assert(s.left[p][c] == 0);
        assert(s.left[r][c] == if r == c {
            1int
        } else {
            0int
        });
    }
}

/// A factor other than zero can be taken off both sides of an equation.
pub proof fn lemma_cancel(p: int, a: int, b: int)
    requires
        p != 0,
        p * a == p * b,
    ensures
        a == b,
{
    assert(p * (a - b) == p * a - p * b) by (nonlinear_arith);
    assert(a - b == 0) by (nonlinear_arith)
        requires
            p != 0,
            p * (a - b) == 0,
    ;
}

/// Dividing row `i` by its cell in column `i`, on both sides and without
/// remainder, keeps what holds of the state and leaves one in that cell.
proof fn lemma_holds_divided(s: Augmented, m0: Seq<Seq<int>>, n: int, i: int)
    requires
        holds(s, m0, n, i),
        0 <= i < n,
        s.left[i][i] != 0,
        division_exact(s.left[i], s.left[i][i], i),
        division_exact(s.right[i], s.left[i][i], 0),
    ensures
        holds(
            Augmented {
                left: s.left.update(i, divided(s.left[i], s.left[i][i], i)),
                right: s.right.update(i, divided(s.right[i], s.left[i][i], 0)),
            },
            m0,
            n,
            i,
        ),
        divided(s.left[i], s.left[i][i], i)[i] == 1,
{
    let pivot = s.left[i][i];
    let next = Augmented {
        left: s.left.update(i, divided(s.left[i], pivot, i)),
        right: s.right.update(i, divided(s.right[i], pivot, 0)),
    };
    assert forall|r: int, c: int| 0 <= r < n && 0 <= c < n implies dot(
        table_of(next.right),
        table_of(m0),
        r,
        c,
        n,
    ) == #[trigger] next.left[r][c] by {
        assert(s.left[r][c] == dot(table_of(s.right), table_of(m0), r, c, n));
        if r == i {
            assert forall|t: int| 0 <= t < n implies (#[trigger] table_of(s.right).cells[i][t])
                == pivot * table_of(next.right).cells[i][t] + 0 * table_of(next.right).cells[i][t] by {
                let x = s.right[i][t];
                assert(quotient(x, pivot) * pivot == x);
                assert(next.right[i][t] == quotient(x, pivot));
                assert(quotient(x, pivot) * pivot == pivot * quotient(x, pivot))
                    by (nonlinear_arith);
            }
            lemma_dot_combination(
                table_of(s.right),
                i,
                table_of(next.right),
                i,
                pivot,
                table_of(next.right),
                i,
                0,
                table_of(m0),
                c,
                n,
            );
            let d2 = dot(table_of(next.right), table_of(m0), i, c, n);
            assert(s.left[i][c] == pivot * d2 + 0 * d2);
            if c >= i {
                let x = s.left[i][c];
                assert(quotient(x, pivot) * pivot == x);
                assert(next.left[i][c] == quotient(x, pivot));
                assert(quotient(x, pivot) * pivot == pivot * quotient(x, pivot))
                    by (nonlinear_arith);
                lemma_cancel(pivot, d2, next.left[i][c]);
            } else {
                assert(s.left[i][c] == 0);
                assert(next.left[i][c] == 0);
                assert(pivot * 0 == 0);
                lemma_cancel(pivot, d2, 0);
            }
        } else {
            lemma_dot_row(table_of(next.right), r, table_of(s.right), r, table_of(m0), c, n);
        }
    }
    assert forall|r: int, c: int| 0 <= r < n && 0 <= c < i implies #[trigger] next.left[r][c]
        == if r == c {
        1int
    } else {
        0int
    } by {
        assert(s.left[r][c] == if r == c {
            1int
        } else {
            0int
        });
    }
    let q = quotient(pivot, pivot);
    assert(q * pivot == pivot);
    assert(pivot * q == pivot * 1) by (nonlinear_arith)
        requires
            q * pivot == pivot,
    ;
    lemma_cancel(pivot, q, 1);
}

/// Clearing column `i` in the rows from `j` on but row `i` finishes the
/// step for that column.
proof fn lemma_holds_cleared<T: Scalar>(s: Augmented, m0: Seq<Seq<int>>, n: int, i: int, j: int)
    requires
        holds(s, m0, n, i),
        0 <= i < n,
        0 <= j <= n,
        s.left[i][i] == 1,
        forall|r: int| 0 <= r < j && r != i ==> (#[trigger] s.left[r])[i] == 0,
        cleared_around::<T>(s, n, i, j).is_some(),
    ensures
        holds(cleared_around::<T>(s, n, i, j).unwrap(), m0, n, i + 1),
    decreases n - j,
{
    if j >= n {
        assert forall|r: int, c: int| 0 <= r < n && 0 <= c < i + 1 implies #[trigger] s.left[r][c]
            == if r == c {
            1int
        } else {
            0int
        } by {
            if c == i && r != i {
                assert(s.left[r][i] == 0);
            }
        }
    } else if j == i {
        lemma_holds_cleared::<T>(s, m0, n, i, j + 1);
    } else {
        let f = s.left[j][i];
        let next = Augmented {
            left: s.left.update(j, reduced(s.left[j], f, s.left[i], i)),
            right: s.right.update(j, reduced(s.right[j], f, s.right[i], 0)),
        };
        assert forall|r: int, c: int| 0 <= r < n && 0 <= c < n implies dot(
            table_of(next.right),
            table_of(m0),
            r,
            c,
            n,
        ) == #[trigger] next.left[r][c] by {
            assert(s.left[r][c] == dot(table_of(s.right), table_of(m0), r, c, n));
            if r == j {
                assert forall|t: int| 0 <= t < n implies (#[trigger] table_of(
                    next.right,
                ).cells[j][t]) == 1 * table_of(s.right).cells[j][t] + (-f) * table_of(
                    s.right,
                ).cells[i][t] by {
                    assert(next.right[j][t] == s.right[j][t] - f * s.right[i][t]);
                    assert((-f) * s.right[i][t] == -(f * s.right[i][t])) by (nonlinear_arith);
                }
                lemma_dot_combination(
                    table_of(next.right),
                    j,
                    table_of(s.right),
                    j,
                    1,
                    table_of(s.right),
                    i,
                    -f,
                    table_of(m0),
                    c,
                    n,
                );
                let dj = dot(table_of(s.right), table_of(m0), j, c, n);
                let di = dot(table_of(s.right), table_of(m0), i, c, n);
                assert(di == s.left[i][c]);
                assert((-f) * di == -(f * di)) by (nonlinear_arith);
                if c < i {
                    assert(s.left[i][c] == 0);
                    assert(f * 0 == 0);
                }
            } else {
                lemma_dot_row(table_of(next.right), r, table_of(s.right), r, table_of(m0), c, n);
            }
        }
        assert forall|r: int, c: int| 0 <= r < n && 0 <= c < i implies #[trigger] next.left[r][c]
            == if r == c {
            1int
        } else {
            0int
        } by {
            assert(s.left[r][c] == if r == c {
                1int
            } else {
                0int
            });
        }
        assert(next.left[j][i] == f - f * 1);
        assert forall|r: int| 0 <= r < j + 1 && r != i implies (#[trigger] next.left[r])[i]
            == 0 by {
            if r < j {
                assert(s.left[r][i] == 0);
            }
        }
        lemma_holds_cleared::<T>(next, m0, n, i, j + 1);
    }
}

/// A step of the inversion whose divisions leave no remainder keeps what
/// holds of the state.
proof fn lemma_holds_pivoted<T: Scalar>(s: Augmented, m0: Seq<Seq<int>>, n: int, i: int)
    requires
        holds(s, m0, n, i),
        0 <= i < n,
        pivoted::<T>(s, n, i).is_some(),
        exactly_pivoted::<T>(s, n, i),
    ensures
        holds(pivoted::<T>(s, n, i).unwrap(), m0, n, i + 1),
{
    lemma_pivot_choice::<T>(s.left, n, i, i + 1, i);
    let p = pivot_choice::<T>(s.left, n, i, i + 1, i).unwrap();
    let a = Augmented { left: swapped(s.left, i, p), right: swapped(s.right, i, p) };
    lemma_holds_swapped(s, m0, n, i, p);
    let pivot = a.left[i][i];
    assert(division_fits::<T>(a.left[i], pivot, i));
    assert(pivot != 0);
    lemma_holds_divided(a, m0, n, i);
    let b = Augmented {
        left: a.left.update(i, divided(a.left[i], pivot, i)),
        right: a.right.update(i, divided(a.right[i], pivot, 0)),
    };
    lemma_holds_cleared::<T>(b, m0, n, i, 0);
}

/// An inversion whose divisions leave no remainder keeps what holds of the
/// state.
proof fn lemma_holds_inverted<T: Scalar>(s: Augmented, m0: Seq<Seq<int>>, n: int, i: int)
    requires
        holds(s, m0, n, i),
        0 <= i <= n,
        inverted_from::<T>(s, n, i).is_some(),
        exact_from::<T>(s, n, i),
    ensures
        holds(inverted_from::<T>(s, n, i).unwrap(), m0, n, n),
    decreases n - i,
{
    if i < n {
        lemma_holds_pivoted::<T>(s, m0, n, i);
        lemma_holds_inverted::<T>(pivoted::<T>(s, n, i).unwrap(), m0, n, i + 1);
    }
}

/// Whether the divisions of the inversion of the square rows `m` in the
/// element type `T` leave no remainder.
pub open spec fn inverts_exactly<T: Scalar>(m: Seq<Seq<int>>) -> bool {
    exact_from::<T>(
        Augmented { left: m, right: identity_rows(m.len() as int) },
        m.len() as int,
        0,
    )
}

/// What an inversion without remainders returns, times the rows, is the
/// identity.
pub proof fn lemma_left_inverse<T: Scalar>(m: Seq<Seq<int>>, n: int)
    requires
        square(m, n),
        crate::elimination::eliminated_inverse::<T>(m).is_some(),
        inverts_exactly::<T>(m),
    ensures
        square(crate::elimination::eliminated_inverse::<T>(m).unwrap(), n),
        table_of(crate::elimination::eliminated_inverse::<T>(m).unwrap()).times(table_of(m))
            == table_of(identity_rows(n)),
{
    let start = Augmented { left: m, right: identity_rows(n) };
    assert forall|r: int, c: int| 0 <= r < n && 0 <= c < n implies dot(
        table_of(start.right),
        table_of(m),
        r,
        c,
        n,
    ) == #[trigger] start.left[r][c] by {
        lemma_identity_dot(m, n, r, c, n);
    }
    lemma_holds_inverted::<T>(start, m, n, 0);
    let end = inverted_from::<T>(start, n, 0).unwrap();
    let inv = end.right;
    assert forall|r: int, c: int| 0 <= r < n && 0 <= c < n implies table_of(inv).times(
        table_of(m),
    ).cells[r][c] == identity_rows(n)[r][c] by {
        assert(end.left[r][c] == dot(table_of(inv), table_of(m), r, c, n));
    }
    assert(table_of(inv).times(table_of(m)).cells =~~= identity_rows(n));
}

} // verus!
