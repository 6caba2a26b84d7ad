//! The determinant by elimination.

use vstd::prelude::*;
use crate::scalar::Scalar;
use crate::model::{cell_values, rectangular, row_values, value_of};
use crate::rows::{copied_row, copied_rows, swap_rows};
use crate::elimination::{
    cleared_below, combination, combination_fits, diagonal_product, eliminated_determinant,
    first_nonzero, negated, reduced_from, step, Reduction,
};

verus! {

/// The element `zero - one` times `v`, if both can be formed.
pub(crate) fn negate<T: Scalar>(v: T) -> (r: Option<T>)
    ensures
        value_of(r) == negated::<T>(v.value()),
{
    match T::zero().checked_sub(T::one()) {
        Some(minus_one) => {
            let r = v.checked_mul(minus_one);
            assert(v.value() * (-1) == -v.value());
            r
        },
        None => None,
    }
}

/// The row `a * x - b * y`, if every product and difference can be formed.
fn combine<T: Scalar>(a: T, x: &Vec<T>, b: T, y: &Vec<T>) -> (r: Option<Vec<T>>)
    requires
        x.len() == y.len(),
    ensures
        r.is_some() <==> combination_fits::<T>(
            a.value(),
            row_values(x@),
            b.value(),
            row_values(y@),
        ),
        r.is_some() ==> row_values(r.unwrap()@) == combination(
            a.value(),
            row_values(x@),
            b.value(),
            row_values(y@),
        ),
{
    let ghost xs = row_values(x@);
    let ghost ys = row_values(y@);
    let mut out: Vec<T> = Vec::new();
    let mut k: usize = 0;
    while k < x.len()
        invariant
            k <= x.len(),
            x.len() == y.len(),
            xs == row_values(x@),
            ys == row_values(y@),
            out.len() == k,
            forall|t: int|
                #![trigger xs[t]]
                #![trigger ys[t]]
                0 <= t < k ==> T::representable(a.value() * xs[t]) && T::representable(
                    b.value() * ys[t],
                ) && T::representable(a.value() * xs[t] - b.value() * ys[t]),
            forall|t: int|
                0 <= t < k ==> (#[trigger] out[t]).value() == a.value() * xs[t] - b.value() * ys[t],
        decreases x.len() - k,
    {
        assert(xs[k as int] == x[k as int].value());
        assert(ys[k as int] == y[k as int].value());
        let p = match a.checked_mul(x[k]) {
            Some(p) => p,
            None => {
                return None;
            },
        };
        let q = match b.checked_mul(y[k]) {
            Some(q) => q,
            None => {
                return None;
            },
        };
        let d = match p.checked_sub(q) {
            Some(d) => d,
            None => {
                return None;
            },
        };
        out.push(d);
        k += 1;
    }
    assert(row_values(out@) =~= combination(a.value(), xs, b.value(), ys));
    Some(out)
}

/// The state of an elimination that the working values stand for.
pub open spec fn reduction_of<T: Scalar>(mat: Seq<Vec<T>>, total: T, sign: T) -> Reduction {
    Reduction { rows: cell_values(mat), total: total.value(), sign: sign.value() }
}

/// The first row from `i` on with an element other than zero in column `i`,
/// or the number of rows.
fn find_pivot<T: Scalar>(mat: &Vec<Vec<T>>, i: usize) -> (r: usize)
    requires
        rectangular(mat@, mat.len() as int, mat.len() as int),
        i < mat.len(),
    ensures
        r == first_nonzero(cell_values(mat@), i as int, i as int),
        i <= r <= mat.len(),
{
    let ghost cells = cell_values(mat@);
    let mut index: usize = i;
    while index < mat.len() && mat[index][i].same(T::zero())
        invariant
            i <= index <= mat.len(),
            i < mat.len(),
            cells == cell_values(mat@),
            rectangular(mat@, mat.len() as int, mat.len() as int),
            first_nonzero(cells, i as int, index as int) == first_nonzero(cells, i as int, i as int),
        decreases mat.len() - index,
    {
        assert(cells[index as int][i as int] == mat[index as int][i as int].value());
        index += 1;
    }
    proof {
        if index < mat.len() {
            assert(cells[index as int][i as int] == mat[index as int][i as int].value());
        }
    }
    index
}

/// Clears column `i` below the pivot row `i`.
fn clear_below<T: Scalar>(mat: &mut Vec<Vec<T>>, total: T, sign: Ghost<T>, i: usize) -> (r: Option<T>)
    requires
        rectangular(old(mat)@, old(mat).len() as int, old(mat).len() as int),
        i < old(mat).len(),
    ensures
        rectangular(final(mat)@, old(mat).len() as int, old(mat).len() as int),
        match cleared_below::<T>(
            reduction_of(old(mat)@, total, sign@),
            old(mat).len() as int,
            i as int,
            i + 1,
        ) {
            Some(s) => r.is_some() && s == reduction_of(final(mat)@, r.unwrap(), sign@),
            None => r.is_none(),
        },
{
    let n = mat.len();
    let ghost start = reduction_of(mat@, total, sign@);
    let temp = copied_row(&mat[i]);
    let pivot = temp[i];
    let mut acc = total;
    let mut j: usize = i + 1;
    while j < n
        invariant
            i < j <= n,
            n == mat.len(),
            n == old(mat).len(),
            start == reduction_of(old(mat)@, total, sign@),
            rectangular(mat@, n as int, n as int),
            temp@ == mat[i as int]@,
            pivot == temp[i as int],
            cleared_below::<T>(reduction_of(mat@, acc, sign@), n as int, i as int, j as int)
                == cleared_below::<T>(start, n as int, i as int, i + 1),
        decreases n - j,
    {
        let ghost cur = reduction_of(mat@, acc, sign@);
        let lead = mat[j][i];
        proof {
            assert(cur.rows[i as int] == row_values(mat[i as int]@));
            assert(cur.rows[j as int] == row_values(mat[j as int]@));
            assert(cur.rows[i as int][i as int] == pivot.value());
            assert(cur.rows[j as int][i as int] == lead.value());
        }
        let row = match combine(pivot, &mat[j], lead, &temp) {
            Some(row) => row,
            None => {
                return None;
            },
        };
        let next = match acc.checked_mul(pivot) {
            Some(t) => t,
            None => {
                return None;
            },
        };
        proof {
            assert(row_values(row@).len() == n);
        }
        mat.set(j, row);
        acc = next;
        proof {
            assert(cell_values(mat@) =~= cur.rows.update(
                j as int,
                combination(pivot.value(), cur.rows[j as int], lead.value(), cur.rows[i as int]),
            ));
        }
        j += 1;
    }
    Some(acc)
}

/// The sign times the diagonal elements, one factor after the other.
fn multiply_diagonal<T: Scalar>(mat: &Vec<Vec<T>>, sign: T) -> (r: Option<T>)
    requires
        rectangular(mat@, mat.len() as int, mat.len() as int),
    ensures
        value_of(r) == diagonal_product::<T>(cell_values(mat@), sign.value(), 0),
{
    let ghost cells = cell_values(mat@);
    let mut acc = sign;
    let mut i: usize = 0;
    while i < mat.len()
        invariant
            i <= mat.len(),
            cells == cell_values(mat@),
            rectangular(mat@, mat.len() as int, mat.len() as int),
            diagonal_product::<T>(cells, acc.value(), i as int) == diagonal_product::<T>(
                cells,
                sign.value(),
                0,
            ),
        decreases mat.len() - i,
    {
        assert(cells[i as int][i as int] == mat[i as int][i as int].value());
        match acc.checked_mul(mat[i][i]) {
            Some(next) => {
                acc = next;
            },
            None => {
                return None;
            },
        }
        i += 1;
    }
    Some(acc)
}

/// The determinant of the square rows `elems` by elimination, or `None`
/// where an intermediate result is not a value of the element type.
pub(crate) fn determinant<T: Scalar>(elems: &Vec<Vec<T>>) -> (r: Option<T>)
    requires
        rectangular(elems@, elems.len() as int, elems.len() as int),
    ensures
        value_of(r) == eliminated_determinant::<T>(cell_values(elems@)),
{
    let n = elems.len();
    let mut mat = copied_rows(elems);
    let mut total = T::one();
    let mut sign = T::one();
    let ghost start = Reduction { rows: cell_values(elems@), total: 1, sign: 1 };
    assert(reduction_of(mat@, total, sign) == start);
    let mut i: usize = 0;
    while i < n
        invariant
            i <= n,
            n == mat.len(),
            n == elems.len(),
            start == (Reduction { rows: cell_values(elems@), total: 1, sign: 1 }),
            rectangular(mat@, n as int, n as int),
            reduced_from::<T>(reduction_of(mat@, total, sign), n as int, i as int)
                == reduced_from::<T>(start, n as int, 0),
        decreases n - i,
    {
        let ghost cur = reduction_of(mat@, total, sign);
        let index = find_pivot(&mat, i);
        if index < n {
            if index != i {
                swap_rows(&mut mat, i, index, Ghost(n as int));
                match negate(sign) {
                    Some(turned) => {
                        sign = turned;
                    },
                    None => {
                        return None;
                    },
                }
            }
            match clear_below(&mut mat, total, Ghost(sign), i) {
                Some(next) => {
                    total = next;
                },
                None => {
                    return None;
                },
            }
        }
        proof {
            assert(step::<T>(cur, n as int, i as int) == Some(reduction_of(mat@, total, sign)));
        }
        i += 1;
    }
    let product = match multiply_diagonal(&mat, sign) {
        Some(product) => product,
        None => {
            return None;
        },
    };
    let divisor = if total.same(T::zero()) {
        T::one()
    } else {
        total
    };
    product.checked_div(divisor)
}

} // verus!
