//! The inverse by elimination with the largest cell of a column as pivot.

use vstd::prelude::*;
use crate::scalar::{quotient, Scalar};
use crate::model::{cell_values, rectangular, row_values, value_of};
use crate::determinant::negate;
use crate::rows::{copied_row, copied_rows, swap_rows};
use crate::elimination::{
    cleared_around, divided, division_fits, eliminated_inverse, identity_rows, inverted_from,
    magnitude, pivot_choice, pivoted, reduced, reduction_fits, swapped, Augmented,
};

verus! {

/// The size of an element.
fn magnitude_of<T: Scalar>(v: T) -> (r: Option<T>)
    ensures
        value_of(r) == magnitude::<T>(v.value()),
{
    if v.less(T::zero()) {
        negate(v)
    } else {
        Some(v)
    }
}

/// The row from `i` on whose element in column `i` is largest in size.
fn choose_pivot<T: Scalar>(mat: &Vec<Vec<T>>, i: usize) -> (r: Option<usize>)
    requires
        rectangular(mat@, mat.len() as int, mat.len() as int),
        i < mat.len(),
    ensures
        match pivot_choice::<T>(cell_values(mat@), mat.len() as int, i as int, i + 1, i as int) {
            Some(p) => r == Some(p as usize) && i <= p < mat.len(),
            None => r.is_none(),
        },
{
    let n = mat.len();
    let ghost cells = cell_values(mat@);
    let mut best: usize = i;
    let mut j: usize = i + 1;
    while j < n
        invariant
            i < j <= n,
            i <= best < n,
            n == mat.len(),
            cells == cell_values(mat@),
            rectangular(mat@, n as int, n as int),
            pivot_choice::<T>(cells, n as int, i as int, j as int, best as int) == pivot_choice::<T>(
                cells,
                n as int,
                i as int,
                i + 1,
                i as int,
            ),
        decreases n - j,
    {
        assert(cells[j as int][i as int] == mat[j as int][i as int].value());
        assert(cells[best as int][i as int] == mat[best as int][i as int].value());
        let candidate = match magnitude_of(mat[j][i]) {
            Some(candidate) => candidate,
            None => {
                return None;
            },
        };
        let held = match magnitude_of(mat[best][i]) {
            Some(held) => held,
            None => {
                return None;
            },
        };
        if held.less(candidate) {
            best = j;
        }
        j += 1;
    }
    Some(best)
}

/// The row `x` with the elements from `from` on divided by `d`, if every
/// quotient can be formed.
fn divide_from<T: Scalar>(x: &Vec<T>, d: T, from: usize) -> (r: Option<Vec<T>>)
    ensures
        r.is_some() <==> division_fits::<T>(row_values(x@), d.value(), from as int),
        r.is_some() ==> row_values(r.unwrap()@) == divided(
            row_values(x@),
            d.value(),
            from as int,
        ),
{
    let ghost xs = row_values(x@);
    let mut out: Vec<T> = Vec::new();
    let mut k: usize = 0;
    while k < x.len()
        invariant
            k <= x.len(),
            xs == row_values(x@),
            out.len() == k,
            from < k ==> d.value() != 0,
            forall|t: int|
                from as int <= t < k as int ==> T::representable(
                    quotient(#[trigger] xs[t], d.value()),
                ),
            forall|t: int|
                0 <= t < k ==> (#[trigger] out[t]).value() == if t >= from {
                    quotient(xs[t], d.value())
                } else {
                    xs[t]
                },
        decreases x.len() - k,
    {
        assert(xs[k as int] == x[k as int].value());
        if k >= from {
            match x[k].checked_div(d) {
                Some(q) => {
                    out.push(q);
                },
                None => {
                    return None;
                },
            }
        } else {
            out.push(x[k]);
        }
        k += 1;
    }
    assert(row_values(out@) =~= divided(xs, d.value(), from as int));
    Some(out)
}

/// The row `x` less `f` times the row `p` in the elements from `from` on, if
/// every product and difference can be formed.
fn reduce_from<T: Scalar>(x: &Vec<T>, f: T, p: &Vec<T>, from: usize) -> (r: Option<Vec<T>>)
    requires
        x.len() == p.len(),
    ensures
        r.is_some() <==> reduction_fits::<T>(
            row_values(x@),
            f.value(),
            row_values(p@),
            from as int,
        ),
        r.is_some() ==> row_values(r.unwrap()@) == reduced(
            row_values(x@),
            f.value(),
            row_values(p@),
            from as int,
        ),
{
    let ghost xs = row_values(x@);
    let ghost ps = row_values(p@);
    let mut out: Vec<T> = Vec::new();
    let mut k: usize = 0;
    while k < x.len()
        invariant
            k <= x.len(),
            x.len() == p.len(),
            xs == row_values(x@),
            ps == row_values(p@),
            out.len() == k,
            forall|t: int|
                #![trigger xs[t]]
                #![trigger ps[t]]
                from as int <= t < k as int ==> T::representable(f.value() * ps[t])
                    && T::representable(xs[t] - f.value() * ps[t]),
            forall|t: int|
                0 <= t < k ==> (#[trigger] out[t]).value() == if t >= from {
                    xs[t] - f.value() * ps[t]
                } else {
                    xs[t]
                },
        decreases x.len() - k,
    {
        assert(xs[k as int] == x[k as int].value());
        assert(ps[k as int] == p[k as int].value());
        if k >= from {
            let scaled = match f.checked_mul(p[k]) {
                Some(scaled) => scaled,
                None => {
                    return None;
                },
            };
            match x[k].checked_sub(scaled) {
                Some(d) => {
                    out.push(d);
                },
                None => {
                    return None;
                },
            }
        } else {
            out.push(x[k]);
        }
        k += 1;
    }
    assert(row_values(out@) =~= reduced(xs, f.value(), ps, from as int));
    Some(out)
}

/// The rows of the identity of size `n`.
fn identity_of<T: Scalar>(n: usize) -> (r: Vec<Vec<T>>)
    ensures
        rectangular(r@, n as int, n as int),
        cell_values(r@) == identity_rows(n as int),
{
    let mut out: Vec<Vec<T>> = Vec::new();
    let mut i: usize = 0;
    while i < n
        invariant
            i <= n,
            rectangular(out@, i as int, n as int),
            forall|a: int, b: int|
                0 <= a < i && 0 <= b < n ==> (#[trigger] out[a][b]).value() == if a == b {
                    1int
                } else {
                    0int
                },
        decreases n - i,
    {
        let mut line: Vec<T> = Vec::new();
        let mut j: usize = 0;
        while j < n
            invariant
                j <= n,
                line.len() == j,
                forall|b: int|
                    0 <= b < j ==> (#[trigger] line[b]).value() == if i as int == b {
                        1int
                    } else {
                        0int
                    },
            decreases n - j,
        {
            if i == j {
                line.push(T::one());
            } else {
                line.push(T::zero());
            }
            j += 1;
        }
        out.push(line);
        i += 1;
    }
    assert(cell_values(out@) =~~= identity_rows(n as int));
    out
}

/// The state of an inversion that the working rows stand for.
pub open spec fn augmented_of<T: Scalar>(left: Seq<Vec<T>>, right: Seq<Vec<T>>) -> Augmented {
    Augmented { left: cell_values(left), right: cell_values(right) }
}

/// Clears column `i` in every row but row `i`, on both sides. Returns whether
/// every result could be formed.
fn clear_around<T: Scalar>(left: &mut Vec<Vec<T>>, right: &mut Vec<Vec<T>>, i: usize) -> (r: bool)
    requires
        rectangular(old(left)@, old(left).len() as int, old(left).len() as int),
        rectangular(old(right)@, old(left).len() as int, old(left).len() as int),
        i < old(left).len(),
    ensures
        rectangular(final(left)@, old(left).len() as int, old(left).len() as int),
        rectangular(final(right)@, old(left).len() as int, old(left).len() as int),
        match cleared_around::<T>(
            augmented_of(old(left)@, old(right)@),
            old(left).len() as int,
            i as int,
            0,
        ) {
            Some(s) => r && s == augmented_of(final(left)@, final(right)@),
            None => !r,
        },
{
    let n = left.len();
    let ghost start = augmented_of(left@, right@);
    let pivot_left = copied_row(&left[i]);
    let pivot_right = copied_row(&right[i]);
    let mut j: usize = 0;
    while j < n
        invariant
            j <= n,
            i < n,
            n == left.len(),
            n == old(left).len(),
            start == augmented_of(old(left)@, old(right)@),
            rectangular(left@, n as int, n as int),
            rectangular(right@, n as int, n as int),
            pivot_left@ == left[i as int]@,
            pivot_right@ == right[i as int]@,
            cleared_around::<T>(augmented_of(left@, right@), n as int, i as int, j as int)
                == cleared_around::<T>(start, n as int, i as int, 0),
        decreases n - j,
    {
        if j != i {
            let ghost cur = augmented_of(left@, right@);
            let factor = left[j][i];
            proof {
                assert(cur.left[i as int] == row_values(left[i as int]@));
                assert(cur.left[j as int] == row_values(left[j as int]@));
                assert(cur.right[i as int] == row_values(right[i as int]@));
                assert(cur.right[j as int] == row_values(right[j as int]@));
                assert(cur.left[j as int][i as int] == factor.value());
            }
            let a = match reduce_from(&left[j], factor, &pivot_left, i) {
                Some(a) => a,
                None => {
                    return false;
                },
            };
            let b = match reduce_from(&right[j], factor, &pivot_right, 0) {
                Some(b) => b,
                None => {
                    return false;
                },
            };
            proof {
                assert(row_values(a@).len() == n);
                assert(row_values(b@).len() == n);
            }
            left.set(j, a);
            right.set(j, b);
            proof {
                assert(cell_values(left@) =~= cur.left.update(
                    j as int,
                    reduced(cur.left[j as int], factor.value(), cur.left[i as int], i as int),
                ));
                assert(cell_values(right@) =~= cur.right.update(
                    j as int,
                    reduced(cur.right[j as int], factor.value(), cur.right[i as int], 0),
                ));
            }
        }
        j += 1;
    }
    true
}

/// The inverse of the square rows `elems` by elimination, or `None` where an
/// intermediate result is not a value of the element type or a pivot is
/// zero.
pub(crate) fn inverse<T: Scalar>(elems: &Vec<Vec<T>>) -> (r: Option<Vec<Vec<T>>>)
    requires
        rectangular(elems@, elems.len() as int, elems.len() as int),
    ensures
        match eliminated_inverse::<T>(cell_values(elems@)) {
            Some(m) => r.is_some() && cell_values(r.unwrap()@) == m && rectangular(
                r.unwrap()@,
                elems.len() as int,
                elems.len() as int,
            ),
            None => r.is_none(),
        },
{
    let n = elems.len();
    let mut left = copied_rows(elems);
    let mut right = identity_of::<T>(n);
    let ghost start = Augmented { left: cell_values(elems@), right: identity_rows(n as int) };
    let mut i: usize = 0;
    while i < n
        invariant
            i <= n,
            n == left.len(),
            n == elems.len(),
            start == (Augmented { left: cell_values(elems@), right: identity_rows(n as int) }),
            rectangular(left@, n as int, n as int),
            rectangular(right@, n as int, n as int),
            inverted_from::<T>(augmented_of(left@, right@), n as int, i as int) == inverted_from::<T>(
                start,
                n as int,
                0,
            ),
        decreases n - i,
    {
        let ghost cur = augmented_of(left@, right@);
        let p = match choose_pivot(&left, i) {
            Some(p) => p,
            None => {
                return None;
            },
        };
        if p != i {
            swap_rows(&mut left, i, p, Ghost(n as int));
            swap_rows(&mut right, i, p, Ghost(n as int));
        }
        proof {
            assert(cell_values(left@) =~= swapped(cur.left, i as int, p as int));
            assert(cell_values(right@) =~= swapped(cur.right, i as int, p as int));
        }
        let ghost mid = augmented_of(left@, right@);
        let pivot = left[i][i];
        proof {
            assert(mid.left[i as int] == row_values(left[i as int]@));
            assert(mid.right[i as int] == row_values(right[i as int]@));
            assert(mid.left[i as int][i as int] == pivot.value());
        }
        let a = match divide_from(&left[i], pivot, i) {
            Some(a) => a,
            None => {
                return None;
            },
        };
        let b = match divide_from(&right[i], pivot, 0) {
            Some(b) => b,
            None => {
                return None;
            },
        };
        proof {
            assert(row_values(a@).len() == n);
            assert(row_values(b@).len() == n);
        }
        left.set(i, a);
        right.set(i, b);
        proof {
            assert(cell_values(left@) =~= mid.left.update(
                i as int,
                divided(mid.left[i as int], pivot.value(), i as int),
            ));
            assert(cell_values(right@) =~= mid.right.update(
                i as int,
                divided(mid.right[i as int], pivot.value(), 0),
            ));
        }
        if !clear_around(&mut left, &mut right, i) {
            return None;
        }
        proof {
            assert(pivoted::<T>(cur, n as int, i as int) == Some(augmented_of(left@, right@)));
        }
        i += 1;
    }
    Some(right)
}

} // verus!
