//! Copies and exchanges of rows of elements.

use vstd::prelude::*;
use crate::scalar::Scalar;
use crate::model::{cell_values, rectangular};
use crate::elimination::swapped;

verus! {

/// A copy of a row.
pub(crate) fn copied_row<T: Scalar>(x: &Vec<T>) -> (r: Vec<T>)
    ensures
        r@ == x@,
{
    let mut out: Vec<T> = Vec::new();
    let mut k: usize = 0;
    while k < x.len()
        invariant
            k <= x.len(),
            out.len() == k,
            forall|t: int| 0 <= t < k ==> out[t] == x[t],
        decreases x.len() - k,
    {
        out.push(x[k]);
        k += 1;
    }
    assert(out@ =~= x@);
    out
}

/// A copy of rows.
pub(crate) fn copied_rows<T: Scalar>(x: &Vec<Vec<T>>) -> (r: Vec<Vec<T>>)
    ensures
        r.len() == x.len(),
        forall|i: int| 0 <= i < x.len() ==> (#[trigger] r[i])@ == x[i]@,
        cell_values(r@) == cell_values(x@),
{
    let mut out: Vec<Vec<T>> = Vec::new();
    let mut k: usize = 0;
    while k < x.len()
        invariant
            k <= x.len(),
            out.len() == k,
            forall|t: int| 0 <= t < k ==> (#[trigger] out[t])@ == x[t]@,
        decreases x.len() - k,
    {
        out.push(copied_row(&x[k]));
        k += 1;
    }
    assert(cell_values(out@) =~= cell_values(x@));
    out
}

/// Exchanges the rows `a` and `b`.
pub(crate) fn swap_rows<T: Scalar>(mat: &mut Vec<Vec<T>>, a: usize, b: usize, Ghost(columns): Ghost<int>)
    requires
        rectangular(old(mat)@, old(mat).len() as int, columns),
        a < old(mat).len(),
        b < old(mat).len(),
    ensures
        rectangular(final(mat)@, old(mat).len() as int, columns),
        cell_values(final(mat)@) == swapped(cell_values(old(mat)@), a as int, b as int),
{
    let ghost before = mat@;
    let first = copied_row(&mat[a]);
    let second = copied_row(&mat[b]);
    mat.set(a, second);
    mat.set(b, first);
    proof {
        assert(cell_values(mat@) =~= swapped(cell_values(before), a as int, b as int));
    }
}

} // verus!
