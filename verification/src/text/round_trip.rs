//! The text of a matrix reads as the matrix.

use vstd::prelude::*;
use crate::scalar::Scalar;
use crate::model::{arranged, Table};
use crate::text::format::{
    digit, digit_value, flattened, is_space, joined, literal, literal_value, numeral,
    numeral_value, pieces, tokens, trimmed,
};

verus! {

/// Whether `c` can stand in the literal of an integer as this library writes
/// it: a decimal digit or the minus sign.
pub open spec fn literal_character(c: char) -> bool {
    digit_value(c).is_some() || c == '-'
}

/// Whether the text does not hold the character `d`.
pub open spec fn free_of(s: Seq<char>, d: char) -> bool {
    forall|k: int| 0 <= k < s.len() ==> s[k] != d
}

impl Table {
    /// Whether the literal of no cell holds the character `d`.
    pub open spec fn literals_avoid(self, d: char) -> bool {
        forall|i: int, j: int|
            0 <= i < self.rows && 0 <= j < self.columns ==> free_of(
                literal(#[trigger] self.cells[i][j]),
                d,
            )
    }
}

/// A character that is neither a decimal digit nor the minus sign is in no
/// literal.
pub proof fn lemma_literals_avoid(t: Table, d: char)
    requires
        !literal_character(d),
    ensures
        t.literals_avoid(d),
{
    assert forall|i: int, j: int| 0 <= i < t.rows && 0 <= j < t.columns implies free_of(
        literal(#[trigger] t.cells[i][j]),
        d,
    ) by {
        lemma_literal(t.cells[i][j]);
    }
}

/// A numeral is one digit or more, and reads as its number.
proof fn lemma_numeral(n: nat)
    ensures
        numeral(n).len() >= 1,
        forall|i: int| 0 <= i < numeral(n).len() ==> digit_value(#[trigger] numeral(n)[i]).is_some(),
        numeral_value(numeral(n)) == Some(n),
    decreases n,
{
    if n >= 10 {
        lemma_numeral(n / 10);
        let s = numeral(n);
        assert(s.drop_last() =~= numeral(n / 10));
        assert(digit_value(digit((n % 10) as int)) == Some((n % 10) as int));
    } else {
        assert(digit_value(digit(n as int)) == Some(n as int));
    }
}

/// A literal is one character or more, each a digit or the minus sign, its
/// last a digit, and reads as its integer.
proof fn lemma_literal(v: int)
    ensures
        literal(v).len() >= 1,
        forall|i: int| 0 <= i < literal(v).len() ==> literal_character(#[trigger] literal(v)[i]),
        digit_value(literal(v).last()).is_some(),
        literal_value(literal(v)) == Some(v),
{
    if v < 0 {
        let n = (-v) as nat;
        lemma_numeral(n);
        let s = literal(v);
        assert(s.drop_first() =~= numeral(n));
        assert forall|i: int| 0 <= i < s.len() implies literal_character(#[trigger] s[i]) by {
            if i > 0 {
                assert(s[i] == numeral(n)[i - 1]);
            }
        }
        assert(s.last() == numeral(n).last());
    } else {
        lemma_numeral(v as nat);
        assert(digit_value(numeral(v as nat)[0]).is_some());
    }
}

/// Text without the delimiter, put behind a text, lengthens the last piece.
proof fn lemma_pieces_append(s: Seq<char>, u: Seq<char>, d: char)
    requires
        forall|i: int| 0 <= i < u.len() ==> u[i] != d,
    ensures
        pieces(s + u, d) == pieces(s, d).drop_last().push(pieces(s, d).last() + u),
        pieces(s, d).len() >= 1,
    decreases u.len(),
{
    crate::text::parse::lemma_pieces_len(s, d);
    if u.len() == 0 {
        assert(s + u =~= s);
        assert(pieces(s, d).last() + u =~= pieces(s, d).last());
        assert(pieces(s, d).drop_last().push(pieces(s, d).last()) =~= pieces(s, d));
    } else {
        let shorter = u.drop_last();
        lemma_pieces_append(s, shorter, d);
        assert((s + u).drop_last() =~= s + shorter);
        assert((s + u).last() == u.last());
        let before = pieces(s + shorter, d);
        assert(before.last().push(u.last()) =~= pieces(s, d).last() + u);
        assert(before.drop_last() =~= pieces(s, d).drop_last());
    }
}

/// The literals of the items.
pub open spec fn literals(items: Seq<int>) -> Seq<Seq<char>> {
    Seq::new(items.len(), |k: int| literal(items[k]))
}

/// A delimiter that the literal of no item holds cuts the joined literals of
/// one item or more into those literals; the joined text starts and ends with a
/// character of a literal.
proof fn lemma_pieces_joined(items: Seq<int>, d: char)
    requires
        items.len() >= 1,
        forall|k: int| 0 <= k < items.len() ==> free_of(literal(#[trigger] items[k]), d),
    ensures
        pieces(joined(items, d), d) == literals(items),
        joined(items, d).len() >= 1,
        literal_character(joined(items, d)[0]),
        literal_character(joined(items, d).last()),
    decreases items.len(),
{
    let x = items.last();
    lemma_literal(x);
    if items.len() == 1 {
        lemma_pieces_append(Seq::empty(), literal(x), d);
        assert(Seq::<char>::empty() + literal(x) =~= literal(x));
        assert(pieces(Seq::empty(), d) =~= seq![Seq::<char>::empty()]);
        assert(pieces(literal(x), d) =~= literals(items));
        assert(literal_character(literal(x)[0]));
    } else {
        let rest = items.drop_last();
        lemma_pieces_joined(rest, d);
        let head = joined(rest, d).push(d);
        assert(head.drop_last() =~= joined(rest, d));
        assert(pieces(head, d) == pieces(joined(rest, d), d).push(Seq::empty()));
        lemma_pieces_append(head, literal(x), d);
        assert(pieces(head, d).drop_last() =~= literals(rest));
        assert(Seq::<char>::empty() + literal(x) =~= literal(x));
        assert(pieces(joined(items, d), d) =~= literals(items));
        assert(joined(items, d)[0] == joined(rest, d)[0]);
        assert(joined(items, d).last() == literal(x).last());
    }
}

/// A text that starts and ends with a character of a literal has no white
/// space to lose at its ends.
proof fn lemma_trimmed(s: Seq<char>)
    requires
        s.len() >= 1,
        literal_character(s[0]),
        literal_character(s.last()),
    ensures
        trimmed(s) == s,
{
    assert(!is_space(s[0]));
    assert(!is_space(s.last()));
}

/// The cells of the first `n` rows of a table one after the other: there are
/// `n` times columns of them.
proof fn lemma_flattened_len(t: Table, n: int)
    requires
        t.well_formed(),
        0 <= n <= t.rows,
    ensures
        flattened(t.cells.take(n)).len() == n * t.columns,
    decreases n,
{
    let c = t.columns as int;
    if n > 0 {
        lemma_flattened_len(t, n - 1);
        assert(t.cells.take(n).drop_last() =~= t.cells.take(n - 1));
        assert(t.cells.take(n).last() == t.cells[n - 1]);
        assert(n * c == (n - 1) * c + c) by (nonlinear_arith);
    } else {
        assert(0 * c == 0);
    }
}

/// Among the cells of the first `n` rows of a table one after the other,
/// cell `(i, j)` stands at position `i * columns + j`.
proof fn lemma_flattened_at(t: Table, n: int, i: int, j: int)
    requires
        t.well_formed(),
        0 <= i < n <= t.rows,
        0 <= j < t.columns,
    ensures
        0 <= i * t.columns + j < flattened(t.cells.take(n)).len(),
        flattened(t.cells.take(n))[i * t.columns + j] == t.cells[i][j],
    decreases n,
{
    let c = t.columns as int;
    let now = t.cells.take(n);
    let before = t.cells.take(n - 1);
    lemma_flattened_len(t, n);
    lemma_flattened_len(t, n - 1);
    assert(now.drop_last() =~= before);
    assert(now.last() == t.cells[n - 1]);
    assert(flattened(now) == flattened(before) + t.cells[n - 1]);
    if i < n - 1 {
        lemma_flattened_at(t, n - 1, i, j);
    } else {
        assert(i * c + j == flattened(before).len() + j);
        assert(0 <= i * c) by (nonlinear_arith)
            requires
                0 <= i,
                0 <= c,
        ;
    }
}

/// The elements of a matrix, written with a delimiter that the literal of no
/// element holds and read again, are the elements: for a table `t` whose
/// cells are values of the element type `T`, and a delimiter `d` that is in
/// the literal of no cell, the text of `t` reads as `t`.
pub proof fn text_round_trip<T: Scalar>(t: Table, d: char)
    requires
        t.well_formed(),
        forall|i: int, j: int|
            0 <= i < t.rows && 0 <= j < t.columns ==> T::representable(#[trigger] t.cells[i][j]),
        t.literals_avoid(d),
    ensures
        Table::read::<T>(t.rendered(d), d, t.rows, t.columns) == Some(t),
{
    let items = flattened(t.cells);
    let s = t.rendered(d);
    let c = t.columns as int;
    lemma_flattened_len(t, t.rows as int);
    assert(t.cells.take(t.rows as int) =~= t.cells);
    assert forall|k: int| 0 <= k < items.len() implies free_of(literal(#[trigger] items[k]), d)
        && T::representable(items[k]) by {
        if c > 0 {
            let i = k / c;
            let j = k % c;
            assert(k == i * c + j && 0 <= j < c && 0 <= i) by (nonlinear_arith)
                requires
                    c > 0,
                    k >= 0,
                    i == k / c,
                    j == k % c,
            ;
            assert(i < t.rows) by (nonlinear_arith)
                requires
                    k == i * c + j,
                    0 <= j,
                    k < t.rows * c,
                    c > 0,
            ;
            lemma_flattened_at(t, t.rows as int, i, j);
            assert(items[i * c + j] == t.cells[i][j]);
        } else {
            assert(t.rows * c == 0) by (nonlinear_arith)
                requires
                    c == 0,
            ;
        }
    }
    let toks = tokens(s, d);
    if items.len() == 0 {
        assert(s =~= Seq::empty());
        assert(toks =~= Seq::empty());
    } else {
        lemma_pieces_joined(items, d);
        lemma_trimmed(s);
        assert(toks == literals(items));
    }
    assert forall|k: int| 0 <= k < toks.len() implies (#[trigger] literal_value(toks[k])).is_some()
        && T::representable(literal_value(toks[k]).unwrap()) && literal_value(toks[k]).unwrap()
        == items[k] by {
        lemma_literal(items[k]);
        assert(toks[k] == literal(items[k]));
    }
    let values = Seq::new(toks.len(), |k: int| literal_value(toks[k]).unwrap());
    assert(values =~= items);
    let back = arranged(values, t.rows, t.columns);
    assert forall|i: int, j: int| 0 <= i < t.rows && 0 <= j < t.columns implies back.cells[i][j]
        == t.cells[i][j] by {
        lemma_flattened_at(t, t.rows as int, i, j);
    }
    assert(back.cells =~~= t.cells);
}

} // verus!
