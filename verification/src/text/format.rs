//! The text of a matrix, and what a text stands for.

use vstd::prelude::*;
use crate::scalar::Scalar;
use crate::model::{arranged, rectangular, Table};
use crate::grid::Grid;
use crate::text::round_trip::text_round_trip;

verus! {

/// The character of the decimal digit `d`.
pub open spec fn digit(d: int) -> char {
    if d == 0 {
        '0'
    } else if d == 1 {
        '1'
    } else if d == 2 {
        '2'
    } else if d == 3 {
        '3'
    } else if d == 4 {
        '4'
    } else if d == 5 {
        '5'
    } else if d == 6 {
        '6'
    } else if d == 7 {
        '7'
    } else if d == 8 {
        '8'
    } else {
        '9'
    }
}

/// The digit that the character `c` stands for, if it is a decimal digit.
pub open spec fn digit_value(c: char) -> Option<int> {
    if c == '0' {
        Some(0)
    } else if c == '1' {
        Some(1)
    } else if c == '2' {
        Some(2)
    } else if c == '3' {
        Some(3)
    } else if c == '4' {
        Some(4)
    } else if c == '5' {
        Some(5)
    } else if c == '6' {
        Some(6)
    } else if c == '7' {
        Some(7)
    } else if c == '8' {
        Some(8)
    } else if c == '9' {
        Some(9)
    } else {
        None
    }
}

/// The decimal digits of `n`, without leading zeros.
pub open spec fn numeral(n: nat) -> Seq<char>
    decreases n,
{
    if n < 10 {
        seq![digit(n as int)]
    } else {
        numeral(n / 10).push(digit((n % 10) as int))
    }
}

/// The text of the integer `v`: its decimal digits, after a minus sign where
/// it is negative.
pub open spec fn literal(v: int) -> Seq<char> {
    if v < 0 {
        seq!['-'] + numeral((-v) as nat)
    } else {
        numeral(v as nat)
    }
}

/// The texts of the items with `d` between each two of them.
pub open spec fn joined(items: Seq<int>, d: char) -> Seq<char>
    decreases items.len(),
{
    if items.len() == 0 {
        Seq::empty()
    } else if items.len() == 1 {
        literal(items[0])
    } else {
        joined(items.drop_last(), d).push(d) + literal(items.last())
    }
}

/// The cells of the rows one after the other, row by row.
pub open spec fn flattened(cells: Seq<Seq<int>>) -> Seq<int>
    decreases cells.len(),
{
    if cells.len() == 0 {
        Seq::empty()
    } else {
        flattened(cells.drop_last()) + cells.last()
    }
}

/// The number that the decimal digits `s` stand for, if `s` is one digit or
/// more and nothing else.
pub open spec fn numeral_value(s: Seq<char>) -> Option<nat>
    decreases s.len(),
{
    if s.len() == 0 {
        None
    } else {
        match digit_value(s.last()) {
            Some(d) => if s.len() == 1 {
                Some(d as nat)
            } else {
                match numeral_value(s.drop_last()) {
                    Some(m) => Some(m * 10 + d as nat),
                    None => None,
                }
            },
            None => None,
        }
    }
}

/// The integer that the text `s` stands for, if `s` is a literal: decimal
/// digits, with or without a sign before them.
pub open spec fn literal_value(s: Seq<char>) -> Option<int> {
    if s.len() > 0 && s[0] == '-' {
        match numeral_value(s.drop_first()) {
            Some(m) => Some(-(m as int)),
            None => None,
        }
    } else if s.len() > 0 && s[0] == '+' {
        match numeral_value(s.drop_first()) {
            Some(m) => Some(m as int),
            None => None,
        }
    } else {
        match numeral_value(s) {
            Some(m) => Some(m as int),
            None => None,
        }
    }
}

/// Whether `c` is white space.
pub open spec fn is_space(c: char) -> bool {
    ||| c == ' '
    ||| c == '\t'
    ||| c == '\n'
    ||| c == '\r'
    ||| c == '\u{b}'
    ||| c == '\u{c}'
    ||| c == '\u{85}'
    ||| c == '\u{a0}'
    ||| c == '\u{1680}'
    ||| ('\u{2000}' <= c && c <= '\u{200a}')
    ||| c == '\u{2028}'
    ||| c == '\u{2029}'
    ||| c == '\u{202f}'
    ||| c == '\u{205f}'
    ||| c == '\u{3000}'
}

/// The text without the white space at its start.
pub open spec fn trimmed_start(s: Seq<char>) -> Seq<char>
    decreases s.len(),
{
    if s.len() > 0 && is_space(s[0]) {
        trimmed_start(s.drop_first())
    } else {
        s
    }
}

/// The text without the white space at its end.
pub open spec fn trimmed_end(s: Seq<char>) -> Seq<char>
    decreases s.len(),
{
    if s.len() > 0 && is_space(s.last()) {
        trimmed_end(s.drop_last())
    } else {
        s
    }
}

/// The text without the white space at its start and at its end.
pub open spec fn trimmed(s: Seq<char>) -> Seq<char> {
    trimmed_end(trimmed_start(s))
}

/// The pieces that `d` cuts the text into: one more than `d` occurs.
pub open spec fn pieces(s: Seq<char>, d: char) -> Seq<Seq<char>>
    decreases s.len(),
{
    if s.len() == 0 {
        seq![Seq::empty()]
    } else {
        let before = pieces(s.drop_last(), d);
        if s.last() == d {
            before.push(Seq::empty())
        } else {
            before.drop_last().push(before.last().push(s.last()))
        }
    }
}

/// The tokens of a text: the pieces that `d` cuts it into once the white
/// space at its ends is gone, and none where nothing is left.
pub open spec fn tokens(s: Seq<char>, d: char) -> Seq<Seq<char>> {
    if trimmed(s).len() == 0 {
        Seq::empty()
    } else {
        pieces(trimmed(s), d)
    }
}

/// Whether every token is the literal of a value of the element type `T`.
pub open spec fn all_literals<T: Scalar>(toks: Seq<Seq<char>>) -> bool {
    forall|k: int|
        0 <= k < toks.len() ==> (#[trigger] literal_value(toks[k])).is_some() && T::representable(
            literal_value(toks[k]).unwrap(),
        )
}

impl Table {
    /// The text of the table: the literals of its cells row by row, with `d`
    /// between each two of them.
    pub open spec fn rendered(self, d: char) -> Seq<char> {
        joined(flattened(self.cells), d)
    }

    /// The table of the given shape that a text stands for in the element
    /// type `T`, or `None` where one of its tokens is not the literal of a
    /// value of `T`.
    pub open spec fn read<T: Scalar>(s: Seq<char>, d: char, rows: nat, columns: nat) -> Option<
        Table,
    > {
        let toks = tokens(s, d);
        if all_literals::<T>(toks) {
            Some(
                arranged(
                    Seq::new(toks.len(), |k: int| literal_value(toks[k]).unwrap()),
                    rows,
                    columns,
                ),
            )
        } else {
            None
        }
    }
}

/// Joining one item more appends the delimiter, unless the item is the
/// first, and the item's literal.
pub proof fn lemma_joined_push(items: Seq<int>, x: int, d: char)
    ensures
        joined(items.push(x), d) == if items.len() == 0 {
            literal(x)
        } else {
            joined(items, d).push(d) + literal(x)
        },
{
    assert(items.push(x).drop_last() =~= items);
}

/// Flattening one row more appends the row.
pub proof fn lemma_flattened_take(cells: Seq<Seq<int>>, i: int)
    requires
        0 <= i < cells.len(),
    ensures
        flattened(cells.take(i + 1)) == flattened(cells.take(i)) + cells[i],
{
    assert(cells.take(i + 1).drop_last() =~= cells.take(i));
}

/// The character of a decimal digit.
fn digit_char(d: u64) -> (c: char)
    requires
        d < 10,
    ensures
        c == digit(d as int),
{
    if d == 0 {
        '0'
    } else if d == 1 {
        '1'
    } else if d == 2 {
        '2'
    } else if d == 3 {
        '3'
    } else if d == 4 {
        '4'
    } else if d == 5 {
        '5'
    } else if d == 6 {
        '6'
    } else if d == 7 {
        '7'
    } else if d == 8 {
        '8'
    } else {
        '9'
    }
}

/// Appends the decimal digits of `n`.
fn push_numeral(out: &mut Vec<char>, n: u64)
    ensures
        final(out)@ == old(out)@ + numeral(n as nat),
    decreases n,
{
    if n >= 10 {
        push_numeral(out, n / 10);
    }
    out.push(digit_char(n % 10));
    assert(final(out)@ =~= old(out)@ + numeral(n as nat));
}

/// Appends the literal of an element.
fn push_literal<T: Scalar>(out: &mut Vec<char>, e: T)
    ensures
        final(out)@ == old(out)@ + literal(e.value()),
{
    let v = e.to_i64();
    if v < 0 {
        out.push('-');
        let magnitude: u64 = if v == i64::MIN {
            9223372036854775808u64
        } else {
            (-v) as u64
        };
        push_numeral(out, magnitude);
        assert(final(out)@ =~= old(out)@ + literal(e.value()));
    } else {
        push_numeral(out, v as u64);
    }
}

impl<T: Scalar> Grid<T> {
    /// The text of the grid: the literals of its elements row by row, with
    /// `delimiter` between each two of them.
    ///
    /// Where the literal of no element holds the delimiter, the text reads as
    /// the grid again.
    pub fn to_text(&self, delimiter: char) -> (r: Vec<char>)
        ensures
            r@ == self@.rendered(delimiter),
            self@.literals_avoid(delimiter) ==> Table::read::<T>(
                r@,
                delimiter,
                self@.rows,
                self@.columns,
            ) == Some(self@),
    {
        proof {
            use_type_invariant(self);
            if self@.literals_avoid(delimiter) {
                assert forall|i: int, j: int|
                    0 <= i < self@.rows && 0 <= j < self@.columns implies T::representable(
                    #[trigger] self@.cells[i][j],
                ) by {
                    T::lemma_value(self.elems[i][j], self.elems[i][j]);
                }
                text_round_trip::<T>(self@, delimiter);
            }
        }
        let ghost cells = self@.cells;
        let mut out: Vec<char> = Vec::new();
        let mut first = true;
        let mut i: usize = 0;
        while i < self.rows
            invariant
                i <= self.rows,
                cells == self@.cells,
                rectangular(self.elems@, self.rows as int, self.columns as int),
                out@ == joined(flattened(cells.take(i as int)), delimiter),
                first == (flattened(cells.take(i as int)).len() == 0),
            decreases self.rows - i,
        {
            let ghost done = flattened(cells.take(i as int));
            let mut j: usize = 0;
            while j < self.columns
                invariant
                    j <= self.columns,
                    i < self.rows,
                    cells == self@.cells,
                    done == flattened(cells.take(i as int)),
                    rectangular(self.elems@, self.rows as int, self.columns as int),
                    out@ == joined(done + cells[i as int].take(j as int), delimiter),
                    first == ((done + cells[i as int].take(j as int)).len() == 0),
                decreases self.columns - j,
            {
                let ghost before = done + cells[i as int].take(j as int);
                proof {
                    assert(cells[i as int][j as int] == self.elems[i as int][j as int].value());
                    assert(before.push(cells[i as int][j as int]) =~= done + cells[i as int].take(
                        j + 1,
                    ));
                    lemma_joined_push(before, cells[i as int][j as int], delimiter);
                }
                if !first {
                    out.push(delimiter);
                }
                push_literal(&mut out, self.elems[i][j]);
                first = false;
                j += 1;
            }
            proof {
                assert(cells[i as int].take(self.columns as int) =~= cells[i as int]);
                lemma_flattened_take(cells, i as int);
            }
            i += 1;
        }
        proof {
            assert(cells.take(self.rows as int) =~= cells);
        }
        out
    }
}

} // verus!
