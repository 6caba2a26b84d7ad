//! Reading a matrix from its text.

use vstd::prelude::*;
use crate::scalar::Scalar;
use crate::model::{row_values, Table};
use crate::error::{fails, Error, ErrorKind};
use crate::grid::{arrange, Grid};
use crate::text::format::{
    digit_value, is_space, literal_value, numeral_value, pieces, tokens, trimmed,
    trimmed_end, trimmed_start,
};

verus! {

/// The texts that the vectors hold.
pub open spec fn texts(v: Seq<Vec<char>>) -> Seq<Seq<char>> {
    Seq::new(v.len(), |i: int| v[i]@)
}

/// Whether a character is white space.
fn is_space_char(c: char) -> (r: bool)
    ensures
        r == is_space(c),
{
    c == ' ' || c == '\t' || c == '\n' || c == '\r' || c == '\u{b}' || c == '\u{c}' || c
        == '\u{85}' || c == '\u{a0}' || c == '\u{1680}' || ('\u{2000}' <= c && c <= '\u{200a}')
        || c == '\u{2028}' || c == '\u{2029}' || c == '\u{202f}' || c == '\u{205f}' || c
        == '\u{3000}'
}

/// The bounds of the text without the white space at its ends.
fn trim(text: &Vec<char>) -> (r: (usize, usize))
    ensures
        r.0 <= r.1 <= text.len(),
        text@.subrange(r.0 as int, r.1 as int) == trimmed(text@),
{
    let n = text.len();
    let ghost s = text@;
    let mut a: usize = 0;
    assert(s.subrange(0, n as int) =~= s);
    while a < n && is_space_char(text[a])
        invariant
            a <= n,
            n == text.len(),
            s == text@,
            trimmed_start(s) == trimmed_start(s.subrange(a as int, n as int)),
        decreases n - a,
    {
        proof {
            assert(s.subrange(a as int, n as int).drop_first() =~= s.subrange(a + 1, n as int));
        }
        a += 1;
    }
    let ghost t = s.subrange(a as int, n as int);
    assert(trimmed_start(s) == t);
    let mut b: usize = n;
    while b > a && is_space_char(text[b - 1])
        invariant
            a <= b <= n,
            n == text.len(),
            s == text@,
            t == s.subrange(a as int, n as int),
            trimmed_end(t) == trimmed_end(s.subrange(a as int, b as int)),
        decreases b,
    {
        proof {
            assert(s.subrange(a as int, b as int).drop_last() =~= s.subrange(a as int, b - 1));
        }
        b -= 1;
    }
    (a, b)
}

/// There is always a piece.
pub proof fn lemma_pieces_len(s: Seq<char>, d: char)
    ensures
        pieces(s, d).len() >= 1,
    decreases s.len(),
{
    if s.len() > 0 {
        lemma_pieces_len(s.drop_last(), d);
    }
}

/// The pieces that `delimiter` cuts the text between the bounds into.
fn split(text: &Vec<char>, from: usize, to: usize, delimiter: char) -> (r: Vec<Vec<char>>)
    requires
        from <= to <= text.len(),
    ensures
        texts(r@) == pieces(text@.subrange(from as int, to as int), delimiter),
{
    let ghost s = text@.subrange(from as int, to as int);
    let mut toks: Vec<Vec<char>> = Vec::new();
    toks.push(Vec::new());
    assert(texts(toks@) =~~= pieces(s.take(0), delimiter));
    let mut k: usize = from;
    while k < to
        invariant
            from <= k <= to,
            to <= text.len(),
            s == text@.subrange(from as int, to as int),
            texts(toks@) == pieces(s.take(k - from), delimiter),
        decreases to - k,
    {
        let ghost before = s.take(k - from);
        let ghost next = s.take(k - from + 1);
        proof {
            lemma_pieces_len(before, delimiter);
            assert(next.drop_last() =~= before);
            assert(next.last() == text[k as int]);
            assert(texts(toks@).len() == toks.len());
        }
        let c = text[k];
        if c == delimiter {
            toks.push(Vec::new());
            proof {
                assert(texts(toks@) =~~= pieces(before, delimiter).push(Seq::empty()));
            }
        } else {
            let ghost held = texts(toks@);
            let mut last = toks.pop().unwrap();
            last.push(c);
            toks.push(last);
            proof {
                assert(texts(toks@) =~~= held.drop_last().push(held.last().push(c)));
            }
        }
        k += 1;
    }
    proof {
        assert(s.take(to - from) =~= s);
    }
    toks
}

/// The digits before the end of a numeral are a numeral of a value that is
/// not larger.
pub proof fn lemma_numeral_prefix(s: Seq<char>, k: int)
    requires
        1 <= k <= s.len(),
        numeral_value(s).is_some(),
    ensures
        numeral_value(s.take(k)).is_some(),
        numeral_value(s.take(k)).unwrap() <= numeral_value(s).unwrap(),
    decreases s.len(),
{
    if k < s.len() {
        lemma_numeral_prefix(s.drop_last(), k);
        assert(s.drop_last().take(k) =~= s.take(k));
    } else {
        assert(s.take(k) =~= s);
    }
}

/// The digit that a character stands for.
fn digit_of(c: char) -> (r: Option<u64>)
    ensures
        match digit_value(c) {
            Some(d) => r == Some(d as u64),
            None => r.is_none(),
        },
{
    if c == '0' {
        Some(0)
    } else if c == '1' {
        Some(1)
    } else if c == '2' {
        Some(2)
    } else if c == '3' {
        Some(3)
    } else if c == '4' {
        Some(4)
    } else if c == '5' {
        Some(5)
    } else if c == '6' {
        Some(6)
    } else if c == '7' {
        Some(7)
    } else if c == '8' {
        Some(8)
    } else if c == '9' {
        Some(9)
    } else {
        None
    }
}

/// The number that the characters from `from` on stand for, if they are a
/// numeral of a value that fits 64 bits.
fn parse_numeral(tok: &Vec<char>, from: usize) -> (r: Option<u64>)
    requires
        from <= tok.len(),
    ensures
        match numeral_value(tok@.subrange(from as int, tok.len() as int)) {
            Some(m) => if m <= u64::MAX {
                r == Some(m as u64)
            } else {
                r.is_none()
            },
            None => r.is_none(),
        },
{
    let n = tok.len();
    let ghost s = tok@.subrange(from as int, n as int);
    if from == n {
        return None;
    }
    let mut acc: u64 = 0;
    let mut k: usize = from;
    while k < n
        invariant
            from <= k <= n,
            from < n,
            n == tok.len(),
            s == tok@.subrange(from as int, n as int),
            k == from ==> acc == 0,
            k > from ==> numeral_value(s.take(k - from)) == Some(acc as nat),
        decreases n - k,
    {
        let ghost next = s.take(k - from + 1);
        proof {
            assert(next.drop_last() =~= s.take(k - from));
            assert(next.last() == tok[k as int]);
            if numeral_value(s).is_some() {
                lemma_numeral_prefix(s, k - from + 1);
            }
        }
        let d = match digit_of(tok[k]) {
            Some(d) => d,
            None => {
                return None;
            },
        };
        let scaled = match acc.checked_mul(10) {
            Some(scaled) => scaled,
            None => {
                return None;
            },
        };
        acc = match scaled.checked_add(d) {
            Some(sum) => sum,
            None => {
                return None;
            },
        };
        k += 1;
    }
    proof {
        assert(s.take(n - from) =~= s);
    }
    Some(acc)
}

/// The element that a token stands for, if the token is the literal of a
/// value of the element type.
fn parse_literal<T: Scalar>(tok: &Vec<char>) -> (r: Option<T>)
    ensures
        match literal_value(tok@) {
            Some(v) => if T::representable(v) {
                r.is_some() && r.unwrap().value() == v
            } else {
                r.is_none()
            },
            None => r.is_none(),
        },
{
    let n = tok.len();
    proof {
        if literal_value(tok@).is_some() {
            T::lemma_representable(literal_value(tok@).unwrap());
        }
        assert(tok@.subrange(0, n as int) =~= tok@);
        if n > 0 {
            assert(tok@.drop_first() =~= tok@.subrange(1, n as int));
        }
    }
    if n > 0 && tok[0] == '-' {
        let m = match parse_numeral(tok, 1) {
            Some(m) => m,
            None => {
                return None;
            },
        };
        if m > 9223372036854775808u64 {
            return None;
        }
        let v: i64 = if m == 9223372036854775808u64 {
            i64::MIN
        } else {
            -(m as i64)
        };
        T::from_i64(v)
    } else {
        let m = if n > 0 && tok[0] == '+' {
            parse_numeral(tok, 1)
        } else {
            parse_numeral(tok, 0)
        };
        let m = match m {
            Some(m) => m,
            None => {
                return None;
            },
        };
        if m > 9223372036854775807u64 {
            return None;
        }
        T::from_i64(m as i64)
    }
}

impl<T: Scalar> Grid<T> {
    /// The grid of the given shape that a text stands for: its tokens are the
    /// elements row by row, and the cells that are left once the tokens have
    /// run out hold zero.
    ///
    /// Fails with `ParseError` where a token is not the literal of an
    /// element.
    pub fn from_text(text: &Vec<char>, delimiter: char, rows: usize, columns: usize) -> (r: Result<
        Grid<T>,
        Error,
    >)
        ensures
            match Table::read::<T>(text@, delimiter, rows as nat, columns as nat) {
                Some(t) => r.is_ok() && r.unwrap()@ == t,
                None => fails(r, ErrorKind::ParseError, "Can't parse file. Maybe some errors in delimiters?"@),
            },
    {
        let (a, b) = trim(text);
        let ghost toks = tokens(text@, delimiter);
        let mut values: Vec<T> = Vec::new();
        if a < b {
            let parts = split(text, a, b, delimiter);
            assert(texts(parts@) == toks);
            let mut k: usize = 0;
            while k < parts.len()
                invariant
                    k <= parts.len(),
                    toks == tokens(text@, delimiter),
                    texts(parts@) == toks,
                    values.len() == k,
                    forall|t: int|
                        0 <= t < k ==> (#[trigger] literal_value(toks[t])).is_some()
                            && T::representable(literal_value(toks[t]).unwrap()),
                    forall|t: int|
                        0 <= t < k ==> (#[trigger] values[t]).value() == literal_value(
                            toks[t],
                        ).unwrap(),
                decreases parts.len() - k,
            {
                assert(toks[k as int] == parts[k as int]@);
                assert(toks.len() == parts.len());
                match parse_literal::<T>(&parts[k]) {
                    Some(e) => {
                        values.push(e);
                    },
                    None => {
                        assert(!(literal_value(toks[k as int]).is_some() && T::representable(
                            literal_value(toks[k as int]).unwrap(),
                        )));
                        return Err(
                            Error::new(
                                ErrorKind::ParseError,
                                "Can't parse file. Maybe some errors in delimiters?",
                            ),
                        );
                    },
                }
                k += 1;
            }
            assert(toks.len() == parts.len());
        }
        proof {
            assert(row_values(values@) =~= Seq::new(
                toks.len(),
                |k: int| literal_value(toks[k]).unwrap(),
            ));
        }
        Ok(arrange(&values, rows, columns))
    }
}

} // verus!
