//! The errors of the library.

use vstd::prelude::*;

verus! {

/// What went wrong in an operation on matrices.
#[derive(Clone, Copy, Debug, PartialEq, Eq, Structural)]
pub enum ErrorKind {
    /// The shapes of two operands do not fit the operation.
    DimensionMismatch,
    /// A determinant or an inverse was asked of a matrix that is not square.
    NotSquare,
    /// An inverse was asked of a matrix whose determinant is zero.
    Singular,
    /// The elements do not have the shape that the matrix must keep.
    ShapeError,
    /// A row or column index lies outside the matrix.
    IndexError,
    /// A file could not be opened, read or written.
    IOError,
    /// A piece of text is not the literal of an element.
    ParseError,
    /// An intermediate result is not a value of the element type, or a
    /// division by zero was met.
    Arithmetic,
}

/// An error of the library: a sentence that says what went wrong, and the
/// kind of the error.
#[derive(Debug, PartialEq, Eq)]
pub struct Error(pub String, pub ErrorKind);

impl Clone for Error {
    /// A copy with the same sentence and kind.
    fn clone(&self) -> (r: Self)
        ensures
            r.1 == self.1,
            r.0@ == self.0@,
    {
        Error(self.0.clone(), self.1)
    }
}

impl Error {
    /// The error of the given kind and message.
    pub fn new(kind: ErrorKind, message: &str) -> (e: Error)
        ensures
            e.1 == kind,
            e.0@ == message@,
    {
        Error(message.to_owned(), kind)
    }

    /// The kind of the error.
    pub fn kind(&self) -> (r: ErrorKind)
        ensures
            r == self.1,
    {
        self.1
    }

    /// The sentence that says what went wrong.
    pub fn description(&self) -> (r: String)
        ensures
            r@ == self.0@,
    {
        self.0.clone()
    }
}

/// Whether `r` is the error of the given kind and message.
pub open spec fn fails<V>(r: Result<V, Error>, kind: ErrorKind, message: Seq<char>) -> bool {
    match r {
        Err(e) => e.1 == kind && e.0@ == message,
        Ok(_) => false,
    }
}

} // verus!
