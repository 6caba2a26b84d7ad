//! Matrices as delimited text: writing, reading, and that reading gives back
//! what was written.

pub mod format;
pub mod parse;
pub mod round_trip;
