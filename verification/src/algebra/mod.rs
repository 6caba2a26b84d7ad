//! The determinant by expansion along a row or a column, and what holds of
//! it: that elimination computes it, that it survives the exchange of rows
//! and columns, and that the inverse found by elimination is an inverse.

pub mod minors;
pub mod correctness;
pub mod transpose;
pub mod inversion;
pub mod adjugate;
