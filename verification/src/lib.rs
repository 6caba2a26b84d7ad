//! Dense numeric matrices with checked arithmetic: construction, element
//! access, sums, products, transpose, determinant and inverse.

pub mod scalar;
pub mod model;
pub mod elimination;
pub mod rows;
pub mod determinant;
pub mod inverse;
pub mod error;
pub mod grid;
pub mod arithmetic;
pub mod edits;
pub mod algebra;
pub mod laws;
pub mod text;
pub mod matrix;
pub mod operations;
pub mod cmatrix;
pub mod matrix23;
pub mod matrix2;
pub mod matrix3;

pub use crate::cmatrix::{CMatrix, CMatrixTrait};
pub use crate::error::{Error, ErrorKind};
pub use crate::grid::Grid;
pub use crate::matrix::Matrix;
pub use crate::operations::Operations;
pub use crate::matrix2::Matrix2;
pub use crate::matrix23::Matrix23;
pub use crate::matrix3::Matrix3;
pub use crate::scalar::Scalar;
