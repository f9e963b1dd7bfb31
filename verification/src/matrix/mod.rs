//! A row-major dense matrix with a small interface.

pub mod cmatrix;
pub mod matrix;
pub mod std_ops;

pub use self::cmatrix::CMatrix;
pub use self::matrix::Matrix;
