//! Generic numeric arrays and dense matrices.
//!
//! The library has two containers, the one-dimensional [`Arr`] and the
//! two-dimensional [`Mat`], over any numeric element type: element-wise
//! arithmetic, reductions, sorting that keeps track of the permutation,
//! complex decomposition, and matrix products in row-major or column-major
//! storage.
//!
//! The element type is a parameter, so the contracts do not say what a sum
//! *is*. They say which results an operation on given operands may give (see
//! [`elem`]) and build everything else on that: a reduction is a chain of
//! such results, a mask holds ones and zeros of its element type. For an
//! element type whose arithmetic has a specification, such as the machine
//! integers, this pins every result to one value; [`laws`] holds what
//! follows.

pub mod arr;
pub mod array;
pub mod complex;
pub mod densetools;
pub mod elem;
pub mod elementwise;
pub mod fold;
pub mod full;
pub mod iter;
pub mod laws;
pub mod mat;
pub mod matrix;
pub mod num;
pub mod order;
pub mod random;
pub mod slice;
pub mod sort;
pub mod text;
pub mod traits;

pub use crate::arr::{conj, pow, rand_complex, randn_complex, Arr, CArr, Rand};
pub use crate::mat::{CMat, Mat};
pub use crate::complex::ComplexNumber;
pub use crate::traits::{Abs, ArcCos, ArcSin, Cos, Exp, Float, IsNaN, Ln, Norm, Round, Scalar, Sin, Sqrt};
