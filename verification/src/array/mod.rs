//! A one-dimensional array with a small interface.

pub mod array;
pub mod carray;
pub mod std_ops;

pub use self::array::Array;
pub use self::carray::CArray;
