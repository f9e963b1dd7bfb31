//! The one-dimensional array.

pub mod arr;
pub mod carr;
pub mod random;
pub mod std_ops;

pub use self::arr::Arr;
pub use self::carr::{conj, pow, CArr};
pub use self::random::{rand_complex, randn_complex, Rand};
