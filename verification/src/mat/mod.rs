//! The dense matrix.

pub mod cmat;
pub mod mat;
pub mod std_ops;

pub use self::cmat::CMat;
pub use self::mat::Mat;
