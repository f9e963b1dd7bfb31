//! Complex matrices: taking them apart, value by value.

use vstd::prelude::*;
use crate::complex::{conj_out, imag_out, real_out, ComplexNumber};
use crate::traits::Float;
use crate::mat::mat::Mat;

verus! {

/// What a complex matrix offers beyond a matrix: `C` is the type of the
/// complex values, `F` the type of their real parts. Each method keeps the
/// shape and storage order.
pub trait CMat<C: ComplexNumber<F>, F>: Sized + View<V = Seq<C>> {
    /// The buffer holds exactly `rows * cols` values.
    spec fn wf(&self) -> bool;

    /// The number of rows.
    spec fn nrows(&self) -> int;

    /// The number of columns.
    spec fn ncols(&self) -> int;

    /// Whether the buffer is in column-major order.
    spec fn is_col_major(&self) -> bool;

    /// The real parts.
    fn real_part(&self) -> (m: Mat<F>)
        requires
            self.wf(),
        ensures
            m.wf(),
            m.nrows() == self.nrows(),
            m.ncols() == self.ncols(),
            m.is_col_major() == self.is_col_major(),
            forall|i: int| 0 <= i < self@.len() ==> real_out(self@[i], #[trigger] m@[i]),
    ;

    /// The imaginary parts.
    fn imag(&self) -> (m: Mat<F>)
        requires
            self.wf(),
        ensures
            m.wf(),
            m.nrows() == self.nrows(),
            m.ncols() == self.ncols(),
            m.is_col_major() == self.is_col_major(),
            forall|i: int| 0 <= i < self@.len() ==> imag_out(self@[i], #[trigger] m@[i]),
    ;

    /// The complex conjugates.
    fn conj(&self) -> (m: Mat<C>) where F: num_traits::Float
        requires
            self.wf(),
        ensures
            m.wf(),
            m.nrows() == self.nrows(),
            m.ncols() == self.ncols(),
            m.is_col_major() == self.is_col_major(),
            forall|i: int| 0 <= i < self@.len() ==> conj_out::<F, C>(self@[i], #[trigger] m@[i]),
    ;
}

impl<C, F> CMat<C, F> for Mat<C> where F: Float, C: ComplexNumber<F> {
    open spec fn wf(&self) -> bool {
        Mat::wf(self)
    }

    open spec fn nrows(&self) -> int {
        Mat::nrows(self)
    }

    open spec fn ncols(&self) -> int {
        Mat::ncols(self)
    }

    open spec fn is_col_major(&self) -> bool {
        Mat::is_col_major(self)
    }

    fn real_part(&self) -> (m: Mat<F>) {
        let a = self.values();
        let mut data: Vec<F> = Vec::new();
        let mut i: usize = 0;
        while i < a.len()
            invariant
                i <= a.len(),
                a@ == self@,
                data.len() == i,
                forall|j: int| 0 <= j < i ==> real_out(a[j], #[trigger] data[j]),
            decreases a.len() - i,
        {
            data.push(a[i].real_part());
            i += 1;
        }
        Mat::new(self.rows(), self.cols(), data, self.col_major())
    }

    fn imag(&self) -> (m: Mat<F>) {
        let a = self.values();
        let mut data: Vec<F> = Vec::new();
        let mut i: usize = 0;
        while i < a.len()
            invariant
                i <= a.len(),
                a@ == self@,
                data.len() == i,
                forall|j: int| 0 <= j < i ==> imag_out(a[j], #[trigger] data[j]),
            decreases a.len() - i,
        {
            data.push(a[i].imag());
            i += 1;
        }
        Mat::new(self.rows(), self.cols(), data, self.col_major())
    }

    fn conj(&self) -> (m: Mat<C>) where F: num_traits::Float {
        let a = self.values();
        let mut data: Vec<C> = Vec::new();
        let mut i: usize = 0;
        while i < a.len()
            invariant
                i <= a.len(),
                a@ == self@,
                data.len() == i,
                forall|j: int| 0 <= j < i ==> conj_out::<F, C>(a[j], #[trigger] data[j]),
            decreases a.len() - i,
        {
            data.push(a[i].conj());
            i += 1;
        }
        Mat::new(self.rows(), self.cols(), data, self.col_major())
    }
}

} // verus!
