//! `Matrix`: an owned dense matrix in row-major order.

use vstd::prelude::*;
use core::fmt::Display;
use core::ops::{Add, Mul};
use crate::densetools;
use crate::fold::reduce_terms_out;
use crate::full::{
    is_identity, mat_mat_ok, mat_mat_out, mat_vec_ok, offset, row_of, shape_fits, to_string_out,
};
use crate::num::{is_one_value, is_zero_value};
use crate::slice::product_term;

verus! {

/// A dense matrix in row-major order with a small interface: constructors,
/// products, arithmetic. `Mat` offers the same for both storage orders, and
/// more.
pub struct Matrix<T> {
    pub(crate) rows: usize,
    pub(crate) cols: usize,
    // Matrix element values stored in row-major order (C-style).
    pub(crate) data: Vec<T>,
}

impl<T> View for Matrix<T> {
    type V = Seq<T>;

    /// The buffer, row by row.
    closed spec fn view(&self) -> Seq<T> {
        self.data@
    }
}

impl<T> Matrix<T> {
    /// The number of rows.
    pub closed spec fn nrows(&self) -> int {
        self.rows as int
    }

    /// The number of columns.
    pub closed spec fn ncols(&self) -> int {
        self.cols as int
    }

    /// The buffer holds exactly `rows * cols` values.
    pub open spec fn wf(&self) -> bool {
        self@.len() == self.nrows() * self.ncols()
    }

    /// The value at (`row`, `col`).
    pub open spec fn at(&self, row: int, col: int) -> T {
        self@[offset(self.nrows(), self.ncols(), row, col, false)]
    }

    /// Row `row`, left to right.
    pub open spec fn row_seq(&self, row: int) -> Seq<T> {
        row_of(self.nrows(), self.ncols(), self@, row, false)
    }

    /// The matrix of the given shape that owns the buffer `data`.
    pub(crate) fn with_data(rows: usize, cols: usize, data: Vec<T>) -> (m: Self)
        requires
            data.len() == rows * cols,
        ensures
            m.wf(),
            m.nrows() == rows,
            m.ncols() == cols,
            m@ == data@,
    {
        Self { rows, cols, data }
    }

    /// Returns the number of rows.
    pub fn rows(&self) -> (r: usize)
        ensures
            r == self.nrows(),
    {
        self.rows
    }

    /// Returns the number of columns.
    pub fn cols(&self) -> (c: usize)
        ensures
            c == self.ncols(),
    {
        self.cols
    }

    /// The buffer, row by row.
    pub fn values(&self) -> (r: &[T])
        ensures
            r@ == self@,
    {
        self.data.as_slice()
    }

    /// The buffer, for writing. The shape stays as it is.
    pub(crate) fn values_mut(&mut self) -> (r: &mut [T])
        ensures
            r@ == old(self)@,
            final(self)@ == final(r)@,
            final(self).nrows() == old(self).nrows(),
            final(self).ncols() == old(self).ncols(),
    {
        self.data.as_mut_slice()
    }

    /// A matrix of zeros.
    pub fn zeros(rows: usize, cols: usize) -> (m: Self) where T: Clone + num_traits::Zero
        requires
            shape_fits(rows, cols),
        ensures
            m.wf(),
            m.nrows() == rows,
            m.ncols() == cols,
            forall|i: int| 0 <= i < m@.len() ==> is_zero_value(#[trigger] m@[i]),
    {
        Self { rows, cols, data: densetools::zeros(rows, cols) }
    }

    /// A matrix of ones.
    pub fn ones(rows: usize, cols: usize) -> (m: Self) where T: Clone + num_traits::One
        requires
            shape_fits(rows, cols),
        ensures
            m.wf(),
            m.nrows() == rows,
            m.ncols() == cols,
            forall|i: int| 0 <= i < m@.len() ==> is_one_value(#[trigger] m@[i]),
    {
        Self { rows, cols, data: densetools::ones(rows, cols) }
    }

    /// The `n` by `n` identity matrix: ones on the diagonal, zeros elsewhere.
    pub fn identity(n: usize) -> (m: Self) where T: Clone + num_traits::Zero + num_traits::One
        requires
            shape_fits(n, n),
        ensures
            m.wf(),
            m.nrows() == n,
            m.ncols() == n,
            is_identity(n as int, m@),
    {
        Self { rows: n, cols: n, data: densetools::identity(n) }
    }

    /// Renders the matrix as text: one row per line, the values of a row
    /// separated by single spaces.
    pub fn to_string(&self) -> (out: String) where T: Copy + Display
        requires
            self.wf(),
        ensures
            to_string_out(self.nrows(), self.ncols(), self@, false, out@),
    {
        densetools::to_string(self.rows, self.cols, self.data.as_slice(), true)
    }

    /// Multiplies the matrix with the vector `b`: entry `i` of the result is
    /// the dot product of row `i` with `b`.
    pub fn mat_vec(&self, b: &[T]) -> (y: Vec<T>) where
        T: Mul<Output = T> + Add<Output = T> + num_traits::Zero + Copy,

        requires
            self.wf(),
            b.len() == self.ncols(),
            mat_vec_ok(self.nrows(), self.ncols(), self@, b@, false),
        ensures
            y.len() == self.nrows(),
            forall|i: int|
                0 <= i < self.nrows() ==> reduce_terms_out(
                    self.ncols() as nat,
                    product_term(self.row_seq(i), b@),
                    #[trigger] y[i],
                ),
    {
        densetools::mat_vec(self.rows, self.cols, self.data.as_slice(), b, true)
    }

    /// Multiplies the matrix with the matrix `b`, which must have as many
    /// rows as this one has columns.
    pub fn mat_mat(&self, b: &Self) -> (m: Self) where
        T: Mul<Output = T> + Add<Output = T> + num_traits::Zero + Copy,

        requires
            self.wf(),
            b.wf(),
            self.ncols() == b.nrows(),
            shape_fits(self.nrows() as usize, b.ncols() as usize),
            mat_mat_ok(self.nrows(), self.ncols(), self@, b.ncols(), b@, false),
        ensures
            m.wf(),
            m.nrows() == self.nrows(),
            m.ncols() == b.ncols(),
            mat_mat_out(self.nrows(), self.ncols(), self@, b.ncols(), b@, false, m@),
    {
        Self {
            rows: self.rows,
            cols: b.cols,
            data: densetools::mat_mat(
                self.rows,
                self.cols,
                self.data.as_slice(),
                b.rows,
                b.cols,
                b.data.as_slice(),
                true,
            ),
        }
    }
}

} // verus!
