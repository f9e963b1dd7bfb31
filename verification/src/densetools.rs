//! Dense storage addressed with a row-major flag.
//!
//! This is the addressing of `full` with the flag the other way round:
//! `row_major` here is `!col_major` there.

use vstd::prelude::*;
use core::fmt::Display;
use core::ops::{Add, Mul};
use crate::fold::reduce_terms_out;
use crate::full;
use crate::full::{
    is_identity, mat_mat_ok, mat_mat_out, mat_vec_ok, offset, row_of, shape_fits, to_string_out,
};
use crate::num::{is_one_value, is_zero_value};
use crate::slice::product_term;

verus! {

/// The offset of the element at (`row`, `col`): `row * n_col + col` in
/// row-major order, `col * n_row + row` in column-major order.
#[inline]
pub fn ix(n_row: usize, n_col: usize, row: usize, col: usize, row_major: bool) -> (i: usize)
    requires
        row < n_row,
        col < n_col,
        shape_fits(n_row, n_col),
    ensures
        i == offset(n_row as int, n_col as int, row as int, col as int, !row_major),
        i < n_row * n_col,
{
    full::ix(n_row, n_col, row, col, !row_major)
}

/// The element at (`row`, `col`).
#[inline]
pub fn get<T>(n_row: usize, n_col: usize, a_x: &[T], row: usize, col: usize, row_major: bool) -> (v:
    T) where T: Copy
    requires
        row < n_row,
        col < n_col,
        a_x.len() == n_row * n_col,
    ensures
        v == a_x[offset(n_row as int, n_col as int, row as int, col as int, !row_major)],
{
    full::get(n_row, n_col, a_x, row, col, !row_major)
}

/// Writes `v` at (`row`, `col`).
#[inline]
pub fn set<T>(
    n_row: usize,
    n_col: usize,
    a_x: &mut [T],
    row: usize,
    col: usize,
    v: T,
    row_major: bool,
)
    requires
        row < n_row,
        col < n_col,
        old(a_x).len() == n_row * n_col,
    ensures
        final(a_x)@ == old(a_x)@.update(
            offset(n_row as int, n_col as int, row as int, col as int, !row_major),
            v,
        ),
{
    full::set(n_row, n_col, a_x, row, col, v, !row_major)
}

/// A buffer of `n_row * n_col` zeros.
pub fn zeros<T>(n_row: usize, n_col: usize) -> (a_x: Vec<T>) where T: Clone + num_traits::Zero
    requires
        shape_fits(n_row, n_col),
    ensures
        a_x.len() == n_row * n_col,
        forall|i: int| 0 <= i < a_x.len() ==> is_zero_value(#[trigger] a_x[i]),
{
    full::zeros(n_row, n_col)
}

/// A buffer of `n_row * n_col` ones.
pub fn ones<T>(n_row: usize, n_col: usize) -> (a_x: Vec<T>) where T: Clone + num_traits::One
    requires
        shape_fits(n_row, n_col),
    ensures
        a_x.len() == n_row * n_col,
        forall|i: int| 0 <= i < a_x.len() ==> is_one_value(#[trigger] a_x[i]),
{
    full::ones(n_row, n_col)
}

/// The buffer of the `n` by `n` identity matrix.
pub fn identity<T>(n: usize) -> (a_x: Vec<T>) where T: Clone + num_traits::Zero + num_traits::One
    requires
        shape_fits(n, n),
    ensures
        is_identity(n as int, a_x@),
{
    full::identity(n)
}

/// Performs matrix-vector multiplication: entry `i` of the result is the dot
/// product of row `i` with `b`.
pub fn mat_vec<T>(n_row: usize, n_col: usize, a_x: &[T], b: &[T], row_major: bool) -> (y: Vec<
    T,
>) where T: Mul<Output = T> + Add<Output = T> + num_traits::Zero + Copy
    requires
        b.len() == n_col,
        a_x.len() == n_row * n_col,
        mat_vec_ok(n_row as int, n_col as int, a_x@, b@, !row_major),
    ensures
        y.len() == n_row,
        forall|i: int|
            0 <= i < n_row ==> reduce_terms_out(
                n_col as nat,
                product_term(row_of(n_row as int, n_col as int, a_x@, i, !row_major), b@),
                #[trigger] y[i],
            ),
{
    full::mat_vec(n_row, n_col, a_x, b, !row_major)
}

/// Performs matrix-matrix multiplication.
///
/// `b_row` must equal `a_col`. Returns the `a_row` by `b_col` product, in the
/// storage order of the operands.
pub fn mat_mat<T>(
    a_row: usize,
    a_col: usize,
    a_x: &[T],
    b_row: usize,
    b_col: usize,
    b_x: &[T],
    row_major: bool,
) -> (c_x: Vec<T>) where T: Mul<Output = T> + Add<Output = T> + num_traits::Zero + Copy
    requires
        a_col == b_row,
        a_x.len() == a_row * a_col,
        b_x.len() == b_row * b_col,
        shape_fits(a_row, b_col),
        mat_mat_ok(a_row as int, a_col as int, a_x@, b_col as int, b_x@, !row_major),
    ensures
        mat_mat_out(a_row as int, a_col as int, a_x@, b_col as int, b_x@, !row_major, c_x@),
{
    full::mat_mat(a_row, a_col, a_x, b_row, b_col, b_x, !row_major)
}

/// Renders the matrix as text: one row per line, the values of a row
/// separated by single spaces.
pub fn to_string<T>(n_row: usize, n_col: usize, a_x: &[T], row_major: bool) -> (out:
    String) where T: Copy + Display
    requires
        a_x.len() == n_row * n_col,
    ensures
        to_string_out(n_row as int, n_col as int, a_x@, !row_major, out@),
{
    full::to_string(n_row, n_col, a_x, !row_major)
}

} // verus!
