//! `Mat`: an owned dense matrix in row-major or column-major order.

use vstd::prelude::*;
use core::fmt::Display;
use core::ops::{Add, Mul};
use crate::fold::reduce_terms_out;
use crate::full;
use crate::full::{
    col_of, is_identity, mat_mat_ok, mat_mat_out, mat_vec_ok, offset, row_of, shape_fits,
    to_string_out,
};
use crate::num::{is_one_value, is_zero_value};
use crate::slice::product_term;

verus! {

/// A dense matrix.
///
/// It owns a row count, a column count, one buffer of `rows * cols` values
/// and a storage order, which is chosen when the matrix is made and never
/// changes.
#[derive(Clone)]
pub struct Mat<T> {
    pub(crate) rows: usize,
    pub(crate) cols: usize,
    // Matrix element values stored in row-major order (C-style)
    // or column-major (Fortran style) order.
    pub(crate) values: Vec<T>,
    pub(crate) col_major: bool,
}

impl<T> View for Mat<T> {
    type V = Seq<T>;

    /// The buffer, in storage order.
    closed spec fn view(&self) -> Seq<T> {
        self.values@
    }
}

impl<T> Mat<T> {
    /// The number of rows.
    pub closed spec fn nrows(&self) -> int {
        self.rows as int
    }

    /// The number of columns.
    pub closed spec fn ncols(&self) -> int {
        self.cols as int
    }

    /// Whether the buffer is in column-major order.
    pub closed spec fn is_col_major(&self) -> bool {
        self.col_major
    }

    /// The buffer holds exactly `rows * cols` values.
    pub open spec fn wf(&self) -> bool {
        self@.len() == self.nrows() * self.ncols()
    }

    /// The value at (`row`, `col`).
    pub open spec fn at(&self, row: int, col: int) -> T {
        self@[offset(self.nrows(), self.ncols(), row, col, self.is_col_major())]
    }

    /// Row `row`, left to right.
    pub open spec fn row_seq(&self, row: int) -> Seq<T> {
        row_of(self.nrows(), self.ncols(), self@, row, self.is_col_major())
    }

    /// Column `col`, top to bottom.
    pub open spec fn col_seq(&self, col: int) -> Seq<T> {
        col_of(self.nrows(), self.ncols(), self@, col, self.is_col_major())
    }

    /// The counts are non-negative and no greater than a `usize`.
    pub proof fn lemma_shape(&self)
        ensures
            0 <= self.nrows() <= usize::MAX,
            0 <= self.ncols() <= usize::MAX,
    {
    }

    /// The matrix of the given shape and storage order that owns the buffer
    /// `values`.
    pub fn new(rows: usize, cols: usize, values: Vec<T>, col_major: bool) -> (m: Self)
        requires
            values.len() == rows * cols,
        ensures
            m.wf(),
            m.nrows() == rows,
            m.ncols() == cols,
            m.is_col_major() == col_major,
            m@ == values@,
    {
        Self { rows, cols, values, col_major }
    }

    /// The matrix whose value at (`r`, `c`) is what `f(r, c)` gives. `f` is
    /// called once for each coordinate, in storage order.
    pub fn from_fn<F: Fn(usize, usize) -> T>(rows: usize, cols: usize, f: F, col_major: bool) -> (m:
        Self)
        requires
            shape_fits(rows, cols),
            forall|r: usize, c: usize| r < rows && c < cols ==> call_requires(f, (r, c)),
        ensures
            m.wf(),
            m.nrows() == rows,
            m.ncols() == cols,
            m.is_col_major() == col_major,
            forall|r: usize, c: usize|
                r < rows && c < cols ==> call_ensures(f, (r, c), #[trigger] m.at(r as int, c as int)),
    {
        let mut values: Vec<T> = Vec::new();
        let outer_n = if col_major {
            cols
        } else {
            rows
        };
        let inner_n = if col_major {
            rows
        } else {
            cols
        };
        let mut outer: usize = 0;
        while outer < outer_n
            invariant
                outer <= outer_n,
                shape_fits(rows, cols),
                outer_n == (if col_major {
                    cols
                } else {
                    rows
                }),
                inner_n == (if col_major {
                    rows
                } else {
                    cols
                }),
                forall|r: usize, c: usize| r < rows && c < cols ==> call_requires(f, (r, c)),
                values.len() == outer * inner_n,
                forall|r: usize, c: usize|
                    r < rows && c < cols && (if col_major {
                        c
                    } else {
                        r
                    }) < outer ==> call_ensures(
                        f,
                        (r, c),
                        #[trigger] values[offset(
                            rows as int,
                            cols as int,
                            r as int,
                            c as int,
                            col_major,
                        )],
                    ),
            decreases outer_n - outer,
        {
            let mut inner: usize = 0;
            while inner < inner_n
                invariant
                    inner <= inner_n,
                    outer < outer_n,
                    shape_fits(rows, cols),
                    outer_n == (if col_major {
                        cols
                    } else {
                        rows
                    }),
                    inner_n == (if col_major {
                        rows
                    } else {
                        cols
                    }),
                    forall|r: usize, c: usize| r < rows && c < cols ==> call_requires(f, (r, c)),
                    values.len() == outer * inner_n + inner,
                    forall|r: usize, c: usize|
                        r < rows && c < cols && ((if col_major {
                            c
                        } else {
                            r
                        }) < outer || ((if col_major {
                            c
                        } else {
                            r
                        }) == outer && (if col_major {
                            r
                        } else {
                            c
                        }) < inner)) ==> call_ensures(
                            f,
                            (r, c),
                            #[trigger] values[offset(
                                rows as int,
                                cols as int,
                                r as int,
                                c as int,
                                col_major,
                            )],
                        ),
                decreases inner_n - inner,
            {
                let r = if col_major {
                    inner
                } else {
                    outer
                };
                let c = if col_major {
                    outer
                } else {
                    inner
                };
                let ghost before = values@;
                let v = f(r, c);
                values.push(v);
                proof {
                    assert(before.len() == offset(
                        rows as int,
                        cols as int,
                        r as int,
                        c as int,
                        col_major,
                    ));
                    assert forall|r2: usize, c2: usize|
                        r2 < rows && c2 < cols && ((if col_major {
                            c2
                        } else {
                            r2
                        }) < outer || ((if col_major {
                            c2
                        } else {
                            r2
                        }) == outer && (if col_major {
                            r2
                        } else {
                            c2
                        }) < inner + 1)) implies call_ensures(
                        f,
                        (r2, c2),
                        #[trigger] values[offset(
                            rows as int,
                            cols as int,
                            r2 as int,
                            c2 as int,
                            col_major,
                        )],
                    ) by {
                        let o2 = offset(rows as int, cols as int, r2 as int, c2 as int, col_major);
                        if r2 == r && c2 == c {
                            assert(values[o2] == v);
                        } else {
                            lemma_offset_before(
                                rows as int,
                                cols as int,
                                r2 as int,
                                c2 as int,
                                r as int,
                                c as int,
                                col_major,
                            );
                            assert(values[o2] == before[o2]);
                        }
                    }
                }
                inner += 1;
            }
            proof {
                assert(outer * inner_n + inner_n == (outer + 1) * inner_n) by (nonlinear_arith);
            }
            outer += 1;
        }
        proof {
            assert(outer_n * inner_n == rows * cols) by (nonlinear_arith)
                requires
                    outer_n == (if col_major {
                        cols
                    } else {
                        rows
                    }),
                    inner_n == (if col_major {
                        rows
                    } else {
                        cols
                    }),
            ;
        }
        Self { rows, cols, values, col_major }
    }

    /// Returns the number of rows.
    pub fn rows(&self) -> (r: usize)
        ensures
            r == self.nrows(),
    {
        self.rows
    }

    /// Returns the number of columns.
    pub fn cols(&self) -> (c: usize)
        ensures
            c == self.ncols(),
    {
        self.cols
    }

    /// Returns the row count and the column count.
    pub fn shape(&self) -> (s: (usize, usize))
        ensures
            s.0 == self.nrows(),
            s.1 == self.ncols(),
    {
        (self.rows, self.cols)
    }

    /// The buffer, in storage order.
    pub fn values(&self) -> (r: &[T])
        ensures
            r@ == self@,
    {
        self.values.as_slice()
    }

    /// The buffer, for writing. Shape and storage order stay as they are.
    pub fn values_mut(&mut self) -> (r: &mut [T])
        ensures
            r@ == old(self)@,
            final(self)@ == final(r)@,
            final(self).nrows() == old(self).nrows(),
            final(self).ncols() == old(self).ncols(),
            final(self).is_col_major() == old(self).is_col_major(),
    {
        self.values.as_mut_slice()
    }

    /// Whether the buffer is in column-major order.
    pub fn col_major(&self) -> (c: bool)
        ensures
            c == self.is_col_major(),
    {
        self.col_major
    }

    /// A reference to the value at (`row`, `col`).
    pub fn get_ref(&self, row: usize, col: usize) -> (v: &T)
        requires
            self.wf(),
            row < self.nrows(),
            col < self.ncols(),
        ensures
            *v == self.at(row as int, col as int),
    {
        full::get_ref(self.rows, self.cols, self.values.as_slice(), row, col, self.col_major)
    }

    /// A mutable reference to the value at (`row`, `col`): what is written
    /// through it becomes the value there, and nothing else changes.
    pub fn get_ref_mut(&mut self, row: usize, col: usize) -> (v: &mut T)
        requires
            old(self).wf(),
            row < old(self).nrows(),
            col < old(self).ncols(),
        ensures
            *v == old(self).at(row as int, col as int),
            final(self)@ == old(self)@.update(
                offset(
                    old(self).nrows(),
                    old(self).ncols(),
                    row as int,
                    col as int,
                    old(self).is_col_major(),
                ),
                *final(v),
            ),
            final(self).nrows() == old(self).nrows(),
            final(self).ncols() == old(self).ncols(),
            final(self).is_col_major() == old(self).is_col_major(),
    {
        full::get_ref_mut(
            self.rows,
            self.cols,
            self.values.as_mut_slice(),
            row,
            col,
            self.col_major,
        )
    }

    /// A matrix of zeros.
    pub fn zeros(rows: usize, cols: usize, col_major: bool) -> (m: Self) where
        T: Clone + num_traits::Zero,

        requires
            shape_fits(rows, cols),
        ensures
            m.wf(),
            m.nrows() == rows,
            m.ncols() == cols,
            m.is_col_major() == col_major,
            forall|i: int| 0 <= i < m@.len() ==> is_zero_value(#[trigger] m@[i]),
    {
        Self { rows, cols, values: full::zeros(rows, cols), col_major }
    }

    /// A matrix of ones.
    pub fn ones(rows: usize, cols: usize, col_major: bool) -> (m: Self) where
        T: Clone + num_traits::One,

        requires
            shape_fits(rows, cols),
        ensures
            m.wf(),
            m.nrows() == rows,
            m.ncols() == cols,
            m.is_col_major() == col_major,
            forall|i: int| 0 <= i < m@.len() ==> is_one_value(#[trigger] m@[i]),
    {
        Self { rows, cols, values: full::ones(rows, cols), col_major }
    }

    /// The `n` by `n` identity matrix: ones on the diagonal, zeros elsewhere.
    pub fn identity(n: usize, col_major: bool) -> (m: Self) where
        T: Clone + num_traits::Zero + num_traits::One,

        requires
            shape_fits(n, n),
        ensures
            m.wf(),
            m.nrows() == n,
            m.ncols() == n,
            m.is_col_major() == col_major,
            is_identity(n as int, m@),
            forall|r: int, c: int|
                0 <= r < n && 0 <= c < n ==> if r == c {
                    is_one_value(#[trigger] m.at(r, c))
                } else {
                    is_zero_value(#[trigger] m.at(r, c))
                },
    {
        let m = Self { rows: n, cols: n, values: full::identity(n), col_major };
        proof {
            assert forall|r: int, c: int| 0 <= r < n && 0 <= c < n implies if r == c {
                is_one_value(#[trigger] m.at(r, c))
            } else {
                is_zero_value(#[trigger] m.at(r, c))
            } by {
                if col_major {
                    assert(m.at(r, c) == m@[offset(n as int, n as int, r, c, true)]);
                } else {
                    assert(m.at(r, c) == m@[offset(n as int, n as int, c, r, true)]);
                }
            }
        }
        m
    }

    /// The values of row `row`, left to right.
    pub fn row(&self, row: usize) -> (r: Vec<&T>)
        requires
            self.wf(),
            row < self.nrows(),
        ensures
            r.len() == self.ncols(),
            forall|c: int| 0 <= c < self.ncols() ==> *#[trigger] r[c] == self.at(row as int, c),
    {
        let mut r: Vec<&T> = Vec::new();
        let mut col: usize = 0;
        while col < self.cols
            invariant
                col <= self.cols,
                self.wf(),
                row < self.nrows(),
                r.len() == col,
                forall|c: int| 0 <= c < col ==> *#[trigger] r[c] == self.at(row as int, c),
            decreases self.cols - col,
        {
            r.push(self.get_ref(row, col));
            col += 1;
        }
        r
    }

    /// The values of column `col`, top to bottom.
    pub fn col(&self, col: usize) -> (r: Vec<&T>)
        requires
            self.wf(),
            col < self.ncols(),
        ensures
            r.len() == self.nrows(),
            forall|k: int| 0 <= k < self.nrows() ==> *#[trigger] r[k] == self.at(k, col as int),
    {
        let mut r: Vec<&T> = Vec::new();
        let mut row: usize = 0;
        while row < self.rows
            invariant
                row <= self.rows,
                self.wf(),
                col < self.ncols(),
                r.len() == row,
                forall|k: int| 0 <= k < row ==> *#[trigger] r[k] == self.at(k, col as int),
            decreases self.rows - row,
        {
            r.push(self.get_ref(row, col));
            row += 1;
        }
        r
    }

    /// Row `row` as a slice of the buffer. The matrix must be in row-major
    /// order.
    pub fn row_slice(&self, row: usize) -> (r: &[T])
        requires
            self.wf(),
            !self.is_col_major(),
            row < self.nrows(),
        ensures
            r@ == self.row_seq(row as int),
    {
        let total = self.values.len();
        proof {
            lemma_line_bounds(self.rows as int, self.cols as int, row as int);
            assert(self.values@.len() == self.rows * self.cols);
            assert(total == self.values@.len());
            assert(row * self.cols + self.cols <= self.rows * self.cols);
        }
        let i = row * self.cols;
        let j = i + self.cols;
        let r = &self.values.as_slice()[i..j];
        proof {
            assert(r@ =~= self.row_seq(row as int));
        }
        r
    }

    /// Column `col` as a slice of the buffer. The matrix must be in
    /// column-major order.
    pub fn col_slice(&self, col: usize) -> (r: &[T])
        requires
            self.wf(),
            self.is_col_major(),
            col < self.ncols(),
        ensures
            r@ == self.col_seq(col as int),
    {
        let total = self.values.len();
        proof {
            lemma_line_bounds(self.cols as int, self.rows as int, col as int);
            assert(self.rows * self.cols == self.cols * self.rows) by (nonlinear_arith);
            assert(self.values@.len() == self.rows * self.cols);
            assert(total == self.values@.len());
            assert(col * self.rows + self.rows <= self.cols * self.rows);
        }
        let i = col * self.rows;
        let j = i + self.rows;
        let r = &self.values.as_slice()[i..j];
        proof {
            assert(r@ =~= self.col_seq(col as int));
        }
        r
    }

    /// Row `row` as a slice of the buffer, for writing: what is written
    /// through it becomes that row, and nothing else changes. The matrix must
    /// be in row-major order.
    pub fn row_slice_mut(&mut self, row: usize) -> (r: &mut [T])
        requires
            old(self).wf(),
            !old(self).is_col_major(),
            row < old(self).nrows(),
        ensures
            r@ == old(self).row_seq(row as int),
            final(self)@ == old(self)@.subrange(0, row * old(self).ncols()) + final(r)@ + old(
                self,
            )@.subrange((row + 1) * old(self).ncols(), old(self)@.len() as int),
            final(self).nrows() == old(self).nrows(),
            final(self).ncols() == old(self).ncols(),
            final(self).is_col_major() == old(self).is_col_major(),
    {
        let total = self.values.len();
        proof {
            lemma_line_bounds(self.rows as int, self.cols as int, row as int);
            assert((row + 1) * self.cols == row * self.cols + self.cols) by (nonlinear_arith);
            assert(self.values@.len() == self.rows * self.cols);
            assert(total == self.values@.len());
            assert(row * self.cols + self.cols <= self.rows * self.cols);
        }
        let i = row * self.cols;
        let n = self.cols;
        let ghost whole = self.values@;
        let ghost this = *self;
        let (_head, rest) = self.values.as_mut_slice().split_at_mut(i);
        let (line, _tail) = rest.split_at_mut(n);
        proof {
            assert(line@ =~= this.row_seq(row as int));
            assert(whole.subrange(i as int, whole.len() as int).subrange(n as int, whole.len() - i)
                =~= whole.subrange(i + n, whole.len() as int));
        }
        line
    }

    /// Column `col` as a slice of the buffer, for writing: what is written
    /// through it becomes that column, and nothing else changes. The matrix
    /// must be in column-major order.
    pub fn col_slice_mut(&mut self, col: usize) -> (r: &mut [T])
        requires
            old(self).wf(),
            old(self).is_col_major(),
            col < old(self).ncols(),
        ensures
            r@ == old(self).col_seq(col as int),
            final(self)@ == old(self)@.subrange(0, col * old(self).nrows()) + final(r)@ + old(
                self,
            )@.subrange((col + 1) * old(self).nrows(), old(self)@.len() as int),
            final(self).nrows() == old(self).nrows(),
            final(self).ncols() == old(self).ncols(),
            final(self).is_col_major() == old(self).is_col_major(),
    {
        let total = self.values.len();
        proof {
            lemma_line_bounds(self.cols as int, self.rows as int, col as int);
            assert(self.rows * self.cols == self.cols * self.rows) by (nonlinear_arith);
            assert((col + 1) * self.rows == col * self.rows + self.rows) by (nonlinear_arith);
            assert(self.values@.len() == self.rows * self.cols);
            assert(total == self.values@.len());
            assert(col * self.rows + self.rows <= self.cols * self.rows);
        }
        let i = col * self.rows;
        let n = self.rows;
        let ghost whole = self.values@;
        let ghost this = *self;
        let (_head, rest) = self.values.as_mut_slice().split_at_mut(i);
        let (line, _tail) = rest.split_at_mut(n);
        proof {
            assert(line@ =~= this.col_seq(col as int));
            assert(whole.subrange(i as int, whole.len() as int).subrange(n as int, whole.len() - i)
                =~= whole.subrange(i + n, whole.len() as int));
        }
        line
    }

    /// The rows, top to bottom, each as a slice of the buffer. The matrix
    /// must be in row-major order.
    pub fn row_iter(&self) -> (r: Vec<&[T]>)
        requires
            self.wf(),
            !self.is_col_major(),
        ensures
            r.len() == self.nrows(),
            forall|k: int| 0 <= k < self.nrows() ==> (#[trigger] r[k])@ == self.row_seq(k),
    {
        let mut r: Vec<&[T]> = Vec::new();
        let mut row: usize = 0;
        while row < self.rows
            invariant
                row <= self.rows,
                self.wf(),
                !self.is_col_major(),
                r.len() == row,
                forall|k: int| 0 <= k < row ==> (#[trigger] r[k])@ == self.row_seq(k),
            decreases self.rows - row,
        {
            r.push(self.row_slice(row));
            row += 1;
        }
        r
    }

    /// The columns, left to right, each as a slice of the buffer. The matrix
    /// must be in column-major order.
    pub fn col_iter(&self) -> (r: Vec<&[T]>)
        requires
            self.wf(),
            self.is_col_major(),
        ensures
            r.len() == self.ncols(),
            forall|k: int| 0 <= k < self.ncols() ==> (#[trigger] r[k])@ == self.col_seq(k),
    {
        let mut r: Vec<&[T]> = Vec::new();
        let mut col: usize = 0;
        while col < self.cols
            invariant
                col <= self.cols,
                self.wf(),
                self.is_col_major(),
                r.len() == col,
                forall|k: int| 0 <= k < col ==> (#[trigger] r[k])@ == self.col_seq(k),
            decreases self.cols - col,
        {
            r.push(self.col_slice(col));
            col += 1;
        }
        r
    }

    /// A new matrix that holds the rows `rows` of this one, in that order.
    /// It is in row-major order, whatever the order of this one.
    pub fn select_rows(&self, rows: &[usize]) -> (m: Self) where T: Clone
        requires
            self.wf(),
            shape_fits(rows.len(), self.ncols() as usize),
            forall|k: int| 0 <= k < rows.len() ==> rows[k] < self.nrows(),
        ensures
            m.wf(),
            m.nrows() == rows.len(),
            m.ncols() == self.ncols(),
            !m.is_col_major(),
            forall|k: int, c: int|
                0 <= k < rows.len() && 0 <= c < self.ncols() ==> cloned(
                    self.at(rows[k] as int, c),
                    #[trigger] m.at(k, c),
                ),
    {
        let mut data: Vec<T> = Vec::new();
        let mut k: usize = 0;
        while k < rows.len()
            invariant
                k <= rows.len(),
                self.wf(),
                shape_fits(rows.len(), self.cols),
                forall|j: int| 0 <= j < rows.len() ==> rows[j] < self.nrows(),
                data.len() == k * self.cols,
                forall|j: int, c: int|
                    0 <= j < k && 0 <= c < self.cols ==> cloned(
                        self.at(rows[j] as int, c),
                        #[trigger] data[offset(rows.len() as int, self.cols as int, j, c, false)],
                    ),
            decreases rows.len() - k,
        {
            let r = rows[k];
            let mut c: usize = 0;
            while c < self.cols
                invariant
                    c <= self.cols,
                    k < rows.len(),
                    r == rows[k as int],
                    self.wf(),
                    shape_fits(rows.len(), self.cols),
                    forall|j: int| 0 <= j < rows.len() ==> rows[j] < self.nrows(),
                    data.len() == k * self.cols + c,
                    forall|j: int, d: int|
                        (0 <= j < k && 0 <= d < self.cols) || (j == k && 0 <= d < c) ==> cloned(
                            self.at(rows[j] as int, d),
                            #[trigger] data[offset(
                                rows.len() as int,
                                self.cols as int,
                                j,
                                d,
                                false,
                            )],
                        ),
                decreases self.cols - c,
            {
                let ghost before = data@;
                let v = self.get_ref(r, c).clone();
                data.push(v);
                proof {
                    assert forall|j: int, d: int|
                        (0 <= j < k && 0 <= d < self.cols) || (j == k && 0 <= d < c + 1) implies cloned(
                        self.at(rows[j] as int, d),
                        #[trigger] data[offset(rows.len() as int, self.cols as int, j, d, false)],
                    ) by {
                        let o = offset(rows.len() as int, self.cols as int, j, d, false);
                        if j == k && d == c {
                            assert(data[o] == v);
                        } else {
                            lemma_offset_before(
                                rows.len() as int,
                                self.cols as int,
                                j,
                                d,
                                k as int,
                                c as int,
                                false,
                            );
                            assert(data[o] == before[o]);
                        }
                    }
                }
                c += 1;
            }
            proof {
                assert(k * self.cols + self.cols == (k + 1) * self.cols) by (nonlinear_arith);
            }
            k += 1;
        }
        Self { rows: rows.len(), cols: self.cols, values: data, col_major: false }
    }

    /// Renders the matrix as text: one row per line, the values of a row
    /// separated by single spaces.
    pub fn to_string(&self) -> (out: String) where T: Copy + Display
        requires
            self.wf(),
        ensures
            to_string_out(self.nrows(), self.ncols(), self@, self.is_col_major(), out@),
    {
        full::to_string(self.rows, self.cols, self.values.as_slice(), self.col_major)
    }

    /// Multiplies the matrix with the vector `b`: entry `i` of the result is
    /// the dot product of row `i` with `b`.
    pub fn mat_vec(&self, b: &[T]) -> (y: Vec<T>) where
        T: Mul<Output = T> + Add<Output = T> + num_traits::Zero + Copy,

        requires
            self.wf(),
            b.len() == self.ncols(),
            mat_vec_ok(self.nrows(), self.ncols(), self@, b@, self.is_col_major()),
        ensures
            y.len() == self.nrows(),
            forall|i: int|
                0 <= i < self.nrows() ==> reduce_terms_out(
                    self.ncols() as nat,
                    product_term(self.row_seq(i), b@),
                    #[trigger] y[i],
                ),
    {
        full::mat_vec(self.rows, self.cols, self.values.as_slice(), b, self.col_major)
    }

    /// Multiplies the matrix with the matrix `b`, which must have as many
    /// rows as this one has columns, and the same storage order. The product
    /// has that storage order too.
    pub fn mat_mat(&self, b: &Self) -> (m: Self) where
        T: Mul<Output = T> + Add<Output = T> + num_traits::Zero + Copy,

        requires
            self.wf(),
            b.wf(),
            self.ncols() == b.nrows(),
            self.is_col_major() == b.is_col_major(),
            shape_fits(self.nrows() as usize, b.ncols() as usize),
            mat_mat_ok(self.nrows(), self.ncols(), self@, b.ncols(), b@, self.is_col_major()),
        ensures
            m.wf(),
            m.nrows() == self.nrows(),
            m.ncols() == b.ncols(),
            m.is_col_major() == self.is_col_major(),
            mat_mat_out(
                self.nrows(),
                self.ncols(),
                self@,
                b.ncols(),
                b@,
                self.is_col_major(),
                m@,
            ),
    {
        Self {
            rows: self.rows,
            cols: b.cols,
            values: full::mat_mat(
                self.rows,
                self.cols,
                self.values.as_slice(),
                b.rows,
                b.cols,
                b.values.as_slice(),
                self.col_major,
            ),
            col_major: self.col_major,
        }
    }
}

impl<T> vstd::std_specs::core::IndexSpecImpl<(usize, usize)> for Mat<T> {
    /// Indexing asks for a coordinate inside the shape.
    open spec fn index_req(&self, index: &(usize, usize)) -> bool {
        &&& self.wf()
        &&& index.0 < self.nrows()
        &&& index.1 < self.ncols()
    }
}

impl<T> core::ops::Index<(usize, usize)> for Mat<T> {
    type Output = T;

    /// `self[(row, col)]`: see `get_ref`.
    fn index(&self, index: (usize, usize)) -> (v: &T)
        ensures
            *v == self.at(index.0 as int, index.1 as int),
    {
        let (r, c) = index;
        self.get_ref(r, c)
    }
}

/// Line `k` of `n` lines of `len` values each lies inside the buffer.
proof fn lemma_line_bounds(n: int, len: int, k: int)
    requires
        0 <= k < n,
        0 <= len,
    ensures
        0 <= k * len,
        k * len + len <= n * len,
{
    assert(0 <= k * len && k * len + len <= n * len) by (nonlinear_arith)
        requires
            0 <= k < n,
            0 <= len,
    ;
}

/// A coordinate that comes before (`r`, `c`) in storage order has a smaller
/// offset.
proof fn lemma_offset_before(
    n_row: int,
    n_col: int,
    r2: int,
    c2: int,
    r: int,
    c: int,
    col_major: bool,
)
    requires
        0 <= r < n_row,
        0 <= c < n_col,
        0 <= r2 < n_row,
        0 <= c2 < n_col,
        if col_major {
            c2 < c || (c2 == c && r2 < r)
        } else {
            r2 < r || (r2 == r && c2 < c)
        },
    ensures
        0 <= offset(n_row, n_col, r2, c2, col_major) < offset(n_row, n_col, r, c, col_major),
{
    if col_major {
        assert(0 <= c2 * n_row + r2 < c * n_row + r) by (nonlinear_arith)
            requires
                0 <= r < n_row,
                0 <= r2 < n_row,
                0 <= c2,
                c2 < c || (c2 == c && r2 < r),
        ;
    } else {
        assert(0 <= r2 * n_col + c2 < r * n_col + c) by (nonlinear_arith)
            requires
                0 <= c < n_col,
                0 <= c2 < n_col,
                0 <= r2,
                r2 < r || (r2 == r && c2 < c),
        ;
    }
}

} // verus!
