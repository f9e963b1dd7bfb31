//! Dense row-major and column-major storage in one flat buffer.

use vstd::prelude::*;
use core::fmt::Display;
use core::ops::{Add, Mul};
use crate::fold::{reduce_terms_ok, reduce_terms_out, sum_terms_ok, sum_terms_out};
use crate::num::{is_one_value, is_zero_value, one, zero};
use crate::slice::{dot, dot_onto, product_term, products_ok};
use crate::text::{join_lines, joined, line_shown, render_line};

verus! {

/// The offset of the element at (`row`, `col`) in the buffer of an `n_row` by
/// `n_col` matrix: `col * n_row + row` in column-major order,
/// `row * n_col + col` in row-major order.
pub open spec fn offset(n_row: int, n_col: int, row: int, col: int, col_major: bool) -> int {
    if col_major {
        col * n_row + row
    } else {
        row * n_col + col
    }
}

/// The shape fits a buffer: its element count is a `usize`.
pub open spec fn shape_fits(n_row: usize, n_col: usize) -> bool {
    n_row * n_col <= usize::MAX
}

/// An offset inside the shape lies inside the buffer, and the products that
/// make it up do not exceed the element count.
pub proof fn lemma_offset_bounds(n_row: int, n_col: int, row: int, col: int, col_major: bool)
    requires
        0 <= row < n_row,
        0 <= col < n_col,
    ensures
        0 <= offset(n_row, n_col, row, col, col_major) < n_row * n_col,
        0 <= col * n_row <= n_row * n_col,
        0 <= row * n_col <= n_row * n_col,
{
    assert(0 <= col * n_row && col * n_row + n_row <= n_row * n_col) by (nonlinear_arith)
        requires
            0 <= row < n_row,
            0 <= col < n_col,
    ;
    assert(0 <= row * n_col && row * n_col + n_col <= n_row * n_col) by (nonlinear_arith)
        requires
            0 <= row < n_row,
            0 <= col < n_col,
    ;
}

/// Two coordinates inside the shape share an offset only where they are the
/// same coordinate.
pub proof fn lemma_offset_injective(
    n_row: int,
    n_col: int,
    r1: int,
    c1: int,
    r2: int,
    c2: int,
    col_major: bool,
)
    requires
        0 <= r1 < n_row,
        0 <= c1 < n_col,
        0 <= r2 < n_row,
        0 <= c2 < n_col,
        offset(n_row, n_col, r1, c1, col_major) == offset(n_row, n_col, r2, c2, col_major),
    ensures
        r1 == r2,
        c1 == c2,
{
    if col_major {
        assert(c1 == c2 && r1 == r2) by (nonlinear_arith)
            requires
                0 <= r1 < n_row,
                0 <= r2 < n_row,
                0 <= c1,
                0 <= c2,
                c1 * n_row + r1 == c2 * n_row + r2,
        ;
    } else {
        assert(c1 == c2 && r1 == r2) by (nonlinear_arith)
            requires
                0 <= c1 < n_col,
                0 <= c2 < n_col,
                0 <= r1,
                0 <= r2,
                r1 * n_col + c1 == r2 * n_col + c2,
        ;
    }
}

/// The offset of the element at (`row`, `col`).
#[inline]
pub fn ix(n_row: usize, n_col: usize, row: usize, col: usize, col_major: bool) -> (i: usize)
    requires
        row < n_row,
        col < n_col,
        shape_fits(n_row, n_col),
    ensures
        i == offset(n_row as int, n_col as int, row as int, col as int, col_major),
        i < n_row * n_col,
{
    proof {
        lemma_offset_bounds(n_row as int, n_col as int, row as int, col as int, col_major);
    }
    if col_major {
        col * n_row + row
    } else {
        row * n_col + col
    }
}

/// The element at (`row`, `col`).
#[inline]
pub fn get<T>(n_row: usize, n_col: usize, a_x: &[T], row: usize, col: usize, col_major: bool) -> (v:
    T) where T: Copy
    requires
        row < n_row,
        col < n_col,
        a_x.len() == n_row * n_col,
    ensures
        v == a_x[offset(n_row as int, n_col as int, row as int, col as int, col_major)],
{
    a_x[ix(n_row, n_col, row, col, col_major)]
}

/// A reference to the element at (`row`, `col`).
#[inline]
pub fn get_ref<T>(
    n_row: usize,
    n_col: usize,
    a_x: &[T],
    row: usize,
    col: usize,
    col_major: bool,
) -> (v: &T)
    requires
        row < n_row,
        col < n_col,
        a_x.len() == n_row * n_col,
    ensures
        *v == a_x[offset(n_row as int, n_col as int, row as int, col as int, col_major)],
{
    &a_x[ix(n_row, n_col, row, col, col_major)]
}

/// A mutable reference to the element at (`row`, `col`): what is written
/// through it lands at that offset, and nothing else changes.
#[inline]
pub fn get_ref_mut<T>(
    n_row: usize,
    n_col: usize,
    a_x: &mut [T],
    row: usize,
    col: usize,
    col_major: bool,
) -> (v: &mut T)
    requires
        row < n_row,
        col < n_col,
        old(a_x).len() == n_row * n_col,
    ensures
        *v == old(a_x)[offset(n_row as int, n_col as int, row as int, col as int, col_major)],
        final(a_x)@ == old(a_x)@.update(
            offset(n_row as int, n_col as int, row as int, col as int, col_major),
            *final(v),
        ),
{
    &mut a_x[ix(n_row, n_col, row, col, col_major)]
}

/// Writes `v` at (`row`, `col`).
#[inline]
pub fn set<T>(
    n_row: usize,
    n_col: usize,
    a_x: &mut [T],
    row: usize,
    col: usize,
    v: T,
    col_major: bool,
)
    requires
        row < n_row,
        col < n_col,
        old(a_x).len() == n_row * n_col,
    ensures
        final(a_x)@ == old(a_x)@.update(
            offset(n_row as int, n_col as int, row as int, col as int, col_major),
            v,
        ),
{
    a_x[ix(n_row, n_col, row, col, col_major)] = v
}

/// A buffer of `n_row * n_col` zeros.
pub fn zeros<T>(n_row: usize, n_col: usize) -> (a_x: Vec<T>) where T: Clone + num_traits::Zero
    requires
        shape_fits(n_row, n_col),
    ensures
        a_x.len() == n_row * n_col,
        forall|i: int| 0 <= i < a_x.len() ==> is_zero_value(#[trigger] a_x[i]),
{
    let n = n_row * n_col;
    let mut a_x: Vec<T> = Vec::new();
    let mut i: usize = 0;
    while i < n
        invariant
            i <= n,
            a_x.len() == i,
            forall|j: int| 0 <= j < i ==> is_zero_value(#[trigger] a_x[j]),
        decreases n - i,
    {
        a_x.push(zero());
        i += 1;
    }
    a_x
}

/// A buffer of `n_row * n_col` ones.
pub fn ones<T>(n_row: usize, n_col: usize) -> (a_x: Vec<T>) where T: Clone + num_traits::One
    requires
        shape_fits(n_row, n_col),
    ensures
        a_x.len() == n_row * n_col,
        forall|i: int| 0 <= i < a_x.len() ==> is_one_value(#[trigger] a_x[i]),
{
    let n = n_row * n_col;
    let mut a_x: Vec<T> = Vec::new();
    let mut i: usize = 0;
    while i < n
        invariant
            i <= n,
            a_x.len() == i,
            forall|j: int| 0 <= j < i ==> is_one_value(#[trigger] a_x[j]),
        decreases n - i,
    {
        a_x.push(one());
        i += 1;
    }
    a_x
}

/// `a_x` holds the `n` by `n` identity: a one of `T` at each (`i`, `i`), a
/// zero of `T` everywhere else. Both storage orders give the same buffer.
pub open spec fn is_identity<T: num_traits::Zero + num_traits::One>(n: int, a_x: Seq<T>) -> bool {
    &&& a_x.len() == n * n
    &&& forall|r: int, c: int|
        0 <= r < n && 0 <= c < n ==> if r == c {
            is_one_value(#[trigger] a_x[offset(n, n, r, c, true)])
        } else {
            is_zero_value(#[trigger] a_x[offset(n, n, r, c, true)])
        }
}

/// The buffer of the `n` by `n` identity matrix.
pub fn identity<T>(n: usize) -> (a_x: Vec<T>) where T: Clone + num_traits::Zero + num_traits::One
    requires
        shape_fits(n, n),
    ensures
        is_identity(n as int, a_x@),
{
    let mut a_x: Vec<T> = zeros(n, n);
    let mut i: usize = 0;
    proof {
        assert forall|r: int, c: int| 0 <= r < n && 0 <= c < n implies 0 <= #[trigger] offset(
            n as int,
            n as int,
            r,
            c,
            true,
        ) < n * n by {
            lemma_offset_bounds(n as int, n as int, r, c, true);
        }
    }
    while i < n
        invariant
            i <= n,
            a_x.len() == n * n,
            forall|r: int, c: int|
                0 <= r < n && 0 <= c < n ==> 0 <= #[trigger] offset(n as int, n as int, r, c, true)
                    < n * n,
            forall|r: int, c: int|
                0 <= r < n && 0 <= c < n ==> if r == c && r < i {
                    is_one_value(#[trigger] a_x[offset(n as int, n as int, r, c, true)])
                } else {
                    is_zero_value(#[trigger] a_x[offset(n as int, n as int, r, c, true)])
                },
        decreases n - i,
    {
        let ghost before = a_x@;
        let at = ix(n, n, i, i, true);
        a_x[at] = one();
        proof {
            assert forall|r: int, c: int| 0 <= r < n && 0 <= c < n implies if r == c && r < i + 1 {
                is_one_value(#[trigger] a_x[offset(n as int, n as int, r, c, true)])
            } else {
                is_zero_value(#[trigger] a_x[offset(n as int, n as int, r, c, true)])
            } by {
                lemma_offset_bounds(n as int, n as int, r, c, true);
                if r != i || c != i {
                    if offset(n as int, n as int, r, c, true) == at {
                        lemma_offset_injective(n as int, n as int, r, c, i as int, i as int, true);
                    }
                    assert(a_x[offset(n as int, n as int, r, c, true)] == before[offset(
                        n as int,
                        n as int,
                        r,
                        c,
                        true,
                    )]);
                }
            }
        }
        i += 1;
    }
    a_x
}

/// `a_x` holds the `n` by `n` identity over the values `zero` and `one`:
/// `one` at each (`i`, `i`), `zero` everywhere else.
pub open spec fn is_identity_of<T>(n: int, zero: T, one: T, a_x: Seq<T>) -> bool {
    &&& a_x.len() == n * n
    &&& forall|r: int, c: int|
        0 <= r < n && 0 <= c < n ==> #[trigger] a_x[offset(n, n, r, c, true)] == (if r == c {
            one
        } else {
            zero
        })
}

/// The buffer of the `n` by `n` identity matrix over the given values:
/// `one` on the diagonal, `zero` elsewhere.
pub fn identity_with<T>(n: usize, zero: T, one: T) -> (a_x: Vec<T>) where T: Copy
    requires
        shape_fits(n, n),
    ensures
        is_identity_of(n as int, zero, one, a_x@),
{
    let mut a_x: Vec<T> = Vec::new();
    let mut c: usize = 0;
    while c < n
        invariant
            c <= n,
            shape_fits(n, n),
            a_x.len() == c * n,
            forall|r: int, d: int|
                0 <= r < n && 0 <= d < c ==> #[trigger] a_x[offset(n as int, n as int, r, d, true)]
                    == (if r == d {
                    one
                } else {
                    zero
                }),
        decreases n - c,
    {
        let mut r: usize = 0;
        while r < n
            invariant
                r <= n,
                c < n,
                shape_fits(n, n),
                a_x.len() == c * n + r,
                forall|p: int, d: int|
                    0 <= p < n && (0 <= d < c || (d == c && p < r)) ==> #[trigger] a_x[offset(
                        n as int,
                        n as int,
                        p,
                        d,
                        true,
                    )] == (if p == d {
                        one
                    } else {
                        zero
                    }),
            decreases n - r,
        {
            let ghost before = a_x@;
            let v = if r == c {
                one
            } else {
                zero
            };
            a_x.push(v);
            proof {
                assert forall|p: int, d: int|
                    0 <= p < n && (0 <= d < c || (d == c && p < r + 1)) implies #[trigger] a_x[offset(
                    n as int,
                    n as int,
                    p,
                    d,
                    true,
                )] == (if p == d {
                    one
                } else {
                    zero
                }) by {
                    let o = offset(n as int, n as int, p, d, true);
                    if p == r && d == c {
                        assert(o == before.len());
                    } else {
                        assert(0 <= o < before.len()) by (nonlinear_arith)
                            requires
                                o == d * n + p,
                                before.len() == c * n + r,
                                0 <= p < n,
                                0 <= d < c || (d == c && p < r),
                        ;
                        assert(a_x[o] == before[o]);
                    }
                }
            }
            r += 1;
        }
        proof {
            assert(c * n + n == (c + 1) * n) by (nonlinear_arith);
        }
        c += 1;
    }
    a_x
}

/// Row `row` of the matrix stored in `a_x`, left to right.
pub open spec fn row_of<T>(n_row: int, n_col: int, a_x: Seq<T>, row: int, col_major: bool) -> Seq<
    T,
> {
    Seq::new(n_col as nat, |col: int| a_x[offset(n_row, n_col, row, col, col_major)])
}

/// Column `col` of the matrix stored in `a_x`, top to bottom.
pub open spec fn col_of<T>(n_row: int, n_col: int, a_x: Seq<T>, col: int, col_major: bool) -> Seq<
    T,
> {
    Seq::new(n_row as nat, |row: int| a_x[offset(n_row, n_col, row, col, col_major)])
}

/// Copies row `row` out of the buffer.
fn row_values<T>(n_row: usize, n_col: usize, a_x: &[T], row: usize, col_major: bool) -> (r: Vec<
    T,
>) where T: Copy
    requires
        row < n_row,
        a_x.len() == n_row * n_col,
    ensures
        r@ == row_of(n_row as int, n_col as int, a_x@, row as int, col_major),
{
    let mut r: Vec<T> = Vec::new();
    let mut col: usize = 0;
    while col < n_col
        invariant
            col <= n_col,
            row < n_row,
            a_x.len() == n_row * n_col,
            r.len() == col,
            forall|c: int|
                0 <= c < col ==> #[trigger] r[c] == a_x[offset(
                    n_row as int,
                    n_col as int,
                    row as int,
                    c,
                    col_major,
                )],
        decreases n_col - col,
    {
        r.push(get(n_row, n_col, a_x, row, col, col_major));
        col += 1;
    }
    proof {
        assert(r@ =~= row_of(n_row as int, n_col as int, a_x@, row as int, col_major));
    }
    r
}

/// Every operation that the dot product of each row with `b` can reach may
/// be applied.
pub open spec fn mat_vec_ok<T: Mul<Output = T> + Add<Output = T>>(
    n_row: int,
    n_col: int,
    a_x: Seq<T>,
    b: Seq<T>,
    col_major: bool,
) -> bool {
    forall|row: int|
        0 <= row < n_row ==> {
            &&& products_ok(#[trigger] row_of(n_row, n_col, a_x, row, col_major), b)
            &&& reduce_terms_ok(
                n_col as nat,
                product_term(row_of(n_row, n_col, a_x, row, col_major), b),
            )
        }
}

/// Performs matrix-vector multiplication: entry `i` of the result is the dot
/// product of row `i` with `b`.
pub fn mat_vec<T>(n_row: usize, n_col: usize, a_x: &[T], b: &[T], col_major: bool) -> (y: Vec<
    T,
>) where T: Mul<Output = T> + Add<Output = T> + num_traits::Zero + Copy
    requires
        b.len() == n_col,
        a_x.len() == n_row * n_col,
        mat_vec_ok(n_row as int, n_col as int, a_x@, b@, col_major),
    ensures
        y.len() == n_row,
        forall|i: int|
            0 <= i < n_row ==> reduce_terms_out(
                n_col as nat,
                product_term(row_of(n_row as int, n_col as int, a_x@, i, col_major), b@),
                #[trigger] y[i],
            ),
{
    let mut y: Vec<T> = Vec::new();
    let mut i: usize = 0;
    while i < n_row
        invariant
            i <= n_row,
            b.len() == n_col,
            a_x.len() == n_row * n_col,
            mat_vec_ok(n_row as int, n_col as int, a_x@, b@, col_major),
            y.len() == i,
            forall|j: int|
                0 <= j < i ==> reduce_terms_out(
                    n_col as nat,
                    product_term(row_of(n_row as int, n_col as int, a_x@, j, col_major), b@),
                    #[trigger] y[j],
                ),
        decreases n_row - i,
    {
        let row = row_values(n_row, n_col, a_x, i, col_major);
        assert(products_ok(row_of(n_row as int, n_col as int, a_x@, i as int, col_major), b@));
        y.push(dot(row.as_slice(), b));
        i += 1;
    }
    y
}

/// Copies column `col` out of the buffer.
fn col_values<T>(n_row: usize, n_col: usize, a_x: &[T], col: usize, col_major: bool) -> (r: Vec<
    T,
>) where T: Copy
    requires
        col < n_col,
        a_x.len() == n_row * n_col,
    ensures
        r@ == col_of(n_row as int, n_col as int, a_x@, col as int, col_major),
{
    let mut r: Vec<T> = Vec::new();
    let mut row: usize = 0;
    while row < n_row
        invariant
            row <= n_row,
            col < n_col,
            a_x.len() == n_row * n_col,
            r.len() == row,
            forall|k: int|
                0 <= k < row ==> #[trigger] r[k] == a_x[offset(
                    n_row as int,
                    n_col as int,
                    k,
                    col as int,
                    col_major,
                )],
        decreases n_row - row,
    {
        r.push(get(n_row, n_col, a_x, row, col, col_major));
        row += 1;
    }
    proof {
        assert(r@ =~= col_of(n_row as int, n_col as int, a_x@, col as int, col_major));
    }
    r
}

/// The terms of cell (`i`, `j`) of a matrix product: the products of row `i`
/// of the left matrix with column `j` of the right one.
pub open spec fn cell_term<T: Mul<Output = T>>(
    a_row: int,
    a_col: int,
    a_x: Seq<T>,
    b_col: int,
    b_x: Seq<T>,
    col_major: bool,
    i: int,
    j: int,
) -> spec_fn(int, T) -> bool {
    product_term(row_of(a_row, a_col, a_x, i, col_major), col_of(a_col, b_col, b_x, j, col_major))
}

/// Every operation that the matrix product onto `seed` can reach may be
/// applied.
pub open spec fn mat_mat_onto_ok<T: Mul<Output = T> + Add<Output = T>>(
    seed: T,
    a_row: int,
    a_col: int,
    a_x: Seq<T>,
    b_col: int,
    b_x: Seq<T>,
    col_major: bool,
) -> bool {
    forall|i: int, j: int|
        #![trigger cell_term(a_row, a_col, a_x, b_col, b_x, col_major, i, j)]
        0 <= i < a_row && 0 <= j < b_col ==> {
            &&& products_ok(
                row_of(a_row, a_col, a_x, i, col_major),
                col_of(a_col, b_col, b_x, j, col_major),
            )
            &&& sum_terms_ok(
                seed,
                a_col as nat,
                cell_term(a_row, a_col, a_x, b_col, b_x, col_major, i, j),
            )
        }
}

/// `c_x` holds the product of the two matrices onto `seed`: `a_row * b_col`
/// cells, cell (`i`, `j`) a result of adding the products of row `i` of the
/// left matrix with column `j` of the right one onto `seed`, left to right.
pub open spec fn mat_mat_onto_out<T: Mul<Output = T> + Add<Output = T>>(
    seed: T,
    a_row: int,
    a_col: int,
    a_x: Seq<T>,
    b_col: int,
    b_x: Seq<T>,
    col_major: bool,
    c_x: Seq<T>,
) -> bool {
    &&& c_x.len() == a_row * b_col
    &&& forall|i: int, j: int|
        0 <= i < a_row && 0 <= j < b_col ==> sum_terms_out(
            seed,
            a_col as nat,
            cell_term(a_row, a_col, a_x, b_col, b_x, col_major, i, j),
            #[trigger] c_x[offset(a_row, b_col, i, j, col_major)],
        )
}

/// Every operation that the matrix product can reach may be applied.
pub open spec fn mat_mat_ok<T: num_traits::Zero + Mul<Output = T> + Add<Output = T>>(
    a_row: int,
    a_col: int,
    a_x: Seq<T>,
    b_col: int,
    b_x: Seq<T>,
    col_major: bool,
) -> bool {
    forall|z: T| #[trigger]
        is_zero_value(z) ==> mat_mat_onto_ok(z, a_row, a_col, a_x, b_col, b_x, col_major)
}

/// `c_x` holds the product of the two matrices: each cell is the dot product
/// of a row of the left matrix and a column of the right one, added up onto a
/// zero of `T` (the same zero for every cell).
pub open spec fn mat_mat_out<T: num_traits::Zero + Mul<Output = T> + Add<Output = T>>(
    a_row: int,
    a_col: int,
    a_x: Seq<T>,
    b_col: int,
    b_x: Seq<T>,
    col_major: bool,
    c_x: Seq<T>,
) -> bool {
    exists|z: T| #[trigger]
        is_zero_value(z) && mat_mat_onto_out(z, a_row, a_col, a_x, b_col, b_x, col_major, c_x)
}

/// Performs matrix-matrix multiplication onto `seed`: cell (`i`, `j`) of the
/// result is `seed` plus the products of row `i` of the left matrix with
/// column `j` of the right one.
///
/// `b_row` must equal `a_col`. Returns the `a_row` by `b_col` result, in the
/// storage order of the operands.
pub fn mat_mat_onto<T>(
    seed: T,
    a_row: usize,
    a_col: usize,
    a_x: &[T],
    b_row: usize,
    b_col: usize,
    b_x: &[T],
    col_major: bool,
) -> (c_x: Vec<T>) where T: Mul<Output = T> + Add<Output = T> + Copy
    requires
        a_col == b_row,
        a_x.len() == a_row * a_col,
        b_x.len() == b_row * b_col,
        shape_fits(a_row, b_col),
        mat_mat_onto_ok(seed, a_row as int, a_col as int, a_x@, b_col as int, b_x@, col_major),
    ensures
        mat_mat_onto_out(
            seed,
            a_row as int,
            a_col as int,
            a_x@,
            b_col as int,
            b_x@,
            col_major,
            c_x@,
        ),
{
    let n = a_row * b_col;
    let mut c: Vec<T> = Vec::new();
    let mut k: usize = 0;
    while k < n
        invariant
            k <= n,
            c.len() == k,
        decreases n - k,
    {
        c.push(seed);
        k += 1;
    }
    let mut i: usize = 0;
    while i < a_row
        invariant
            i <= a_row,
            a_col == b_row,
            a_x.len() == a_row * a_col,
            b_x.len() == b_row * b_col,
            shape_fits(a_row, b_col),
            mat_mat_onto_ok(seed, a_row as int, a_col as int, a_x@, b_col as int, b_x@, col_major),
            c.len() == a_row * b_col,
            forall|p: int, q: int|
                0 <= p < i && 0 <= q < b_col ==> sum_terms_out(
                    seed,
                    a_col as nat,
                    cell_term(a_row as int, a_col as int, a_x@, b_col as int, b_x@, col_major, p, q),
                    #[trigger] c[offset(a_row as int, b_col as int, p, q, col_major)],
                ),
        decreases a_row - i,
    {
        let row = row_values(a_row, a_col, a_x, i, col_major);
        let mut j: usize = 0;
        while j < b_col
            invariant
                j <= b_col,
                i < a_row,
                a_col == b_row,
                a_x.len() == a_row * a_col,
                b_x.len() == b_row * b_col,
                shape_fits(a_row, b_col),
                mat_mat_onto_ok(
                    seed,
                    a_row as int,
                    a_col as int,
                    a_x@,
                    b_col as int,
                    b_x@,
                    col_major,
                ),
                row@ == row_of(a_row as int, a_col as int, a_x@, i as int, col_major),
                c.len() == a_row * b_col,
                forall|p: int, q: int|
                    (0 <= p < i && 0 <= q < b_col) || (p == i && 0 <= q < j) ==> sum_terms_out(
                        seed,
                        a_col as nat,
                        cell_term(
                            a_row as int,
                            a_col as int,
                            a_x@,
                            b_col as int,
                            b_x@,
                            col_major,
                            p,
                            q,
                        ),
                        #[trigger] c[offset(a_row as int, b_col as int, p, q, col_major)],
                    ),
            decreases b_col - j,
        {
            let col = col_values(b_row, b_col, b_x, j, col_major);
            let ghost term = cell_term(
                a_row as int,
                a_col as int,
                a_x@,
                b_col as int,
                b_x@,
                col_major,
                i as int,
                j as int,
            );
            assert(sum_terms_ok(seed, a_col as nat, term));
            let v = dot_onto(seed, row.as_slice(), col.as_slice());
            let at = ix(a_row, b_col, i, j, col_major);
            let ghost before = c@;
            c[at] = v;
            proof {
                assert(sum_terms_out(seed, a_col as nat, term, v));
                assert forall|p: int, q: int|
                    (0 <= p < i && 0 <= q < b_col) || (p == i && 0 <= q < j + 1) implies sum_terms_out(
                    seed,
                    a_col as nat,
                    cell_term(a_row as int, a_col as int, a_x@, b_col as int, b_x@, col_major, p, q),
                    #[trigger] c[offset(a_row as int, b_col as int, p, q, col_major)],
                ) by {
                    lemma_offset_bounds(a_row as int, b_col as int, p, q, col_major);
                    if p != i || q != j {
                        if offset(a_row as int, b_col as int, p, q, col_major) == at {
                            lemma_offset_injective(
                                a_row as int,
                                b_col as int,
                                p,
                                q,
                                i as int,
                                j as int,
                                col_major,
                            );
                        }
                        assert(c[offset(a_row as int, b_col as int, p, q, col_major)]
                            == before[offset(a_row as int, b_col as int, p, q, col_major)]);
                    }
                }
            }
            j += 1;
        }
        i += 1;
    }
    c
}

/// Performs matrix-matrix multiplication.
///
/// `b_row` must equal `a_col`. Returns the `a_row` by `b_col` product, in the
/// storage order of the operands.
pub fn mat_mat<T>(
    a_row: usize,
    a_col: usize,
    a_x: &[T],
    b_row: usize,
    b_col: usize,
    b_x: &[T],
    col_major: bool,
) -> (c_x: Vec<T>) where T: Mul<Output = T> + Add<Output = T> + num_traits::Zero + Copy
    requires
        a_col == b_row,
        a_x.len() == a_row * a_col,
        b_x.len() == b_row * b_col,
        shape_fits(a_row, b_col),
        mat_mat_ok(a_row as int, a_col as int, a_x@, b_col as int, b_x@, col_major),
    ensures
        mat_mat_out(a_row as int, a_col as int, a_x@, b_col as int, b_x@, col_major, c_x@),
{
    let z: T = zero();
    let c = mat_mat_onto(z, a_row, a_col, a_x, b_row, b_col, b_x, col_major);
    assert(is_zero_value(z) && mat_mat_onto_out(
        z,
        a_row as int,
        a_col as int,
        a_x@,
        b_col as int,
        b_x@,
        col_major,
        c@,
    ));
    c
}

/// `out` is a rendering of the matrix: one row per line, the values of a row
/// separated by single spaces, the lines by line feeds, and nothing after the
/// last value of a row or after the last row.
pub open spec fn to_string_out<T: Display>(
    n_row: int,
    n_col: int,
    a_x: Seq<T>,
    col_major: bool,
    out: Seq<char>,
) -> bool {
    exists|lines: Seq<Seq<char>>|
        {
            &&& lines.len() == n_row
            &&& forall|i: int|
                0 <= i < n_row ==> line_shown(
                    row_of(n_row, n_col, a_x, i, col_major),
                    ' ',
                    #[trigger] lines[i],
                )
            &&& out == #[trigger] joined(lines, '\n')
        }
}

/// Renders the matrix as text: one row per line, the values of a row
/// separated by single spaces.
pub fn to_string<T>(n_row: usize, n_col: usize, a_x: &[T], col_major: bool) -> (out:
    String) where T: Copy + Display
    requires
        a_x.len() == n_row * n_col,
    ensures
        to_string_out(n_row as int, n_col as int, a_x@, col_major, out@),
{
    let mut lines: Vec<String> = Vec::new();
    let mut i: usize = 0;
    while i < n_row
        invariant
            i <= n_row,
            a_x.len() == n_row * n_col,
            lines.len() == i,
            forall|k: int|
                0 <= k < i ==> line_shown(
                    row_of(n_row as int, n_col as int, a_x@, k, col_major),
                    ' ',
                    (#[trigger] lines[k])@,
                ),
        decreases n_row - i,
    {
        let row = row_values(n_row, n_col, a_x, i, col_major);
        lines.push(render_line(row.as_slice(), false));
        i += 1;
    }
    let out = join_lines(&lines);
    proof {
        let texts = lines@.map_values(|l: String| l@);
        assert forall|k: int| 0 <= k < n_row implies line_shown(
            row_of(n_row as int, n_col as int, a_x@, k, col_major),
            ' ',
            #[trigger] texts[k],
        ) by {
            assert(texts[k] == lines[k]@);
        }
        assert(out@ == joined(texts, '\n'));
    }
    out
}

} // verus!
