//! Algorithms on a borrowed linear buffer.

use vstd::prelude::*;
use core::ops::{Add, Div, Mul, Sub};
use crate::elem::{
    add_ok, add_out, differ, div_ok, div_out, eq_out, ge_out, greater, greater_eq, gt_out,
    le_out, less, less_eq, lt_out, minus, mul_ok, mul_out, ne_out, over, plus, same, sub_ok,
    sub_out, times,
};
use crate::fold::{
    lemma_reduce_terms_next, lemma_sum_push, lemma_sum_terms_next, prod_ok, prod_onto, prod_out,
    reduce_terms_ok, reduce_terms_out, sum_ok, sum_onto, sum_out, sum_terms_ok, sum_terms_out,
    terms_are,
};
use crate::traits::{nan_test_out, sqrt_out, IsNaN, Norm, Sqrt};
use crate::num::{
    from_usize, from_usize_ok, from_usize_out, is_min_value, is_one_value, is_zero,
    is_zero_value, min_value, one, zero, zero_test_out,
};

use crate::laws::{lemma_argmax_is_first_greatest, lemma_argmin_is_first_least};
use crate::order::is_greater;
use crate::sort::orders;

pub use crate::sort::argsort;

verus! {

/// The positions of the `false` entries of `zero`, in ascending order.
pub open spec fn nonzero_positions(zero: Seq<bool>) -> Seq<int>
    decreases zero.len(),
{
    if zero.len() == 0 {
        Seq::empty()
    } else if zero.last() {
        nonzero_positions(zero.drop_last())
    } else {
        nonzero_positions(zero.drop_last()).push(zero.len() - 1)
    }
}

/// `zero[i]` is an answer of the zero test for `a[i]`, for every `i`.
pub open spec fn zero_tests<T: num_traits::Zero>(a: Seq<T>, zero: Seq<bool>) -> bool {
    &&& zero.len() == a.len()
    &&& forall|i: int| 0 <= i < a.len() ==> zero_test_out(a[i], #[trigger] zero[i])
}

/// `u` is the mask value for `set`: a one of `U` where `set` holds, a zero of
/// `U` where it does not.
pub open spec fn is_mask_value<U: num_traits::Zero + num_traits::One>(set: bool, u: U) -> bool {
    if set {
        is_one_value(u)
    } else {
        is_zero_value(u)
    }
}

/// Every count below `n` can be converted to `T`.
pub open spec fn counts_ok<T: num_traits::FromPrimitive>(n: usize) -> bool {
    forall|i: usize| i < n ==> #[trigger] from_usize_ok::<T>(i)
}

/// A one of `U` where `set` holds, a zero of `U` where it does not.
fn mask_value<U: num_traits::Zero + num_traits::One>(set: bool) -> (u: U)
    ensures
        is_mask_value(set, u),
{
    if set {
        one()
    } else {
        zero()
    }
}

/// What `positions` can give for `a`: for some answers `zero` of the zero
/// test on each element, the positions that tested as nonzero, in ascending
/// order.
pub open spec fn positions_out<T: num_traits::Zero>(a: Seq<T>, r: Seq<usize>) -> bool {
    exists|zero: Seq<bool>|
        {
            &&& #[trigger] zero_tests(a, zero)
            &&& r.len() == nonzero_positions(zero).len()
            &&& forall|k: int| 0 <= k < r.len() ==> #[trigger] r[k] == nonzero_positions(zero)[k]
        }
}

/// Returns the positions of the nonzero elements of `a`, in ascending order.
pub fn positions<T>(a: &[T]) -> (r: Vec<usize>) where T: num_traits::Zero
    ensures
        positions_out(a@, r@),
        forall|k: int| 0 <= k < r.len() ==> #[trigger] r[k] < a.len(),
{
    let mut r: Vec<usize> = Vec::new();
    let ghost mut zero: Seq<bool> = Seq::empty();
    let mut i: usize = 0;
    while i < a.len()
        invariant
            i <= a.len(),
            zero_tests(a@.take(i as int), zero),
            r.len() == nonzero_positions(zero).len(),
            forall|k: int| 0 <= k < r.len() ==> #[trigger] r[k] == nonzero_positions(zero)[k],
            forall|k: int| 0 <= k < r.len() ==> #[trigger] r[k] < i,
        decreases a.len() - i,
    {
        let z = is_zero(&a[i]);
        proof {
            let next = zero.push(z);
            assert(next.drop_last() =~= zero);
            assert(zero_tests(a@.take(i + 1), next));
            zero = next;
        }
        if !z {
            r.push(i);
        }
        i += 1;
    }
    proof {
        assert(a@.take(a.len() as int) =~= a@);
    }
    r
}

/// What `find` can give for `a`: the positions of its nonzero elements, each
/// converted to `U`.
pub open spec fn find_out<T: num_traits::Zero, U: num_traits::FromPrimitive>(
    a: Seq<T>,
    r: Seq<U>,
) -> bool {
    exists|at: Seq<usize>|
        {
            &&& #[trigger] positions_out(a, at)
            &&& r.len() == at.len()
            &&& forall|k: int| 0 <= k < r.len() ==> from_usize_out(at[k], Some(#[trigger] r[k]))
        }
}

/// Returns a vector with the indexes of the nonzero elements of `a`, or
/// `None` where one of them cannot be converted to `U`.
pub fn try_find<T, U>(a: &[T]) -> (r: Option<Vec<U>>) where
    T: num_traits::Zero,
    U: num_traits::FromPrimitive,

    ensures
        r matches Some(v) ==> find_out(a@, v@),
        r is None ==> a_count_fails::<U>(a.len()),
{
    let at = positions(a);
    let mut r: Vec<U> = Vec::new();
    let mut k: usize = 0;
    while k < at.len()
        invariant
            k <= at.len(),
            forall|j: int| 0 <= j < at.len() ==> #[trigger] at[j] < a.len(),
            r.len() == k,
            forall|j: int| 0 <= j < k ==> from_usize_out(at[j], Some(#[trigger] r[j])),
        decreases at.len() - k,
    {
        let v: Option<U> = from_usize(at[k]);
        match v {
            Some(u) => {
                r.push(u);
            },
            None => {
                assert(at[k as int] < a.len() && from_usize_out::<U>(at[k as int], None));
                return None;
            },
        }
        k += 1;
    }
    Some(r)
}

/// Returns a vector with the indexes of the nonzero elements of `a`.
pub fn find<T, U>(a: &[T]) -> (r: Vec<U>) where T: num_traits::Zero, U: num_traits::FromPrimitive
    requires
        counts_ok::<U>(a.len()),
    ensures
        find_out(a@, r@),
{
    match try_find(a) {
        Some(r) => r,
        None => {
            proof {
                let i = choose|i: usize| i < a.len() && #[trigger] from_usize_out::<U>(i, None);
                assert(from_usize_ok::<U>(i));
            }
            vstd::pervasive::unreached()
        },
    }
}

/// Returns a vector with the indexes of the nonzero elements of `a`: `find`
/// under another name.
pub fn nonzero<T, U>(a: &[T]) -> (r: Vec<U>) where T: num_traits::Zero, U: num_traits::FromPrimitive
    requires
        counts_ok::<U>(a.len()),
    ensures
        find_out(a@, r@),
{
    find(a)
}

/// What `any` can give for `a`: true where some element tested as nonzero,
/// false where every element tested as zero.
pub open spec fn any_out<T: num_traits::Zero>(a: Seq<T>, r: bool) -> bool {
    &&& r ==> exists|i: int| 0 <= i < a.len() && #[trigger] zero_test_out(a[i], false)
    &&& !r ==> forall|i: int| 0 <= i < a.len() ==> #[trigger] zero_test_out(a[i], true)
}

/// What `all` can give for `a`: true where every element tested as nonzero,
/// false where some element tested as zero.
pub open spec fn all_out<T: num_traits::Zero>(a: Seq<T>, r: bool) -> bool {
    &&& r ==> forall|i: int| 0 <= i < a.len() ==> #[trigger] zero_test_out(a[i], false)
    &&& !r ==> exists|i: int| 0 <= i < a.len() && #[trigger] zero_test_out(a[i], true)
}

/// Returns true if any elements of `a` are nonzero.
pub fn any<T>(a: &[T]) -> (r: bool) where T: num_traits::Zero
    ensures
        any_out(a@, r),
{
    let mut i: usize = 0;
    while i < a.len()
        invariant
            i <= a.len(),
            forall|j: int| 0 <= j < i ==> #[trigger] zero_test_out(a[j], true),
        decreases a.len() - i,
    {
        if !is_zero(&a[i]) {
            assert(zero_test_out(a[i as int], false));
            return true;
        }
        i += 1;
    }
    false
}

/// Returns true if all elements of `a` are nonzero.
pub fn all<T>(a: &[T]) -> (r: bool) where T: num_traits::Zero
    ensures
        all_out(a@, r),
{
    let mut i: usize = 0;
    while i < a.len()
        invariant
            i <= a.len(),
            forall|j: int| 0 <= j < i ==> #[trigger] zero_test_out(a[j], false),
        decreases a.len() - i,
    {
        if is_zero(&a[i]) {
            assert(zero_test_out(a[i as int], true));
            return false;
        }
        i += 1;
    }
    true
}

/// What `range` can give: `stop` values, the one at index `i` a result of
/// converting `i` to `T`.
pub open spec fn range_out<T: num_traits::FromPrimitive>(stop: usize, r: Seq<T>) -> bool {
    &&& r.len() == stop
    &&& forall|i: int| 0 <= i < stop ==> from_usize_out(i as usize, Some(#[trigger] r[i]))
}

/// The conversion of some count below `n` to `T` has failed.
pub open spec fn a_count_fails<T: num_traits::FromPrimitive>(n: usize) -> bool {
    exists|i: usize| i < n && #[trigger] from_usize_out::<T>(i, None)
}

/// Returns a vector with monotonically increasing values from 0 to stop
/// (exclusive), or `None` where a count cannot be converted to `T`.
pub fn try_range<T>(stop: usize) -> (r: Option<Vec<T>>) where T: num_traits::FromPrimitive
    ensures
        r matches Some(v) ==> range_out(stop, v@),
        r is None ==> a_count_fails::<T>(stop),
{
    let mut r: Vec<T> = Vec::new();
    let mut i: usize = 0;
    while i < stop
        invariant
            i <= stop,
            r.len() == i,
            forall|j: int| 0 <= j < i ==> from_usize_out(j as usize, Some(#[trigger] r[j])),
        decreases stop - i,
    {
        let v: Option<T> = from_usize(i);
        match v {
            Some(t) => {
                r.push(t);
            },
            None => {
                assert(from_usize_out::<T>(i, None));
                return None;
            },
        }
        i += 1;
    }
    Some(r)
}

/// Returns a vector with monotonically increasing values from 0 to stop
/// (exclusive).
pub fn range<T>(stop: usize) -> (r: Vec<T>) where T: num_traits::FromPrimitive
    requires
        counts_ok::<T>(stop),
    ensures
        range_out(stop, r@),
{
    match try_range(stop) {
        Some(r) => r,
        None => {
            proof {
                let i = choose|i: usize| i < stop && #[trigger] from_usize_out::<T>(i, None);
                assert(from_usize_ok::<T>(i));
            }
            vstd::pervasive::unreached()
        },
    }
}

/// `r` is a run of values that starts at `start`, goes on in steps of `step`
/// and holds only values that compared as less than `stop`.
pub open spec fn arange_run<T: PartialOrd + Add<Output = T>>(
    start: T,
    stop: T,
    step: T,
    r: Seq<T>,
) -> bool {
    &&& r.len() > 0 ==> r[0] == start
    &&& forall|k: int| 0 <= k < r.len() ==> lt_out(#[trigger] r[k], stop, true)
    &&& forall|k: int| 0 < k < r.len() ==> add_out(r[k - 1], step, #[trigger] r[k])
}

/// `v` is a value that can follow the run `r`: `start` itself where `r` is
/// empty, else a result of adding `step` to its last value.
pub open spec fn arange_next<T: Add<Output = T>>(start: T, step: T, r: Seq<T>, v: T) -> bool {
    if r.len() == 0 {
        v == start
    } else {
        add_out(r.last(), step, v)
    }
}

/// What `arange` can give: a run from `start` that ends where the value that
/// would follow it did not compare as less than `stop`, or where it holds
/// `usize::MAX` values.
pub open spec fn arange_out<T: PartialOrd + Add<Output = T>>(
    start: T,
    stop: T,
    step: T,
    r: Seq<T>,
) -> bool {
    &&& arange_run(start, stop, step, r)
    &&& exists|v: T|
        #[trigger] arange_next(start, step, r, v) && (lt_out(v, stop, false) || r.len()
            == usize::MAX)
}

/// `step` may be added to the last value of every run from `start`.
pub open spec fn arange_ok<T: PartialOrd + Add<Output = T>>(start: T, stop: T, step: T) -> bool {
    forall|r: Seq<T>|
        r.len() > 0 && #[trigger] arange_run(start, stop, step, r) ==> add_ok(r.last(), step)
}

/// Creates a vector of evenly spaced values: `start`, `start + step`, and so
/// on for as long as the value compares as less than `stop`.
///
/// The run also ends when the vector holds `usize::MAX` values.
pub fn arange<T>(start: T, stop: T, step: T) -> (r: Vec<T>) where
    T: Copy + PartialOrd + Add<Output = T>,

    requires
        arange_ok(start, stop, step),
    ensures
        arange_out(start, stop, step, r@),
{
    let mut r: Vec<T> = Vec::new();
    let mut v = start;
    while r.len() < usize::MAX
        invariant
            arange_ok(start, stop, step),
            arange_run(start, stop, step, r@),
            arange_next(start, step, r@, v),
        decreases usize::MAX - r.len(),
    {
        if !less(&v, &stop) {
            return r;
        }
        r.push(v);
        assert(arange_run(start, stop, step, r@));
        v = plus(v, step);
    }
    r
}

/// `u` is a one of `U` where both `x` and `y` tested as nonzero, else a zero
/// of `U`; `y` is tested only where `x` tested as nonzero.
pub open spec fn and_mask<T: num_traits::Zero, U: num_traits::Zero + num_traits::One>(
    x: T,
    y: T,
    u: U,
) -> bool {
    ||| zero_test_out(x, true) && is_zero_value(u)
    ||| zero_test_out(x, false) && zero_test_out(y, true) && is_zero_value(u)
    ||| zero_test_out(x, false) && zero_test_out(y, false) && is_one_value(u)
}

/// `u` is a one of `U` where `x` or `y` tested as nonzero, else a zero of
/// `U`; `y` is tested only where `x` tested as zero.
pub open spec fn or_mask<T: num_traits::Zero, U: num_traits::Zero + num_traits::One>(
    x: T,
    y: T,
    u: U,
) -> bool {
    ||| zero_test_out(x, false) && is_one_value(u)
    ||| zero_test_out(x, true) && zero_test_out(y, false) && is_one_value(u)
    ||| zero_test_out(x, true) && zero_test_out(y, true) && is_zero_value(u)
}

/// `u` is a one of `U` where `x` tested as zero, else a zero of `U`.
pub open spec fn not_mask<T: num_traits::Zero, U: num_traits::Zero + num_traits::One>(
    x: T,
    u: U,
) -> bool {
    ||| zero_test_out(x, true) && is_one_value(u)
    ||| zero_test_out(x, false) && is_zero_value(u)
}

/// Performs a logical (`!= 0`) "and" operation.
pub fn and<T, U>(a: &[T], b: &[T]) -> (r: Vec<U>) where
    T: num_traits::Zero,
    U: num_traits::Zero + num_traits::One,

    requires
        a.len() == b.len(),
    ensures
        r.len() == a.len(),
        forall|i: int| 0 <= i < a.len() ==> and_mask(a[i], b[i], #[trigger] r[i]),
{
    let mut r: Vec<U> = Vec::new();
    let mut i: usize = 0;
    while i < a.len()
        invariant
            i <= a.len(),
            a.len() == b.len(),
            r.len() == i,
            forall|j: int| 0 <= j < i ==> and_mask(a[j], b[j], #[trigger] r[j]),
        decreases a.len() - i,
    {
        let set = !is_zero(&a[i]) && !is_zero(&b[i]);
        r.push(mask_value(set));
        i += 1;
    }
    r
}

/// Performs a logical (`!= 0`) "or" operation.
pub fn or<T, U>(a: &[T], b: &[T]) -> (r: Vec<U>) where
    T: num_traits::Zero,
    U: num_traits::Zero + num_traits::One,

    requires
        a.len() == b.len(),
    ensures
        r.len() == a.len(),
        forall|i: int| 0 <= i < a.len() ==> or_mask(a[i], b[i], #[trigger] r[i]),
{
    let mut r: Vec<U> = Vec::new();
    let mut i: usize = 0;
    while i < a.len()
        invariant
            i <= a.len(),
            a.len() == b.len(),
            r.len() == i,
            forall|j: int| 0 <= j < i ==> or_mask(a[j], b[j], #[trigger] r[j]),
        decreases a.len() - i,
    {
        let set = !is_zero(&a[i]) || !is_zero(&b[i]);
        r.push(mask_value(set));
        i += 1;
    }
    r
}

/// Performs a logical (`!= 0`) "not" operation.
pub fn not<T, U>(a: &[T]) -> (r: Vec<U>) where
    T: num_traits::Zero,
    U: num_traits::Zero + num_traits::One,

    ensures
        r.len() == a.len(),
        forall|i: int| 0 <= i < a.len() ==> not_mask(a[i], #[trigger] r[i]),
{
    let mut r: Vec<U> = Vec::new();
    let mut i: usize = 0;
    while i < a.len()
        invariant
            i <= a.len(),
            r.len() == i,
            forall|j: int| 0 <= j < i ==> not_mask(a[j], #[trigger] r[j]),
        decreases a.len() - i,
    {
        let set = is_zero(&a[i]);
        r.push(mask_value(set));
        i += 1;
    }
    r
}

/// `u` is a one of `U` where `x == y` came out true, a zero of `U` where it
/// came out false.
pub open spec fn eq_mask<T: PartialEq, U: num_traits::Zero + num_traits::One>(
    x: T,
    y: T,
    u: U,
) -> bool {
    ||| eq_out(x, y, true) && is_one_value(u)
    ||| eq_out(x, y, false) && is_zero_value(u)
}

/// Returns a vector with `1`s where `a[i] == v`.
pub fn eq<T, U>(a: &[T], v: T) -> (r: Vec<U>) where
    T: Copy + PartialEq,
    U: num_traits::Zero + num_traits::One,

    ensures
        r.len() == a.len(),
        forall|i: int| 0 <= i < a.len() ==> eq_mask(a[i], v, #[trigger] r[i]),
{
    let mut r: Vec<U> = Vec::new();
    let mut i: usize = 0;
    while i < a.len()
        invariant
            i <= a.len(),
            r.len() == i,
            forall|j: int| 0 <= j < i ==> eq_mask(a[j], v, #[trigger] r[j]),
        decreases a.len() - i,
    {
        let set = same(&a[i], &v);
        r.push(mask_value(set));
        i += 1;
    }
    r
}

/// `u` is a one of `U` where `x != y` came out true, a zero of `U` where it
/// came out false.
pub open spec fn ne_mask<T: PartialEq, U: num_traits::Zero + num_traits::One>(
    x: T,
    y: T,
    u: U,
) -> bool {
    ||| ne_out(x, y, true) && is_one_value(u)
    ||| ne_out(x, y, false) && is_zero_value(u)
}

/// Returns a vector with `1`s where `a[i] != v`.
pub fn ne<T, U>(a: &[T], v: T) -> (r: Vec<U>) where
    T: Copy + PartialEq,
    U: num_traits::Zero + num_traits::One,

    ensures
        r.len() == a.len(),
        forall|i: int| 0 <= i < a.len() ==> ne_mask(a[i], v, #[trigger] r[i]),
{
    let mut r: Vec<U> = Vec::new();
    let mut i: usize = 0;
    while i < a.len()
        invariant
            i <= a.len(),
            r.len() == i,
            forall|j: int| 0 <= j < i ==> ne_mask(a[j], v, #[trigger] r[j]),
        decreases a.len() - i,
    {
        let set = differ(&a[i], &v);
        r.push(mask_value(set));
        i += 1;
    }
    r
}

/// `u` is a one of `U` where `x > y` came out true, a zero of `U` where it
/// came out false.
pub open spec fn gt_mask<T: PartialOrd, U: num_traits::Zero + num_traits::One>(
    x: T,
    y: T,
    u: U,
) -> bool {
    ||| gt_out(x, y, true) && is_one_value(u)
    ||| gt_out(x, y, false) && is_zero_value(u)
}

/// Returns a vector with `1`s where `a[i] > v`.
pub fn gt<T, U>(a: &[T], v: T) -> (r: Vec<U>) where
    T: Copy + PartialOrd,
    U: num_traits::Zero + num_traits::One,

    ensures
        r.len() == a.len(),
        forall|i: int| 0 <= i < a.len() ==> gt_mask(a[i], v, #[trigger] r[i]),
{
    let mut r: Vec<U> = Vec::new();
    let mut i: usize = 0;
    while i < a.len()
        invariant
            i <= a.len(),
            r.len() == i,
            forall|j: int| 0 <= j < i ==> gt_mask(a[j], v, #[trigger] r[j]),
        decreases a.len() - i,
    {
        let set = greater(&a[i], &v);
        r.push(mask_value(set));
        i += 1;
    }
    r
}

/// `u` is a one of `U` where `x < y` came out true, a zero of `U` where it
/// came out false.
pub open spec fn lt_mask<T: PartialOrd, U: num_traits::Zero + num_traits::One>(
    x: T,
    y: T,
    u: U,
) -> bool {
    ||| lt_out(x, y, true) && is_one_value(u)
    ||| lt_out(x, y, false) && is_zero_value(u)
}

/// Returns a vector with `1`s where `a[i] < v`.
pub fn lt<T, U>(a: &[T], v: T) -> (r: Vec<U>) where
    T: Copy + PartialOrd,
    U: num_traits::Zero + num_traits::One,

    ensures
        r.len() == a.len(),
        forall|i: int| 0 <= i < a.len() ==> lt_mask(a[i], v, #[trigger] r[i]),
{
    let mut r: Vec<U> = Vec::new();
    let mut i: usize = 0;
    while i < a.len()
        invariant
            i <= a.len(),
            r.len() == i,
            forall|j: int| 0 <= j < i ==> lt_mask(a[j], v, #[trigger] r[j]),
        decreases a.len() - i,
    {
        let set = less(&a[i], &v);
        r.push(mask_value(set));
        i += 1;
    }
    r
}

/// `u` is a one of `U` where `x >= y` came out true, a zero of `U` where it
/// came out false.
pub open spec fn ge_mask<T: PartialOrd, U: num_traits::Zero + num_traits::One>(
    x: T,
    y: T,
    u: U,
) -> bool {
    ||| ge_out(x, y, true) && is_one_value(u)
    ||| ge_out(x, y, false) && is_zero_value(u)
}

/// Returns a vector with `1`s where `a[i] >= v`.
pub fn ge<T, U>(a: &[T], v: T) -> (r: Vec<U>) where
    T: Copy + PartialOrd,
    U: num_traits::Zero + num_traits::One,

    ensures
        r.len() == a.len(),
        forall|i: int| 0 <= i < a.len() ==> ge_mask(a[i], v, #[trigger] r[i]),
{
    let mut r: Vec<U> = Vec::new();
    let mut i: usize = 0;
    while i < a.len()
        invariant
            i <= a.len(),
            r.len() == i,
            forall|j: int| 0 <= j < i ==> ge_mask(a[j], v, #[trigger] r[j]),
        decreases a.len() - i,
    {
        let set = greater_eq(&a[i], &v);
        r.push(mask_value(set));
        i += 1;
    }
    r
}

/// `u` is a one of `U` where `x <= y` came out true, a zero of `U` where it
/// came out false.
pub open spec fn le_mask<T: PartialOrd, U: num_traits::Zero + num_traits::One>(
    x: T,
    y: T,
    u: U,
) -> bool {
    ||| le_out(x, y, true) && is_one_value(u)
    ||| le_out(x, y, false) && is_zero_value(u)
}

/// Returns a vector with `1`s where `a[i] <= v`.
pub fn le<T, U>(a: &[T], v: T) -> (r: Vec<U>) where
    T: Copy + PartialOrd,
    U: num_traits::Zero + num_traits::One,

    ensures
        r.len() == a.len(),
        forall|i: int| 0 <= i < a.len() ==> le_mask(a[i], v, #[trigger] r[i]),
{
    let mut r: Vec<U> = Vec::new();
    let mut i: usize = 0;
    while i < a.len()
        invariant
            i <= a.len(),
            r.len() == i,
            forall|j: int| 0 <= j < i ==> le_mask(a[j], v, #[trigger] r[j]),
        decreases a.len() - i,
    {
        let set = less_eq(&a[i], &v);
        r.push(mask_value(set));
        i += 1;
    }
    r
}

/// Returns a vector with 1s where `a[i] == b[i]`.
pub fn equal<T, U>(a: &[T], b: &[T]) -> (r: Vec<U>) where
    T: Copy + PartialEq,
    U: num_traits::Zero + num_traits::One,

    requires
        a.len() == b.len(),
    ensures
        r.len() == a.len(),
        forall|i: int| 0 <= i < a.len() ==> eq_mask(a[i], b[i], #[trigger] r[i]),
{
    let mut r: Vec<U> = Vec::new();
    let mut i: usize = 0;
    while i < a.len()
        invariant
            i <= a.len(),
            a.len() == b.len(),
            r.len() == i,
            forall|j: int| 0 <= j < i ==> eq_mask(a[j], b[j], #[trigger] r[j]),
        decreases a.len() - i,
    {
        let set = same(&a[i], &b[i]);
        r.push(mask_value(set));
        i += 1;
    }
    r
}

/// Returns a vector with 1s where `a[i] != b[i]`.
pub fn not_equal<T, U>(a: &[T], b: &[T]) -> (r: Vec<U>) where
    T: Copy + PartialEq,
    U: num_traits::Zero + num_traits::One,

    requires
        a.len() == b.len(),
    ensures
        r.len() == a.len(),
        forall|i: int| 0 <= i < a.len() ==> ne_mask(a[i], b[i], #[trigger] r[i]),
{
    let mut r: Vec<U> = Vec::new();
    let mut i: usize = 0;
    while i < a.len()
        invariant
            i <= a.len(),
            a.len() == b.len(),
            r.len() == i,
            forall|j: int| 0 <= j < i ==> ne_mask(a[j], b[j], #[trigger] r[j]),
        decreases a.len() - i,
    {
        let set = differ(&a[i], &b[i]);
        r.push(mask_value(set));
        i += 1;
    }
    r
}

/// Returns a vector with 1s where `a[i] > b[i]`.
pub fn greater_than<T, U>(a: &[T], b: &[T]) -> (r: Vec<U>) where
    T: Copy + PartialOrd,
    U: num_traits::Zero + num_traits::One,

    requires
        a.len() == b.len(),
    ensures
        r.len() == a.len(),
        forall|i: int| 0 <= i < a.len() ==> gt_mask(a[i], b[i], #[trigger] r[i]),
{
    let mut r: Vec<U> = Vec::new();
    let mut i: usize = 0;
    while i < a.len()
        invariant
            i <= a.len(),
            a.len() == b.len(),
            r.len() == i,
            forall|j: int| 0 <= j < i ==> gt_mask(a[j], b[j], #[trigger] r[j]),
        decreases a.len() - i,
    {
        let set = greater(&a[i], &b[i]);
        r.push(mask_value(set));
        i += 1;
    }
    r
}

/// Returns a vector with 1s where `a[i] < b[i]`.
pub fn less_than<T, U>(a: &[T], b: &[T]) -> (r: Vec<U>) where
    T: Copy + PartialOrd,
    U: num_traits::Zero + num_traits::One,

    requires
        a.len() == b.len(),
    ensures
        r.len() == a.len(),
        forall|i: int| 0 <= i < a.len() ==> lt_mask(a[i], b[i], #[trigger] r[i]),
{
    let mut r: Vec<U> = Vec::new();
    let mut i: usize = 0;
    while i < a.len()
        invariant
            i <= a.len(),
            a.len() == b.len(),
            r.len() == i,
            forall|j: int| 0 <= j < i ==> lt_mask(a[j], b[j], #[trigger] r[j]),
        decreases a.len() - i,
    {
        let set = less(&a[i], &b[i]);
        r.push(mask_value(set));
        i += 1;
    }
    r
}

/// Returns a vector with the values of `a` at indexes `ix`.
pub fn select<T>(a: &[T], ix: &[usize]) -> (r: Vec<T>) where T: Copy
    requires
        forall|k: int| 0 <= k < ix.len() ==> ix[k] < a.len(),
    ensures
        r.len() == ix.len(),
        forall|k: int| 0 <= k < ix.len() ==> #[trigger] r[k] == a[ix[k] as int],
{
    let mut r: Vec<T> = Vec::new();
    let mut k: usize = 0;
    while k < ix.len()
        invariant
            k <= ix.len(),
            r.len() == k,
            forall|j: int| 0 <= j < ix.len() ==> ix[j] < a.len(),
            forall|j: int| 0 <= j < k ==> #[trigger] r[j] == a[ix[j] as int],
        decreases ix.len() - k,
    {
        r.push(a[ix[k]]);
        k += 1;
    }
    r
}

/// `a` after the first `n` assignments `a[ix[k]] = v[k]`, made in the order of
/// `k`.
pub open spec fn scattered<T>(a: Seq<T>, ix: Seq<usize>, v: Seq<T>, n: nat) -> Seq<T>
    decreases n,
{
    if n == 0 {
        a
    } else {
        scattered(a, ix, v, (n - 1) as nat).update(ix[n - 1] as int, v[n - 1])
    }
}

/// The number of index and value pairs that `set_slice` goes through.
pub open spec fn pairs(ix: Seq<usize>, v_len: nat) -> nat {
    if ix.len() <= v_len {
        ix.len()
    } else {
        v_len
    }
}

/// Sets `a[ix[k]] = v[k]` in-place, for each `k` that both `ix` and `v` have.
pub fn set_slice<T>(a: &mut [T], ix: &[usize], v: &[T]) where T: Copy
    requires
        forall|k: int| 0 <= k < pairs(ix@, v@.len()) ==> ix[k] < old(a).len(),
    ensures
        final(a)@ == scattered(old(a)@, ix@, v@, pairs(ix@, v@.len())),
        final(a).len() == old(a).len(),
{
    let n = if ix.len() <= v.len() {
        ix.len()
    } else {
        v.len()
    };
    let mut k: usize = 0;
    while k < n
        invariant
            k <= n,
            n == pairs(ix@, v@.len()),
            a.len() == old(a).len(),
            forall|j: int| 0 <= j < n ==> ix[j] < a.len(),
            a@ == scattered(old(a)@, ix@, v@, k as nat),
        decreases n - k,
    {
        a[ix[k]] = v[k];
        k += 1;
    }
}

/// Sets `a[ix[k]] = v` in-place, for every `k`.
pub fn set_all<T>(a: &mut [T], ix: &[usize], v: T) where T: Copy
    requires
        forall|k: int| 0 <= k < ix.len() ==> ix[k] < old(a).len(),
    ensures
        final(a).len() == old(a).len(),
        forall|j: int|
            0 <= j < old(a).len() ==> #[trigger] final(a)[j] == (if ix@.contains(j as usize) {
                v
            } else {
                old(a)[j]
            }),
{
    let mut k: usize = 0;
    while k < ix.len()
        invariant
            k <= ix.len(),
            a.len() == old(a).len(),
            forall|j: int| 0 <= j < ix.len() ==> ix[j] < a.len(),
            forall|j: int|
                0 <= j < a.len() ==> #[trigger] a[j] == (if ix@.take(k as int).contains(
                    j as usize,
                ) {
                    v
                } else {
                    old(a)[j]
                }),
        decreases ix.len() - k,
    {
        proof {
            let before = ix@.take(k as int);
            let after = ix@.take(k + 1);
            assert(after =~= before.push(ix@[k as int]));
            assert forall|u: usize| after.contains(u) <==> (before.contains(u) || u == ix@[k as int]) by {
                if before.contains(u) {
                    let w = choose|w: int| 0 <= w < before.len() && before[w] == u;
                    assert(after[w] == u);
                }
                if u == ix@[k as int] {
                    assert(after[k as int] == u);
                }
            }
        }
        a[ix[k]] = v;
        k += 1;
    }
    proof {
        assert(ix@.take(ix.len() as int) =~= ix@);
    }
}

/// What `prod` can give for `a`: a one of `T` where `a` is empty, else a
/// result of `((a[0] * a[1]) * a[2]) * ..`.
pub open spec fn product_out<T: num_traits::One + Mul<Output = T>>(a: Seq<T>, o: T) -> bool {
    if a.len() == 0 {
        is_one_value(o)
    } else {
        prod_out(a[0], a.skip(1), o)
    }
}

/// Returns the product of slice values, the multiplicative identity for an
/// empty slice.
pub fn prod<T>(a: &[T]) -> (r: T) where T: num_traits::One + Mul<Output = T> + Copy
    requires
        a.len() > 0 ==> prod_ok(a[0], a@.skip(1)),
    ensures
        product_out(a@, r),
{
    let n = a.len();
    if n == 0 {
        one()
    } else {
        let rest = &a[1..n];
        assert(rest@ =~= a@.skip(1));
        prod_onto(a[0], rest)
    }
}

/// What `sum` can give for `a`: a result of adding its values, left to right,
/// onto a zero of `T`.
pub open spec fn total_out<T: num_traits::Zero + Add<Output = T>>(a: Seq<T>, o: T) -> bool {
    exists|z: T| #[trigger] is_zero_value(z) && sum_out(z, a, o)
}

/// Every addition that summing `a` onto a zero of `T` can reach may be
/// applied.
pub open spec fn total_ok<T: num_traits::Zero + Add<Output = T>>(a: Seq<T>) -> bool {
    forall|z: T| #[trigger] is_zero_value(z) ==> sum_ok(z, a)
}

/// Sums the values of `a`.
pub fn sum<T>(a: &[T]) -> (r: T) where T: num_traits::Zero + Copy + Add<Output = T>
    requires
        total_ok(a@),
    ensures
        total_out(a@, r),
{
    let z: T = zero();
    sum_onto(z, a)
}

/// `r` holds the running sums of `a` onto `seed`: as many values, the one at
/// index `i` a result of adding `a[0..=i]`, left to right, onto `seed`.
pub open spec fn running_sums<T: Add<Output = T>>(seed: T, a: Seq<T>, r: Seq<T>) -> bool {
    &&& r.len() == a.len()
    &&& forall|i: int| 0 <= i < a.len() ==> sum_out(seed, a.take(i + 1), #[trigger] r[i])
}

/// What `cum_sum` can give for `a`: its running sums onto a zero of `T` (the
/// same zero for every index).
pub open spec fn cum_sum_out<T: num_traits::Zero + Add<Output = T>>(a: Seq<T>, r: Seq<T>) -> bool {
    exists|z: T| #[trigger] is_zero_value(z) && running_sums(z, a, r)
}

/// Returns the running sums of `a` onto `seed`: `r[i]` is
/// `seed + a[0] + .. + a[i]`.
pub fn cum_sum_onto<T>(seed: T, a: &[T]) -> (r: Vec<T>) where T: Add<Output = T> + Copy
    requires
        sum_ok(seed, a@),
    ensures
        running_sums(seed, a@, r@),
{
    let mut acc = seed;
    let mut r: Vec<T> = Vec::new();
    let mut i: usize = 0;
    while i < a.len()
        invariant
            i <= a.len(),
            r.len() == i,
            sum_ok(seed, a@),
            sum_out(seed, a@.take(i as int), acc),
            forall|j: int| 0 <= j < i ==> sum_out(seed, a@.take(j + 1), #[trigger] r[j]),
        decreases a.len() - i,
    {
        let next = plus(acc, a[i]);
        proof {
            lemma_sum_push(seed, a@.take(i as int), acc, a@[i as int], next);
            assert(a@.take(i as int).push(a@[i as int]) =~= a@.take(i + 1));
        }
        acc = next;
        r.push(acc);
        i += 1;
    }
    r
}

/// Returns the cumulative sum of slice elements: `r[i]` is the sum of
/// `a[0..=i]`.
pub fn cum_sum<T>(a: &[T]) -> (r: Vec<T>) where T: num_traits::Zero + Add<Output = T> + Copy
    requires
        total_ok(a@),
    ensures
        cum_sum_out(a@, r@),
{
    let z: T = zero();
    let r = cum_sum_onto(z, a);
    assert(is_zero_value(z) && running_sums(z, a@, r@));
    r
}

/// Returns a vector with the discrete difference of `a`: `a[i + 1] - a[i]`
/// for each `i`.
///
/// Length of result is 1 less than length of `a`.
pub fn diff<T>(a: &[T]) -> (r: Vec<T>) where T: Copy + Sub<Output = T>
    requires
        a.len() > 0,
        forall|i: int| 0 <= i < a.len() - 1 ==> sub_ok(#[trigger] a[i + 1], a[i]),
    ensures
        r.len() == a.len() - 1,
        forall|i: int| 0 <= i < a.len() - 1 ==> sub_out(a[i + 1], a[i], #[trigger] r[i]),
{
    let n = a.len();
    let mut r: Vec<T> = Vec::new();
    let mut i: usize = 1;
    while i < n
        invariant
            1 <= i <= n,
            n == a.len(),
            r.len() == i - 1,
            forall|j: int| 0 <= j < a.len() - 1 ==> sub_ok(#[trigger] a[j + 1], a[j]),
            forall|j: int| 0 <= j < i - 1 ==> sub_out(a[j + 1], a[j], #[trigger] r[j]),
        decreases n - i,
    {
        assert(sub_ok(a[(i - 1) + 1], a[i - 1]));
        r.push(minus(a[i], a[i - 1]));
        i += 1;
    }
    r
}

/// Returns an integer array with 1s where `T::is_nan(a[i])`, and 0s
/// elsewhere.
pub fn is_nan<T>(a: &[T]) -> (r: Vec<usize>) where
    T: IsNaN,
    T::Real: num_traits::float::FloatCore,

    ensures
        r.len() == a.len(),
        forall|i: int| 0 <= i < a.len() ==> (#[trigger] r[i] == 0 || r[i] == 1),
        forall|i: int| 0 <= i < a.len() ==> nan_test_out(a[i], #[trigger] r[i] == 1),
{
    let mut r: Vec<usize> = Vec::new();
    let mut i: usize = 0;
    while i < a.len()
        invariant
            i <= a.len(),
            r.len() == i,
            forall|j: int| 0 <= j < i ==> (#[trigger] r[j] == 0 || r[j] == 1),
            forall|j: int| 0 <= j < i ==> nan_test_out(a[j], #[trigger] r[j] == 1),
        decreases a.len() - i,
    {
        if a[i].is_nan() {
            r.push(1);
        } else {
            r.push(0);
        }
        i += 1;
    }
    r
}

/// The terms of a dot product: `x` can be the term at index `i` where it can
/// come out of `a[i] * b[i]`.
pub open spec fn product_term<T: Mul<Output = T>>(a: Seq<T>, b: Seq<T>) -> spec_fn(int, T) -> bool {
    |i: int, x: T| mul_out(a[i], b[i], x)
}

/// Every product `a[i] * b[i]` may be evaluated.
pub open spec fn products_ok<T: Mul<Output = T>>(a: Seq<T>, b: Seq<T>) -> bool {
    forall|i: int| 0 <= i < a.len() ==> mul_ok(#[trigger] a[i], b[i])
}

/// Computes the dot-product of `a` and `b`: the products `a[i] * b[i]`, added
/// up left to right from the first one; a zero of `T` for empty slices.
pub fn dot<T>(a: &[T], b: &[T]) -> (r: T) where
    T: Mul<Output = T> + Add<Output = T> + num_traits::Zero + Copy,

    requires
        a.len() == b.len(),
        products_ok(a@, b@),
        reduce_terms_ok(a@.len(), product_term(a@, b@)),
    ensures
        reduce_terms_out(a@.len(), product_term(a@, b@), r),
{
    let n = a.len();
    if n == 0 {
        return zero();
    }
    let ghost term = product_term(a@, b@);
    assert(mul_ok(a@[0], b@[0]));
    let mut acc = times(a[0], b[0]);
    let ghost mut m: Seq<T> = seq![acc];
    let mut i: usize = 1;
    proof {
        assert(m.skip(1) =~= Seq::<T>::empty());
    }
    while i < n
        invariant
            1 <= i <= n,
            n == a.len(),
            n == b.len(),
            term == product_term(a@, b@),
            products_ok(a@, b@),
            reduce_terms_ok(n as nat, term),
            m.len() == i,
            terms_are(term, m),
            sum_out(m[0], m.skip(1), acc),
        decreases n - i,
    {
        assert(mul_ok(a@[i as int], b@[i as int]));
        let x = times(a[i], b[i]);
        proof {
            lemma_reduce_terms_next(n as nat, term, m, x, acc);
        }
        let next = plus(acc, x);
        proof {
            lemma_sum_push(m[0], m.skip(1), acc, x, next);
            m = m.push(x);
        }
        acc = next;
        i += 1;
    }
    acc
}

/// What `norm` can give for `a`: a square root of a sum of the squares
/// `a[i] * a[i]`, added left to right onto a zero of `T`.
pub open spec fn norm_out<T: num_traits::Zero + Sqrt + Mul<Output = T> + Add<Output = T>>(
    a: Seq<T>,
    o: T,
) -> bool where T::Real: num_traits::Float {
    exists|z: T, s: T|
        #![trigger is_zero_value(z), sqrt_out(s, o)]
        is_zero_value(z) && sum_terms_out(z, a.len(), product_term(a, a), s) && sqrt_out(s, o)
}

/// Every operation that `norm` can reach on `a` may be applied.
pub open spec fn norm_ok<T: num_traits::Zero + Mul<Output = T> + Add<Output = T>>(
    a: Seq<T>,
) -> bool {
    &&& products_ok(a, a)
    &&& forall|z: T| #[trigger] is_zero_value(z) ==> sum_terms_ok(z, a.len(), product_term(a, a))
}

/// Adds the products `a[i] * b[i]` onto `seed`, left to right.
pub fn dot_onto<T>(seed: T, a: &[T], b: &[T]) -> (s: T) where
    T: Copy + Mul<Output = T> + Add<Output = T>,

    requires
        a.len() == b.len(),
        products_ok(a@, b@),
        sum_terms_ok(seed, a@.len(), product_term(a@, b@)),
    ensures
        sum_terms_out(seed, a@.len(), product_term(a@, b@), s),
{
    let n = a.len();
    let ghost term = product_term(a@, b@);
    let mut acc = seed;
    let ghost mut m: Seq<T> = Seq::empty();
    let mut i: usize = 0;
    while i < n
        invariant
            i <= n,
            n == a.len(),
            n == b.len(),
            term == product_term(a@, b@),
            products_ok(a@, b@),
            sum_terms_ok(seed, n as nat, term),
            m.len() == i,
            terms_are(term, m),
            sum_out(seed, m, acc),
        decreases n - i,
    {
        assert(mul_ok(a@[i as int], b@[i as int]));
        let x = times(a[i], b[i]);
        proof {
            lemma_sum_terms_next(seed, n as nat, term, m, x, acc);
        }
        let next = plus(acc, x);
        proof {
            lemma_sum_push(seed, m, acc, x, next);
            m = m.push(x);
        }
        acc = next;
        i += 1;
    }
    acc
}

/// Returns the 2-norm (Euclidean) of `a`.
pub fn norm<T>(a: &[T]) -> (r: T) where
    T: num_traits::Zero + Copy + Sqrt + Mul<Output = T> + Add<Output = T>,
    T::Real: num_traits::Float,

    requires
        norm_ok(a@),
    ensures
        norm_out(a@, r),
{
    let z: T = zero();
    let s = dot_onto(z, a, a);
    let r = s.sqrt();
    assert(sqrt_out(s, r));
    assert(is_zero_value(z) && sum_terms_out(z, a@.len(), product_term(a@, a@), s) && sqrt_out(s, r));
    r
}

/// What `mean` can give for `a`: a result of dividing a sum of `a` by its
/// length, the length converted to `T`.
pub open spec fn mean_out<T: num_traits::Zero + num_traits::FromPrimitive + Add<Output = T> + Div<
    Output = T,
>>(a: Seq<T>, o: T) -> bool {
    exists|s: T, d: T|
        #![trigger total_out(a, s), div_out(s, d, o)]
        total_out(a, s) && from_usize_out(a.len() as usize, Some(d)) && div_out(s, d, o)
}

/// Every addition and division that `mean` can reach on `a` may be applied.
pub open spec fn mean_arith_ok<T: num_traits::Zero + num_traits::FromPrimitive + Add<Output = T>
    + Div<Output = T>>(a: Seq<T>) -> bool {
    &&& total_ok(a)
    &&& forall|s: T, d: T|
        #![trigger total_out(a, s), from_usize_out(a.len() as usize, Some(d))]
        total_out(a, s) && from_usize_out(a.len() as usize, Some(d)) ==> div_ok(s, d)
}

/// Every operation that `mean` can reach on `a` may be applied, and the
/// length of `a` can be converted to `T`.
pub open spec fn mean_ok<T: num_traits::Zero + num_traits::FromPrimitive + Add<Output = T> + Div<
    Output = T,
>>(a: Seq<T>) -> bool {
    &&& mean_arith_ok(a)
    &&& from_usize_ok::<T>(a.len() as usize)
}

/// Returns the mean of `a`, or `None` where the length of `a` cannot be
/// converted to `T`.
pub fn try_mean<T>(a: &[T]) -> (r: Option<T>) where
    T: num_traits::Zero + Copy + Add<Output = T> + Div<Output = T> + num_traits::FromPrimitive,

    requires
        a.len() > 0,
        mean_arith_ok(a@),
    ensures
        r matches Some(m) ==> mean_out(a@, m),
        r is None ==> from_usize_out::<T>(a.len(), None),
{
    let s = sum(a);
    let n: Option<T> = from_usize(a.len());
    match n {
        Some(d) => {
            assert(total_out(a@, s) && from_usize_out(a@.len() as usize, Some(d)));
            let r = over(s, d);
            assert(total_out(a@, s) && from_usize_out(a@.len() as usize, Some(d)) && div_out(
                s,
                d,
                r,
            ));
            Some(r)
        },
        None => None,
    }
}

/// Returns the mean of `a`.
pub fn mean<T>(a: &[T]) -> (r: T) where
    T: num_traits::Zero + Copy + Add<Output = T> + Div<Output = T> + num_traits::FromPrimitive,

    requires
        a.len() > 0,
        mean_ok(a@),
    ensures
        mean_out(a@, r),
{
    match try_mean(a) {
        Some(r) => r,
        None => vstd::pervasive::unreached(),
    }
}

/// The terms of a variance: `x` can be the term at index `i` where it can
/// come out of squaring a result of `a[i] - mean`.
pub open spec fn deviation_term<T: Sub<Output = T> + Mul<Output = T>>(
    a: Seq<T>,
    mean: T,
) -> spec_fn(int, T) -> bool {
    |i: int, x: T| exists|d: T| #[trigger] sub_out(a[i], mean, d) && mul_out(d, d, x)
}

/// Every deviation `a[i] - mean` may be evaluated, and squared.
pub open spec fn deviations_ok<T: Sub<Output = T> + Mul<Output = T>>(a: Seq<T>, mean: T) -> bool {
    &&& forall|i: int| 0 <= i < a.len() ==> sub_ok(#[trigger] a[i], mean)
    &&& forall|i: int, d: T|
        0 <= i < a.len() && #[trigger] sub_out(a[i], mean, d) ==> mul_ok(d, d)
}

/// What `std_dev` can give for `a`: a square root of a sum of squared
/// deviations from a mean of `a`, the sum taken onto a zero of `T` and
/// divided by the length of `a`.
pub open spec fn std_dev_out<T: num_traits::Zero + num_traits::FromPrimitive + Sqrt + Add<
    Output = T,
> + Sub<Output = T> + Mul<Output = T> + Div<Output = T>>(a: Seq<T>, o: T) -> bool where
    T::Real: num_traits::Float,
 {
    exists|mean: T, z: T, s: T, d: T, variance: T|
        #![trigger mean_out(a, mean), is_zero_value(z), div_out(s, d, variance)]
        {
            &&& mean_out(a, mean)
            &&& is_zero_value(z)
            &&& sum_terms_out(z, a.len(), deviation_term(a, mean), s)
            &&& from_usize_out(a.len() as usize, Some(d))
            &&& div_out(s, d, variance)
            &&& sqrt_out(variance, o)
        }
}

/// Every arithmetic operation that `std_dev` can reach on `a` may be
/// applied.
pub open spec fn std_dev_arith_ok<T: num_traits::Zero + num_traits::FromPrimitive + Add<
    Output = T,
> + Sub<Output = T> + Mul<Output = T> + Div<Output = T>>(a: Seq<T>) -> bool {
    &&& mean_arith_ok(a)
    &&& forall|mean: T| #[trigger] mean_out(a, mean) ==> deviations_ok(a, mean)
    &&& forall|mean: T, z: T|
        #![trigger mean_out(a, mean), is_zero_value(z)]
        mean_out(a, mean) && is_zero_value(z) ==> sum_terms_ok(
            z,
            a.len(),
            deviation_term(a, mean),
        )
    &&& forall|mean: T, z: T, s: T, d: T|
        #![trigger sum_terms_out(z, a.len(), deviation_term(a, mean), s), from_usize_out(a.len() as usize, Some(d))]
        mean_out(a, mean) && is_zero_value(z) && sum_terms_out(
            z,
            a.len(),
            deviation_term(a, mean),
            s,
        ) && from_usize_out(a.len() as usize, Some(d)) ==> div_ok(s, d)
}

/// Every operation that `std_dev` can reach on `a` may be applied, and the
/// length of `a` can be converted to `T`.
pub open spec fn std_dev_ok<T: num_traits::Zero + num_traits::FromPrimitive + Add<Output = T> + Sub<
    Output = T,
> + Mul<Output = T> + Div<Output = T>>(a: Seq<T>) -> bool {
    &&& std_dev_arith_ok(a)
    &&& from_usize_ok::<T>(a.len() as usize)
}

/// A sum of the squared deviations of `a` from `mean`, added left to right
/// onto `seed`.
fn deviation_sum<T>(seed: T, a: &[T], mean: T) -> (s: T) where
    T: Copy + Sub<Output = T> + Mul<Output = T> + Add<Output = T>,

    requires
        deviations_ok(a@, mean),
        sum_terms_ok(seed, a@.len(), deviation_term(a@, mean)),
    ensures
        sum_terms_out(seed, a@.len(), deviation_term(a@, mean), s),
{
    let n = a.len();
    let ghost term = deviation_term(a@, mean);
    let mut acc = seed;
    let ghost mut m: Seq<T> = Seq::empty();
    let mut i: usize = 0;
    while i < n
        invariant
            i <= n,
            n == a.len(),
            term == deviation_term(a@, mean),
            deviations_ok(a@, mean),
            sum_terms_ok(seed, n as nat, term),
            m.len() == i,
            terms_are(term, m),
            sum_out(seed, m, acc),
        decreases n - i,
    {
        assert(sub_ok(a@[i as int], mean));
        let d = minus(a[i], mean);
        let x = times(d, d);
        proof {
            assert(sub_out(a@[i as int], mean, d) && mul_out(d, d, x));
            assert(term(i as int, x));
            lemma_sum_terms_next(seed, n as nat, term, m, x, acc);
        }
        let next = plus(acc, x);
        proof {
            lemma_sum_push(seed, m, acc, x, next);
            m = m.push(x);
        }
        acc = next;
        i += 1;
    }
    acc
}

/// Returns the standard deviation of `a` defined as:
/// `Sqrt(Mean((x - Mean(x))^2))`, the population formula, or `None` where the
/// length of `a` cannot be converted to `T`.
pub fn try_std_dev<T>(a: &[T]) -> (r: Option<T>) where
    T: num_traits::Zero + Copy + Add<Output = T> + Div<Output = T> + Sqrt
        + num_traits::FromPrimitive + Mul<Output = T> + Sub<Output = T>,
    T::Real: num_traits::Float,

    requires
        a.len() > 0,
        std_dev_arith_ok(a@),
    ensures
        r matches Some(v) ==> std_dev_out(a@, v),
        r is None ==> from_usize_out::<T>(a.len(), None),
{
    let m = match try_mean(a) {
        Some(m) => m,
        None => {
            return None;
        },
    };
    let z: T = zero();
    let s = deviation_sum(z, a, m);
    let n: Option<T> = from_usize(a.len());
    match n {
        Some(d) => {
            assert(from_usize_out(a@.len() as usize, Some(d)));
            let variance = over(s, d);
            let r = variance.sqrt();
            assert(mean_out(a@, m) && is_zero_value(z) && div_out(s, d, variance) && sqrt_out(
                variance,
                r,
            ));
            Some(r)
        },
        None => None,
    }
}

/// Returns the standard deviation of `a` defined as:
/// `Sqrt(Mean((x - Mean(x))^2))`, the population formula.
pub fn std_dev<T>(a: &[T]) -> (r: T) where
    T: num_traits::Zero + Copy + Add<Output = T> + Div<Output = T> + Sqrt
        + num_traits::FromPrimitive + Mul<Output = T> + Sub<Output = T>,
    T::Real: num_traits::Float,

    requires
        a.len() > 0,
        std_dev_ok(a@),
    ensures
        std_dev_out(a@, r),
{
    match try_std_dev(a) {
        Some(r) => r,
        None => vstd::pervasive::unreached(),
    }
}

/// `o` is the greater of `p` and `x` as `p > x` came out: `p` where it was
/// true, `x` where it was false.
pub open spec fn keep_greater<T: PartialOrd>(p: T, x: T, o: T) -> bool {
    ||| gt_out(p, x, true) && o == p
    ||| gt_out(p, x, false) && o == x
}

/// `o` is the lesser of `p` and `x` as `p > x` came out: `x` where it was
/// true, `p` where it was false.
pub open spec fn keep_lesser<T: PartialOrd>(p: T, x: T, o: T) -> bool {
    ||| gt_out(p, x, true) && o == x
    ||| gt_out(p, x, false) && o == p
}

/// `o` can come out of a scan of the non-empty `a` that starts with its first
/// value and at each later one keeps the greater; of two values that do not
/// compare as greater, the later one is kept.
pub open spec fn max_out<T: PartialOrd>(a: Seq<T>, o: T) -> bool
    decreases a.len(),
{
    if a.len() <= 1 {
        a.len() == 1 && o == a[0]
    } else {
        exists|p: T| max_out(a.drop_last(), p) && #[trigger] keep_greater(p, a.last(), o)
    }
}

/// `o` can come out of a scan of the non-empty `a` that starts with its first
/// value and at each later one keeps the lesser; of two values that do not
/// compare as greater, the earlier one is kept.
pub open spec fn min_out<T: PartialOrd>(a: Seq<T>, o: T) -> bool
    decreases a.len(),
{
    if a.len() <= 1 {
        a.len() == 1 && o == a[0]
    } else {
        exists|p: T| min_out(a.drop_last(), p) && #[trigger] keep_lesser(p, a.last(), o)
    }
}

/// Returns the maximum value of `a`.
pub fn max<T>(a: &[T]) -> (r: T) where T: PartialOrd + Copy
    requires
        a.len() > 0,
    ensures
        max_out(a@, r),
{
    let mut acc = a[0];
    let mut i: usize = 1;
    proof {
        assert(a@.take(1).len() == 1);
    }
    while i < a.len()
        invariant
            1 <= i <= a.len(),
            max_out(a@.take(i as int), acc),
        decreases a.len() - i,
    {
        let x = a[i];
        let next = if greater(&acc, &x) {
            acc
        } else {
            x
        };
        proof {
            let b = a@.take(i + 1);
            assert(b.drop_last() =~= a@.take(i as int));
            assert(max_out(b.drop_last(), acc) && keep_greater(acc, b.last(), next));
        }
        acc = next;
        i += 1;
    }
    proof {
        assert(a@.take(a.len() as int) =~= a@);
    }
    acc
}

/// Returns the minimum value of `a`.
pub fn min<T>(a: &[T]) -> (r: T) where T: PartialOrd + Copy
    requires
        a.len() > 0,
    ensures
        min_out(a@, r),
{
    let mut acc = a[0];
    let mut i: usize = 1;
    proof {
        assert(a@.take(1).len() == 1);
    }
    while i < a.len()
        invariant
            1 <= i <= a.len(),
            min_out(a@.take(i as int), acc),
        decreases a.len() - i,
    {
        let x = a[i];
        let next = if greater(&acc, &x) {
            x
        } else {
            acc
        };
        proof {
            let b = a@.take(i + 1);
            assert(b.drop_last() =~= a@.take(i as int));
            assert(min_out(b.drop_last(), acc) && keep_lesser(acc, b.last(), next));
        }
        acc = next;
        i += 1;
    }
    proof {
        assert(a@.take(a.len() as int) =~= a@);
    }
    acc
}

/// One step of the scan for the index of the maximum: where `x`, the value
/// at index `k`, compared as greater than the best so far, it takes over with
/// its index; where not, the best so far stays.
pub open spec fn argmax_step<T: PartialOrd>(k: int, x: T, prev: (int, T), next: (int, T)) -> bool {
    ||| gt_out(x, prev.1, true) && next == (k, x)
    ||| gt_out(x, prev.1, false) && next == prev
}

/// `o`, an index with the value found there, can come out of the scan of `a`
/// for its maximum that starts at index 0 with `seed` as the best so far.
pub open spec fn argmax_out<T: PartialOrd>(seed: T, a: Seq<T>, o: (int, T)) -> bool
    decreases a.len(),
{
    if a.len() == 0 {
        o == (0int, seed)
    } else {
        exists|p: (int, T)|
            argmax_out(seed, a.drop_last(), p) && #[trigger] argmax_step(
                a.len() - 1,
                a.last(),
                p,
                o,
            )
    }
}

/// What `argmax` can give for the non-empty `a`: the index at which the scan
/// for the maximum ends, where it starts with the first value as the best so
/// far.
pub open spec fn argmax_of<T: PartialOrd>(a: Seq<T>, r: int) -> bool {
    &&& a.len() > 0
    &&& exists|best: T| #[trigger] argmax_out(a[0], a, (r, best))
}

/// `r` is the first index of the maximum of `a`: no value is greater than the
/// one at `r`, and that one is greater than every value before it.
pub open spec fn is_first_greatest<T: PartialOrd>(a: Seq<T>, r: int) -> bool {
    &&& 0 <= r < a.len()
    &&& forall|j: int| 0 <= j < a.len() ==> !is_greater(#[trigger] a[j], a[r])
    &&& forall|j: int| 0 <= j < r ==> is_greater(a[r], #[trigger] a[j])
}

/// Returns the index of the maximum value of `a`; of several indexes that
/// hold the maximum, the first.
///
/// The values are scanned once, starting with the first as the best so far;
/// a value takes over where it compares as greater than the best so far.
/// That gives the first index of the maximum where the order of `T` is
/// specified and orders the values of `a`; with a value that is not a number
/// it gives some index of `a`.
pub fn argmax<T>(a: &[T]) -> (r: usize) where T: PartialOrd + Copy
    requires
        a.len() > 0,
    ensures
        r < a.len(),
        argmax_of(a@, r as int),
        orders(a@) ==> is_first_greatest(a@, r as int),
{
    let seed = a[0];
    let mut best = seed;
    let mut ix: usize = 0;
    let mut i: usize = 0;
    while i < a.len()
        invariant
            i <= a.len(),
            ix < a.len(),
            seed == a@[0],
            argmax_out(seed, a@.take(i as int), (ix as int, best)),
        decreases a.len() - i,
    {
        let v = a[i];
        let ghost prev = (ix as int, best);
        if greater(&v, &best) {
            best = v;
            ix = i;
        }
        proof {
            let b = a@.take(i + 1);
            assert(b.drop_last() =~= a@.take(i as int));
            assert(argmax_out(seed, b.drop_last(), prev) && argmax_step(
                b.len() - 1,
                b.last(),
                prev,
                (ix as int, best),
            ));
        }
        i += 1;
    }
    proof {
        assert(a@.take(a.len() as int) =~= a@);
        assert(argmax_out(a@[0], a@, (ix as int, best)));
        if orders(a@) {
            lemma_argmax_is_first_greatest(a@, ix as int);
        }
    }
    ix
}

/// One step of the scan for the index of the minimum: where the best so far
/// compared as greater than `x`, the value at index `k`, `x` takes over with
/// its index; where not, the best so far stays.
pub open spec fn argmin_step<T: PartialOrd>(k: int, x: T, prev: (int, T), next: (int, T)) -> bool {
    ||| gt_out(prev.1, x, true) && next == (k, x)
    ||| gt_out(prev.1, x, false) && next == prev
}

/// `o`, an index with the value found there, can come out of the scan of `a`
/// for its minimum that starts at index 0 with `seed` as the best so far.
pub open spec fn argmin_out<T: PartialOrd>(seed: T, a: Seq<T>, o: (int, T)) -> bool
    decreases a.len(),
{
    if a.len() == 0 {
        o == (0int, seed)
    } else {
        exists|p: (int, T)|
            argmin_out(seed, a.drop_last(), p) && #[trigger] argmin_step(
                a.len() - 1,
                a.last(),
                p,
                o,
            )
    }
}

/// What `argmin` can give for the non-empty `a`: the index at which the scan
/// for the minimum ends, where it starts with the first value as the best so
/// far.
pub open spec fn argmin_of<T: PartialOrd>(a: Seq<T>, r: int) -> bool {
    &&& a.len() > 0
    &&& exists|best: T| #[trigger] argmin_out(a[0], a, (r, best))
}

/// `r` is the first index of the minimum of `a`: the value at `r` is greater
/// than no value, and every value before it is greater than it.
pub open spec fn is_first_least<T: PartialOrd>(a: Seq<T>, r: int) -> bool {
    &&& 0 <= r < a.len()
    &&& forall|j: int| 0 <= j < a.len() ==> !is_greater(a[r], #[trigger] a[j])
    &&& forall|j: int| 0 <= j < r ==> is_greater(#[trigger] a[j], a[r])
}

/// Returns the index of the minimum value of `a`; of several indexes that
/// hold the minimum, the first.
///
/// The values are scanned once, starting with the first as the best so far;
/// a value takes over where the best so far compares as greater than it.
/// That gives the first index of the minimum where the order of `T` is
/// specified and orders the values of `a`; with a value that is not a number
/// it gives some index of `a`.
pub fn argmin<T>(a: &[T]) -> (r: usize) where T: PartialOrd + Copy
    requires
        a.len() > 0,
    ensures
        r < a.len(),
        argmin_of(a@, r as int),
        orders(a@) ==> is_first_least(a@, r as int),
{
    let seed = a[0];
    let mut best = seed;
    let mut ix: usize = 0;
    let mut i: usize = 0;
    while i < a.len()
        invariant
            i <= a.len(),
            ix < a.len(),
            seed == a@[0],
            argmin_out(seed, a@.take(i as int), (ix as int, best)),
        decreases a.len() - i,
    {
        let v = a[i];
        let ghost prev = (ix as int, best);
        if greater(&best, &v) {
            best = v;
            ix = i;
        }
        proof {
            let b = a@.take(i + 1);
            assert(b.drop_last() =~= a@.take(i as int));
            assert(argmin_out(seed, b.drop_last(), prev) && argmin_step(
                b.len() - 1,
                b.last(),
                prev,
                (ix as int, best),
            ));
        }
        i += 1;
    }
    proof {
        assert(a@.take(a.len() as int) =~= a@);
        assert(argmin_out(a@[0], a@, (ix as int, best)));
        if orders(a@) {
            lemma_argmin_is_first_least(a@, ix as int);
        }
    }
    ix
}

/// `m[i]` is a magnitude of `a[i]`, for every `i`.
pub open spec fn norms_of<N: Norm<T>, T>(a: Seq<N>, m: Seq<T>) -> bool where
    N::Real: num_traits::Float,
 {
    &&& m.len() == a.len()
    &&& forall|i: int| 0 <= i < a.len() ==> crate::traits::norm_out(a[i], #[trigger] m[i])
}

/// `o` can come out of a scan of `m` that starts with `seed` and takes over
/// each value that compared as greater than the best so far.
pub open spec fn sup_out<T: PartialOrd>(seed: T, m: Seq<T>, o: T) -> bool
    decreases m.len(),
{
    if m.len() == 0 {
        o == seed
    } else {
        exists|p: T| sup_out(seed, m.drop_last(), p) && #[trigger] keep_greater(m.last(), p, o)
    }
}

/// What `norm_inf` can give for `a`: the best value of a scan over the
/// magnitudes of its elements that starts with the smallest finite number of
/// `T`.
pub open spec fn norm_inf_out<N: Norm<T>, T: num_traits::Bounded + PartialOrd>(
    a: Seq<N>,
    o: T,
) -> bool where N::Real: num_traits::Float {
    exists|seed: T, m: Seq<T>|
        #![trigger is_min_value(seed), norms_of(a, m)]
        is_min_value(seed) && norms_of(a, m) && sup_out(seed, m, o)
}

/// Computes the infinity norm: `max(abs(a))`, and the smallest finite number
/// of `T` for an empty slice.
pub fn norm_inf<N: Norm<T>, T>(a: &[N]) -> (r: T) where
    T: num_traits::Bounded + PartialOrd,
    N::Real: num_traits::Float,

    ensures
        norm_inf_out(a@, r),
{
    let seed: T = min_value();
    let ghost seed0 = seed;
    let mut best = seed;
    let ghost mut m: Seq<T> = Seq::empty();
    let mut i: usize = 0;
    while i < a.len()
        invariant
            i <= a.len(),
            norms_of(a@.take(i as int), m),
            sup_out(seed0, m, best),
        decreases a.len() - i,
    {
        let v = a[i].norm();
        let ghost prev = best;
        let ghost vv = v;
        if greater(&v, &best) {
            best = v;
        }
        proof {
            let m2 = m.push(vv);
            assert(m2.drop_last() =~= m);
            assert(sup_out(seed0, m2.drop_last(), prev) && keep_greater(m2.last(), prev, best));
            assert(norms_of(a@.take(i + 1), m2));
            m = m2;
        }
        i += 1;
    }
    proof {
        assert(a@.take(a.len() as int) =~= a@);
        assert(is_min_value(seed0) && norms_of(a@, m) && sup_out(seed0, m, best));
    }
    best
}

/// The number that `linspace` divides the interval by: one less than `num`
/// where the last point is `stop` itself, else `num`.
pub open spec fn linspace_divisor(num: usize, inclusive: bool) -> usize {
    if inclusive && num > 0 {
        (num - 1) as usize
    } else {
        num
    }
}

/// The spacing that `linspace` works with: `delta` came out of `stop - start`,
/// `div` out of converting the divisor, `step` out of `delta / div`, and
/// `zero_step` out of comparing `step` with a zero of `T`.
pub open spec fn linspace_spacing<T: num_traits::Zero + num_traits::FromPrimitive + PartialEq + Sub<
    Output = T,
> + Div<Output = T>>(
    start: T,
    stop: T,
    divisor: usize,
    delta: T,
    div: T,
    step: T,
    zero_step: bool,
) -> bool {
    &&& sub_out(stop, start, delta)
    &&& from_usize_out(divisor, Some(div))
    &&& div_out(delta, div, step)
    &&& exists|z: T| #[trigger] is_zero_value(z) && eq_out(step, z, zero_step)
}

/// `v` can be the point at index `i`: with `t` the index converted to `T`, a
/// result of `t * step + start`, or, where the step compared equal to zero,
/// of `(t / div) * delta + start`.
pub open spec fn linspace_point<T: num_traits::FromPrimitive + Add<Output = T> + Mul<
    Output = T,
> + Div<Output = T>>(start: T, delta: T, div: T, step: T, zero_step: bool, i: usize, v: T) -> bool {
    exists|t: T, m: T|
        #![trigger from_usize_out(i, Some(t)), add_out(m, start, v)]
        {
            &&& from_usize_out(i, Some(t))
            &&& add_out(m, start, v)
            &&& if zero_step {
                exists|q: T| #[trigger] div_out(t, div, q) && mul_out(q, delta, m)
            } else {
                mul_out(t, step, m)
            }
        }
}

/// Every operation on the way from the converted index `t` to its point may
/// be applied.
pub open spec fn linspace_point_ok<T: Add<Output = T> + Mul<Output = T> + Div<Output = T>>(
    start: T,
    delta: T,
    div: T,
    step: T,
    zero_step: bool,
    t: T,
) -> bool {
    if zero_step {
        &&& div_ok(t, div)
        &&& forall|q: T| #[trigger] div_out(t, div, q) ==> mul_ok(q, delta)
        &&& forall|q: T, m: T|
            #![trigger div_out(t, div, q), mul_out(q, delta, m)]
            div_out(t, div, q) && mul_out(q, delta, m) ==> add_ok(m, start)
    } else {
        &&& mul_ok(t, step)
        &&& forall|m: T| #[trigger] mul_out(t, step, m) ==> add_ok(m, start)
    }
}

/// What `linspace` can give: `num` points; a single point is a result of
/// `start + (stop - start)`; two or more are spaced as `linspace_point` says,
/// and with `inclusive` the last one is `stop` itself.
pub open spec fn linspace_out<T: num_traits::Zero + num_traits::FromPrimitive + PartialEq + Add<
    Output = T,
> + Sub<Output = T> + Mul<Output = T> + Div<Output = T>>(
    start: T,
    stop: T,
    num: usize,
    inclusive: bool,
    r: Seq<T>,
) -> bool {
    &&& r.len() == num
    &&& num == 1 ==> exists|delta: T|
        #[trigger] sub_out(stop, start, delta) && add_out(start, delta, r[0])
    &&& num >= 2 ==> exists|delta: T, div: T, step: T, zero_step: bool|
        {
            &&& #[trigger] linspace_spacing(
                start,
                stop,
                linspace_divisor(num, inclusive),
                delta,
                div,
                step,
                zero_step,
            )
            &&& forall|i: int|
                0 <= i < linspace_divisor(num, inclusive) ==> linspace_point(
                    start,
                    delta,
                    div,
                    step,
                    zero_step,
                    i as usize,
                    #[trigger] r[i],
                )
        }
    &&& num >= 2 && inclusive ==> r[num - 1] == stop
}

/// Every arithmetic operation that `linspace` can reach may be applied.
pub open spec fn linspace_arith_ok<T: num_traits::Zero + num_traits::FromPrimitive + PartialEq
    + Add<Output = T> + Sub<Output = T> + Mul<Output = T> + Div<Output = T>>(
    start: T,
    stop: T,
    num: usize,
    inclusive: bool,
) -> bool {
    &&& num >= 1 ==> sub_ok(stop, start)
    &&& num == 1 ==> forall|delta: T| #[trigger] sub_out(stop, start, delta) ==> add_ok(start, delta)
    &&& num >= 2 ==> {
        &&& forall|delta: T, div: T|
            #![trigger sub_out(stop, start, delta), from_usize_out(linspace_divisor(num, inclusive), Some(div))]
            sub_out(stop, start, delta) && from_usize_out(
                linspace_divisor(num, inclusive),
                Some(div),
            ) ==> div_ok(delta, div)
        &&& forall|delta: T, div: T, step: T, zero_step: bool, i: usize, t: T|
            #![trigger linspace_spacing(start, stop, linspace_divisor(num, inclusive), delta, div, step, zero_step), from_usize_out(i, Some(t))]
            linspace_spacing(
                start,
                stop,
                linspace_divisor(num, inclusive),
                delta,
                div,
                step,
                zero_step,
            ) && i < linspace_divisor(num, inclusive) && from_usize_out(i, Some(t))
                ==> linspace_point_ok(start, delta, div, step, zero_step, t)
    }
}

/// Every operation that `linspace` can reach may be applied, and every
/// conversion from a count that it makes succeeds.
pub open spec fn linspace_ok<T: num_traits::Zero + num_traits::FromPrimitive + PartialEq + Add<
    Output = T,
> + Sub<Output = T> + Mul<Output = T> + Div<Output = T>>(
    start: T,
    stop: T,
    num: usize,
    inclusive: bool,
) -> bool {
    &&& linspace_arith_ok(start, stop, num, inclusive)
    &&& num >= 2 ==> counts_ok::<T>(num) && from_usize_ok::<T>(num)
}

/// The conversion to `T` of some count that `linspace` needs for `num` points,
/// one no greater than `num`, has failed.
pub open spec fn linspace_count_fails<T: num_traits::FromPrimitive>(num: usize) -> bool {
    exists|i: usize| i <= num && #[trigger] from_usize_out::<T>(i, None)
}

/// Returns an array with `num` values linearly spaced between start and stop
/// (optionally inclusively), or `None` where a count cannot be converted to
/// `T`.
///
/// With `inclusive` and two or more points, the last point is `stop` itself.
/// A single point is `start + (stop - start)`.
pub fn try_linspace<T>(start: T, stop: T, num: usize, inclusive: bool) -> (r: Option<
    Vec<T>,
>) where
    T: num_traits::Zero + num_traits::FromPrimitive + Copy + PartialEq + Add<Output = T> + Sub<
        Output = T,
    > + Mul<Output = T> + Div<Output = T>,

    requires
        linspace_arith_ok(start, stop, num, inclusive),
    ensures
        r matches Some(v) ==> linspace_out(start, stop, num, inclusive, v@),
        r is None ==> num >= 2 && linspace_count_fails::<T>(num),
{
    let mut r: Vec<T> = Vec::new();
    if num == 0 {
        return Some(r);
    }
    let delta = minus(stop, start);
    if num == 1 {
        r.push(plus(start, delta));
        return Some(r);
    }
    let divisor: usize = if inclusive {
        num - 1
    } else {
        num
    };
    assert(divisor == linspace_divisor(num, inclusive));
    let div: T = match from_usize(divisor) {
        Some(d) => d,
        None => {
            assert(divisor <= num && from_usize_out::<T>(divisor, None));
            return None;
        },
    };
    let step = over(delta, div);
    let z: T = zero();
    let zero_step = same(&step, &z);
    assert(linspace_spacing(start, stop, divisor, delta, div, step, zero_step));
    let mut i: usize = 0;
    while i < divisor
        invariant
            i <= divisor,
            num >= 2,
            divisor <= num,
            divisor == linspace_divisor(num, inclusive),
            linspace_arith_ok(start, stop, num, inclusive),
            linspace_spacing(start, stop, divisor, delta, div, step, zero_step),
            r.len() == i,
            forall|j: int|
                0 <= j < i ==> linspace_point(
                    start,
                    delta,
                    div,
                    step,
                    zero_step,
                    j as usize,
                    #[trigger] r[j],
                ),
        decreases divisor - i,
    {
        let t: T = match from_usize(i) {
            Some(t) => t,
            None => {
                assert(i <= num && from_usize_out::<T>(i, None));
                return None;
            },
        };
        assert(linspace_point_ok(start, delta, div, step, zero_step, t));
        let m = if zero_step {
            let q = over(t, div);
            times(q, delta)
        } else {
            times(t, step)
        };
        let v = plus(m, start);
        assert(linspace_point(start, delta, div, step, zero_step, i, v)) by {
            assert(from_usize_out(i, Some(t)) && add_out(m, start, v));
        }
        r.push(v);
        i += 1;
    }
    if inclusive {
        r.push(stop);
    }
    Some(r)
}

/// Returns an array with `num` values linearly spaced between start and stop
/// (optionally inclusively).
///
/// With `inclusive` and two or more points, the last point is `stop` itself.
/// A single point is `start + (stop - start)`.
pub fn linspace<T>(start: T, stop: T, num: usize, inclusive: bool) -> (r: Vec<T>) where
    T: num_traits::Zero + num_traits::FromPrimitive + Copy + PartialEq + Add<Output = T> + Sub<
        Output = T,
    > + Mul<Output = T> + Div<Output = T>,

    requires
        linspace_ok(start, stop, num, inclusive),
    ensures
        linspace_out(start, stop, num, inclusive, r@),
{
    match try_linspace(start, stop, num, inclusive) {
        Some(r) => r,
        None => {
            proof {
                let i = choose|i: usize| i <= num && #[trigger] from_usize_out::<T>(i, None);
                if i < num {
                    assert(from_usize_ok::<T>(i));
                } else {
                    assert(from_usize_ok::<T>(num));
                }
            }
            vstd::pervasive::unreached()
        },
    }
}

/// What `norm_complex` can give for `a`: a square root of a sum of the
/// squared magnitudes of its values, added left to right onto a zero of `F`.
pub open spec fn norm_complex_out<N: Norm<F>, F: num_traits::Zero + Sqrt + Mul<Output = F> + Add<
    Output = F,
>>(a: Seq<N>, o: F) -> bool where N::Real: num_traits::Float, F::Real: num_traits::Float {
    exists|m: Seq<F>| #[trigger] norms_of(a, m) && norm_out(m, o)
}

/// Every operation that `norm_complex` can reach on `a` may be applied.
pub open spec fn norm_complex_ok<N: Norm<F>, F: num_traits::Zero + Mul<Output = F> + Add<
    Output = F,
>>(a: Seq<N>) -> bool where N::Real: num_traits::Float {
    forall|m: Seq<F>| #[trigger] norms_of(a, m) ==> norm_ok(m)
}

/// Returns the 2-norm (Euclidean) of complex values: the square root of the
/// sum of their squared magnitudes.
pub fn norm_complex<N, F>(a: &[N]) -> (r: F) where
    N: Norm<F>,
    F: num_traits::Zero + Copy + Sqrt + Mul<Output = F> + Add<Output = F>,
    N::Real: num_traits::Float,
    F::Real: num_traits::Float,

    requires
        norm_complex_ok::<N, F>(a@),
    ensures
        norm_complex_out(a@, r),
{
    let mut m: Vec<F> = Vec::new();
    let mut i: usize = 0;
    while i < a.len()
        invariant
            i <= a.len(),
            norms_of(a@.take(i as int), m@),
        decreases a.len() - i,
    {
        m.push(a[i].norm());
        i += 1;
    }
    proof {
        assert(a@.take(a.len() as int) =~= a@);
    }
    norm(m.as_slice())
}

} // verus!
