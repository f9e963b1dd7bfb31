//! `Arr`: an owned, ordered, resizable sequence of numbers.

use vstd::prelude::*;
use core::fmt::Display;
use core::ops::{Add, Div, Mul, Sub};
use crate::elem::{sub_ok, sub_out};
use crate::fold::prod_ok;
use crate::full;
use crate::full::to_string_out;
use crate::text::{line_shown, render_line};
use crate::num::{from_usize_out, is_one_value, is_zero_value};
use crate::slice;
use crate::slice::{
    a_count_fails, all_out, any_out, arange_ok, arange_out, argmax_of, argmin_of, counts_ok,
    cum_sum_out, find_out, is_first_greatest, is_first_least, linspace_arith_ok,
    linspace_count_fails, linspace_ok, linspace_out, max_out, mean_arith_ok, mean_ok, mean_out,
    min_out, norm_ok, norm_out, pairs, positions_out, product_out, range_out, scattered,
    std_dev_arith_ok, std_dev_ok, std_dev_out, total_ok, total_out,
};
use crate::sort::{argsort, orders, sorts};
use crate::traits::{
    abs_out, acos_out, asin_out, cos_out, exp_out, ln_out, nan_test_out, round_out, sin_out,
    sqrt_out, Abs, ArcCos, ArcSin, Cos, Exp, IsNaN, Ln, Round, Sin, Sqrt,
};

verus! {

/// A one-dimensional array of numbers.
///
/// It owns its buffer. Its length is the length of the buffer, and an index
/// is valid where it is below that length.
#[derive(Debug, Clone)]
pub struct Arr<T> {
    pub(crate) values: Vec<T>,
}

impl<T> View for Arr<T> {
    type V = Seq<T>;

    closed spec fn view(&self) -> Seq<T> {
        self.values@
    }
}

impl<T> Arr<T> {
    /// The array that owns the buffer `values`, for any element type.
    pub(crate) fn from_buffer(values: Vec<T>) -> (r: Self)
        ensures
            r@ == values@,
    {
        Self { values }
    }

    /// The buffer, for any element type.
    pub(crate) fn buffer(&self) -> (r: &[T])
        ensures
            r@ == self@,
    {
        self.values.as_slice()
    }

    /// The buffer, for writing, for any element type.
    pub(crate) fn buffer_mut(&mut self) -> (r: &mut [T])
        ensures
            r@ == old(self)@,
            final(self)@ == final(r)@,
    {
        self.values.as_mut_slice()
    }
}

impl<T> Arr<T> where T: Clone + Copy + num_traits::Zero + num_traits::One {
    /// An empty array.
    pub fn new() -> (r: Self)
        ensures
            r@ == Seq::<T>::empty(),
    {
        Self { values: Vec::new() }
    }

    /// The array that owns the buffer `values`.
    pub fn with_vec(values: Vec<T>) -> (r: Self)
        ensures
            r@ == values@,
    {
        Self { values }
    }

    /// An array of `n` copies of `v`.
    pub fn with_value(n: usize, v: T) -> (r: Self)
        ensures
            r@ == Seq::new(n as nat, |i: int| v),
    {
        let mut values: Vec<T> = Vec::new();
        let mut i: usize = 0;
        while i < n
            invariant
                i <= n,
                values.len() == i,
                forall|j: int| 0 <= j < i ==> #[trigger] values[j] == v,
            decreases n - i,
        {
            values.push(v);
            i += 1;
        }
        proof {
            assert(values@ =~= Seq::new(n as nat, |i: int| v));
        }
        Self { values }
    }

    /// An empty array with room for `n` values.
    pub fn with_capacity(n: usize) -> (r: Self)
        ensures
            r@ == Seq::<T>::empty(),
    {
        Self { values: Vec::with_capacity(n) }
    }

    /// An array of `n` zeros.
    pub fn zeros(n: usize) -> (r: Self)
        ensures
            r@.len() == n,
            forall|i: int| 0 <= i < n ==> is_zero_value(#[trigger] r@[i]),
    {
        Self { values: full::zeros(1, n) }
    }

    /// An array of `n` ones.
    pub fn ones(n: usize) -> (r: Self)
        ensures
            r@.len() == n,
            forall|i: int| 0 <= i < n ==> is_one_value(#[trigger] r@[i]),
    {
        Self { values: full::ones(1, n) }
    }

    /// The array `0, 1, .., stop - 1`, each count converted to `T`.
    pub fn range(stop: usize) -> (r: Self) where T: num_traits::FromPrimitive
        requires
            counts_ok::<T>(stop),
        ensures
            range_out(stop, r@),
    {
        Self { values: slice::range(stop) }
    }

    /// The array `0, 1, .., stop - 1`, each count converted to `T`, or `None`
    /// where a count cannot be converted.
    pub fn try_range(stop: usize) -> (r: Option<Self>) where T: num_traits::FromPrimitive
        ensures
            r matches Some(a) ==> range_out(stop, a@),
            r is None ==> a_count_fails::<T>(stop),
    {
        match slice::try_range(stop) {
            Some(values) => Some(Self { values }),
            None => None,
        }
    }

    /// The array `start, start + step, ..`, for as long as the value compares
    /// as less than `stop`.
    pub fn arange(start: T, stop: T, step: T) -> (r: Self) where T: PartialOrd + Add<Output = T>
        requires
            arange_ok(start, stop, step),
        ensures
            arange_out(start, stop, step, r@),
    {
        Self { values: slice::arange(start, stop, step) }
    }

    /// Returns an array with values linearly spaced between start and stop
    /// (optionally inclusively).
    pub fn linspace(start: T, stop: T, num: usize, inclusive: bool) -> (r: Self) where
        T: num_traits::FromPrimitive + PartialEq + Add<Output = T> + Sub<Output = T> + Mul<
            Output = T,
        > + Div<Output = T>,

        requires
            linspace_ok(start, stop, num, inclusive),
        ensures
            linspace_out(start, stop, num, inclusive, r@),
    {
        Self { values: slice::linspace(start, stop, num, inclusive) }
    }

    /// Returns an array with values linearly spaced between start and stop
    /// (optionally inclusively), or `None` where a count cannot be converted
    /// to `T`.
    pub fn try_linspace(start: T, stop: T, num: usize, inclusive: bool) -> (r: Option<Self>) where
        T: num_traits::FromPrimitive + PartialEq + Add<Output = T> + Sub<Output = T> + Mul<
            Output = T,
        > + Div<Output = T>,

        requires
            linspace_arith_ok(start, stop, num, inclusive),
        ensures
            r matches Some(a) ==> linspace_out(start, stop, num, inclusive, a@),
            r is None ==> num >= 2 && linspace_count_fails::<T>(num),
    {
        match slice::try_linspace(start, stop, num, inclusive) {
            Some(values) => Some(Self { values }),
            None => None,
        }
    }

    /// The buffer.
    pub fn values(&self) -> (r: &[T])
        ensures
            r@ == self@,
    {
        self.values.as_slice()
    }

    /// The buffer, for writing and resizing: what it holds in the end is what
    /// the array holds.
    pub fn values_mut(&mut self) -> (r: &mut Vec<T>)
        ensures
            r@ == old(self)@,
            final(self)@ == final(r)@,
    {
        &mut self.values
    }

    /// Gives up the array for its buffer.
    pub fn vec(self) -> (r: Vec<T>)
        ensures
            r@ == self@,
    {
        self.values
    }

    /// The arrays of `a`, one after the other in one array.
    pub fn concat(a: &[&[T]]) -> (r: Self)
        ensures
            r@ == a@.map_values(|s: &[T]| s@).flatten(),
    {
        let mut values: Vec<T> = Vec::new();
        let ghost parts = a@.map_values(|s: &[T]| s@);
        let mut k: usize = 0;
        while k < a.len()
            invariant
                k <= a.len(),
                parts == a@.map_values(|s: &[T]| s@),
                values@ == parts.take(k as int).flatten(),
            decreases a.len() - k,
        {
            let part: &[T] = a[k];
            let ghost before = values@;
            let mut i: usize = 0;
            while i < part.len()
                invariant
                    i <= part.len(),
                    values@ == before + part@.take(i as int),
                decreases part.len() - i,
            {
                values.push(part[i]);
                proof {
                    assert(part@.take(i + 1) =~= part@.take(i as int).push(part@[i as int]));
                    assert(before + part@.take(i + 1) =~= (before + part@.take(i as int)).push(
                        part@[i as int],
                    ));
                }
                i += 1;
            }
            proof {
                assert(part@.take(part.len() as int) =~= part@);
                assert(parts.take(k + 1) =~= parts.take(k as int).push(part@));
                parts.take(k as int).lemma_flatten_push(part@);
            }
            k += 1;
        }
        proof {
            assert(parts.take(a.len() as int) =~= parts);
        }
        Self { values }
    }

    /// Returns a vector with the indexes of the nonzero elements.
    pub fn find<U>(&self) -> (r: Vec<U>) where U: num_traits::FromPrimitive
        requires
            counts_ok::<U>(self@.len() as usize),
        ensures
            find_out(self@, r@),
    {
        slice::find(self.values.as_slice())
    }

    /// Returns a vector with the indexes of the nonzero elements, or `None`
    /// where one of them cannot be converted to `U`.
    pub fn try_find<U>(&self) -> (r: Option<Vec<U>>) where U: num_traits::FromPrimitive
        ensures
            r matches Some(v) ==> find_out(self@, v@),
            r is None ==> a_count_fails::<U>(self@.len() as usize),
    {
        slice::try_find(self.values.as_slice())
    }

    /// Returns true if any elements are nonzero.
    pub fn any(&self) -> (r: bool)
        ensures
            any_out(self@, r),
    {
        slice::any(self.values.as_slice())
    }

    /// Returns true if all elements are nonzero.
    pub fn all(&self) -> (r: bool)
        ensures
            all_out(self@, r),
    {
        slice::all(self.values.as_slice())
    }

    /// Returns an array with the values at indexes `ix`.
    pub fn select(&self, ix: &[usize]) -> (r: Arr<T>)
        requires
            forall|k: int| 0 <= k < ix.len() ==> ix[k] < self@.len(),
        ensures
            r@.len() == ix.len(),
            forall|k: int| 0 <= k < ix.len() ==> #[trigger] r@[k] == self@[ix[k] as int],
    {
        Arr { values: slice::select(self.values.as_slice(), ix) }
    }

    /// Sets `self[ix[k]] = v[k]` in-place, for every `k`.
    pub fn set(&mut self, ix: &[usize], v: &[T])
        requires
            ix.len() == v.len(),
            forall|k: int| 0 <= k < ix.len() ==> ix[k] < old(self)@.len(),
        ensures
            final(self)@ == scattered(old(self)@, ix@, v@, ix@.len()),
            final(self)@.len() == old(self)@.len(),
    {
        assert(pairs(ix@, v@.len()) == ix@.len());
        slice::set_slice(self.values.as_mut_slice(), ix, v);
    }

    /// Sets `self[ix[k]] = v` in-place, for every `k`.
    pub fn set_all(&mut self, ix: &[usize], v: T)
        requires
            forall|k: int| 0 <= k < ix.len() ==> ix[k] < old(self)@.len(),
        ensures
            final(self)@.len() == old(self)@.len(),
            forall|j: int|
                0 <= j < old(self)@.len() ==> #[trigger] final(self)@[j] == (if ix@.contains(
                    j as usize,
                ) {
                    v
                } else {
                    old(self)@[j]
                }),
    {
        slice::set_all(self.values.as_mut_slice(), ix, v);
    }

    /// Sums the values: they are added, left to right, onto a zero of `T`.
    pub fn sum(&self) -> (r: T)
        requires
            total_ok(self@),
        ensures
            total_out(self@, r),
    {
        slice::sum(self.values.as_slice())
    }

    /// Returns a vector with the indexes of the nonzero elements.
    pub fn nonzero(&self) -> (r: Vec<usize>)
        ensures
            positions_out(self@, r@),
            forall|k: int| 0 <= k < r.len() ==> #[trigger] r[k] < self@.len(),
    {
        slice::positions(self.values.as_slice())
    }

    /// Returns the product of the values, and a one of `T` for an empty array.
    pub fn prod(&self) -> (r: T)
        requires
            self@.len() > 0 ==> prod_ok(self@[0], self@.skip(1)),
        ensures
            product_out(self@, r),
    {
        slice::prod(self.values.as_slice())
    }

    /// Returns the cumulative sum: entry `i` is the sum of `self[0..=i]`.
    pub fn cumsum(&self) -> (r: Vec<T>)
        requires
            total_ok(self@),
        ensures
            cum_sum_out(self@, r@),
    {
        slice::cum_sum(self.values.as_slice())
    }

    /// Sorts the values into ascending order in place and returns the
    /// permutation that was applied: the value now at `i` stood at `ix[i]`.
    pub fn sort(&mut self) -> (ix: Vec<usize>) where T: PartialOrd
        ensures
            sorts(old(self)@, ix@),
            final(self)@.len() == old(self)@.len(),
            forall|i: int|
                0 <= i < old(self)@.len() ==> #[trigger] final(self)@[i] == old(self)@[ix[i] as int],
    {
        self.sort_order(false)
    }

    /// Sorts the values in place, into ascending order or, with `reverse`,
    /// into that order read last to first, and returns the permutation that
    /// was applied: the value now at `i` stood at `ix[i]`.
    pub fn sort_order(&mut self, reverse: bool) -> (ix: Vec<usize>) where T: PartialOrd
        ensures
            sorts(
                old(self)@,
                if reverse {
                    ix@.reverse()
                } else {
                    ix@
                },
            ),
            final(self)@.len() == old(self)@.len(),
            forall|i: int|
                0 <= i < old(self)@.len() ==> #[trigger] final(self)@[i] == old(self)@[ix[i] as int],
    {
        let ix = argsort(self.values.as_slice(), reverse);
        proof {
            if reverse {
                let asc = ix@.reverse();
                assert forall|k: int| 0 <= k < ix.len() implies ix[k] < self@.len() by {
                    assert(ix@[k] == asc[ix.len() - 1 - k]);
                }
            }
        }
        let sorted = slice::select(self.values.as_slice(), ix.as_slice());
        self.values = sorted;
        ix
    }

    /// Returns the maximum value.
    pub fn max(&self) -> (r: T) where T: PartialOrd
        requires
            self@.len() > 0,
        ensures
            max_out(self@, r),
    {
        slice::max(self.values.as_slice())
    }

    /// Returns the minimum value.
    pub fn min(&self) -> (r: T) where T: PartialOrd
        requires
            self@.len() > 0,
        ensures
            min_out(self@, r),
    {
        slice::min(self.values.as_slice())
    }

    /// Returns the index of the maximum value; of several, the first.
    pub fn argmax(&self) -> (r: usize) where T: PartialOrd
        requires
            self@.len() > 0,
        ensures
            r < self@.len(),
            argmax_of(self@, r as int),
            orders(self@) ==> is_first_greatest(self@, r as int),
    {
        slice::argmax(self.values.as_slice())
    }

    /// Returns the index of the minimum value; of several, the first.
    pub fn argmin(&self) -> (r: usize) where T: PartialOrd
        requires
            self@.len() > 0,
        ensures
            r < self@.len(),
            argmin_of(self@, r as int),
            orders(self@) ==> is_first_least(self@, r as int),
    {
        slice::argmin(self.values.as_slice())
    }

    /// Returns the mean of all element values.
    pub fn mean(&self) -> (r: T) where
        T: Add<Output = T> + Div<Output = T> + num_traits::FromPrimitive,

        requires
            self@.len() > 0,
            mean_ok(self@),
        ensures
            mean_out(self@, r),
    {
        slice::mean(self.values.as_slice())
    }

    /// Returns the mean of all element values, or `None` where the length
    /// cannot be converted to `T`.
    pub fn try_mean(&self) -> (r: Option<T>) where
        T: Add<Output = T> + Div<Output = T> + num_traits::FromPrimitive,

        requires
            self@.len() > 0,
            mean_arith_ok(self@),
        ensures
            r matches Some(m) ==> mean_out(self@, m),
            r is None ==> from_usize_out::<T>(self@.len() as usize, None),
    {
        slice::try_mean(self.values.as_slice())
    }

    /// Returns the standard deviation, by the population formula.
    pub fn std_dev(&self) -> (r: T) where
        T: Add<Output = T> + Div<Output = T> + Sqrt + num_traits::FromPrimitive + Mul<Output = T>
            + Sub<Output = T>,
        T::Real: num_traits::Float,

        requires
            self@.len() > 0,
            std_dev_ok(self@),
        ensures
            std_dev_out(self@, r),
    {
        slice::std_dev(self.values.as_slice())
    }

    /// Returns the standard deviation, by the population formula, or `None`
    /// where the length cannot be converted to `T`.
    pub fn try_std_dev(&self) -> (r: Option<T>) where
        T: Add<Output = T> + Div<Output = T> + Sqrt + num_traits::FromPrimitive + Mul<Output = T>
            + Sub<Output = T>,
        T::Real: num_traits::Float,

        requires
            self@.len() > 0,
            std_dev_arith_ok(self@),
        ensures
            r matches Some(v) ==> std_dev_out(self@, v),
            r is None ==> from_usize_out::<T>(self@.len() as usize, None),
    {
        slice::try_std_dev(self.values.as_slice())
    }

    /// Returns an array with the discrete difference: `self[i + 1] - self[i]`
    /// for each `i`.
    ///
    /// Length of result is 1 less than length of `self`.
    pub fn diff(&self) -> (r: Arr<T>) where T: Sub<Output = T>
        requires
            self@.len() > 0,
            forall|i: int| 0 <= i < self@.len() - 1 ==> sub_ok(#[trigger] self@[i + 1], self@[i]),
        ensures
            r@.len() == self@.len() - 1,
            forall|i: int|
                0 <= i < self@.len() - 1 ==> sub_out(self@[i + 1], self@[i], #[trigger] r@[i]),
    {
        Arr { values: slice::diff(self.values.as_slice()) }
    }

    /// Returns the 2-norm (Euclidean).
    pub fn norm2(&self) -> (r: T) where
        T: Sqrt + Mul<Output = T> + Add<Output = T>,
        T::Real: num_traits::Float,

        requires
            norm_ok(self@),
        ensures
            norm_out(self@, r),
    {
        slice::norm(self.values.as_slice())
    }

    /// Returns an integer array with 1s where `T::is_nan(self[i])`, and 0s
    /// elsewhere.
    pub fn is_nan(&self) -> (r: Vec<usize>) where
        T: IsNaN,
        T::Real: num_traits::float::FloatCore,

        ensures
            r.len() == self@.len(),
            forall|i: int| 0 <= i < self@.len() ==> (#[trigger] r[i] == 0 || r[i] == 1),
            forall|i: int| 0 <= i < self@.len() ==> nan_test_out(self@[i], #[trigger] r[i] == 1),
    {
        slice::is_nan(self.values.as_slice())
    }

    /// Renders the array as text, one value to a line.
    pub fn to_string_col(&self) -> (out: String) where T: Display
        ensures
            line_shown(self@, '\n', out@),
    {
        render_line(self.values.as_slice(), true)
    }

    /// Renders the array as text, on one line, with single spaces between the
    /// values.
    pub fn to_string(&self) -> (out: String) where T: Display
        ensures
            to_string_out(1, self@.len() as int, self@, false, out@),
    {
        full::to_string(1, self.values.len(), self.values.as_slice(), false)
    }

    /// Rounds every value in place.
    pub fn round_mut(&mut self) where T: Round
        ensures
            final(self)@.len() == old(self)@.len(),
            forall|i: int|
                0 <= i < old(self)@.len() ==> round_out(old(self)@[i], #[trigger] final(self)@[i]),
    {
        let n = self.values.len();
        let mut i: usize = 0;
        while i < n
            invariant
                i <= n,
                n == self.values.len(),
                self.values.len() == old(self).values.len(),
                forall|j: int| 0 <= j < i ==> round_out(old(self)@[j], #[trigger] self.values[j]),
                forall|j: int| i <= j < n ==> #[trigger] self.values[j] == old(self)@[j],
            decreases n - i,
        {
            let v = self.values[i].round();
            self.values[i] = v;
            i += 1;
        }
    }

    /// Returns an array where the values are `T::ln(a[i])`.
    pub fn ln(&self) -> (r: Arr<T>) where T: Ln, T::Real: num_traits::Float
        ensures
            r@.len() == self@.len(),
            forall|i: int| 0 <= i < self@.len() ==> ln_out(self@[i], #[trigger] r@[i]),
    {
        let mut values: Vec<T> = Vec::new();
        let mut i: usize = 0;
        while i < self.values.len()
            invariant
                i <= self.values.len(),
                values.len() == i,
                forall|j: int| 0 <= j < i ==> ln_out(self@[j], #[trigger] values[j]),
            decreases self.values.len() - i,
        {
            values.push(self.values[i].ln());
            i += 1;
        }
        Arr { values }
    }

    /// Returns an array where the values are `T::exp(a[i])`.
    pub fn exp(&self) -> (r: Arr<T>) where T: Exp, T::Real: num_traits::Float
        ensures
            r@.len() == self@.len(),
            forall|i: int| 0 <= i < self@.len() ==> exp_out(self@[i], #[trigger] r@[i]),
    {
        let mut values: Vec<T> = Vec::new();
        let mut i: usize = 0;
        while i < self.values.len()
            invariant
                i <= self.values.len(),
                values.len() == i,
                forall|j: int| 0 <= j < i ==> exp_out(self@[j], #[trigger] values[j]),
            decreases self.values.len() - i,
        {
            values.push(self.values[i].exp());
            i += 1;
        }
        Arr { values }
    }

    /// Returns an array where the values are `T::abs(a[i])`.
    pub fn abs(&self) -> (r: Arr<T>) where T: Abs
        ensures
            r@.len() == self@.len(),
            forall|i: int| 0 <= i < self@.len() ==> abs_out(self@[i], #[trigger] r@[i]),
    {
        let mut values: Vec<T> = Vec::new();
        let mut i: usize = 0;
        while i < self.values.len()
            invariant
                i <= self.values.len(),
                values.len() == i,
                forall|j: int| 0 <= j < i ==> abs_out(self@[j], #[trigger] values[j]),
            decreases self.values.len() - i,
        {
            values.push(self.values[i].abs());
            i += 1;
        }
        Arr { values }
    }

    /// Returns an array where the values are `T::round(a[i])`.
    pub fn round(&self) -> (r: Arr<T>) where T: Round
        ensures
            r@.len() == self@.len(),
            forall|i: int| 0 <= i < self@.len() ==> round_out(self@[i], #[trigger] r@[i]),
    {
        let mut values: Vec<T> = Vec::new();
        let mut i: usize = 0;
        while i < self.values.len()
            invariant
                i <= self.values.len(),
                values.len() == i,
                forall|j: int| 0 <= j < i ==> round_out(self@[j], #[trigger] values[j]),
            decreases self.values.len() - i,
        {
            values.push(self.values[i].round());
            i += 1;
        }
        Arr { values }
    }

    /// Returns an array where the values are `T::sqrt(a[i])`.
    pub fn sqrt(&self) -> (r: Arr<T>) where T: Sqrt, T::Real: num_traits::Float
        ensures
            r@.len() == self@.len(),
            forall|i: int| 0 <= i < self@.len() ==> sqrt_out(self@[i], #[trigger] r@[i]),
    {
        let mut values: Vec<T> = Vec::new();
        let mut i: usize = 0;
        while i < self.values.len()
            invariant
                i <= self.values.len(),
                values.len() == i,
                forall|j: int| 0 <= j < i ==> sqrt_out(self@[j], #[trigger] values[j]),
            decreases self.values.len() - i,
        {
            values.push(self.values[i].sqrt());
            i += 1;
        }
        Arr { values }
    }

    /// Returns an array where the values are `T::sin(a[i])`.
    pub fn sin(&self) -> (r: Arr<T>) where T: Sin, T::Real: num_traits::Float
        ensures
            r@.len() == self@.len(),
            forall|i: int| 0 <= i < self@.len() ==> sin_out(self@[i], #[trigger] r@[i]),
    {
        let mut values: Vec<T> = Vec::new();
        let mut i: usize = 0;
        while i < self.values.len()
            invariant
                i <= self.values.len(),
                values.len() == i,
                forall|j: int| 0 <= j < i ==> sin_out(self@[j], #[trigger] values[j]),
            decreases self.values.len() - i,
        {
            values.push(self.values[i].sin());
            i += 1;
        }
        Arr { values }
    }

    /// Returns an array where the values are `T::cos(a[i])`.
    pub fn cos(&self) -> (r: Arr<T>) where T: Cos, T::Real: num_traits::Float
        ensures
            r@.len() == self@.len(),
            forall|i: int| 0 <= i < self@.len() ==> cos_out(self@[i], #[trigger] r@[i]),
    {
        let mut values: Vec<T> = Vec::new();
        let mut i: usize = 0;
        while i < self.values.len()
            invariant
                i <= self.values.len(),
                values.len() == i,
                forall|j: int| 0 <= j < i ==> cos_out(self@[j], #[trigger] values[j]),
            decreases self.values.len() - i,
        {
            values.push(self.values[i].cos());
            i += 1;
        }
        Arr { values }
    }

    /// Returns an array where the values are `T::asin(a[i])`.
    pub fn asin(&self) -> (r: Arr<T>) where T: ArcSin, T::Real: num_traits::Float
        ensures
            r@.len() == self@.len(),
            forall|i: int| 0 <= i < self@.len() ==> asin_out(self@[i], #[trigger] r@[i]),
    {
        let mut values: Vec<T> = Vec::new();
        let mut i: usize = 0;
        while i < self.values.len()
            invariant
                i <= self.values.len(),
                values.len() == i,
                forall|j: int| 0 <= j < i ==> asin_out(self@[j], #[trigger] values[j]),
            decreases self.values.len() - i,
        {
            values.push(self.values[i].asin());
            i += 1;
        }
        Arr { values }
    }

    /// Returns an array where the values are `T::acos(a[i])`.
    pub fn acos(&self) -> (r: Arr<T>) where T: ArcCos, T::Real: num_traits::Float
        ensures
            r@.len() == self@.len(),
            forall|i: int| 0 <= i < self@.len() ==> acos_out(self@[i], #[trigger] r@[i]),
    {
        let mut values: Vec<T> = Vec::new();
        let mut i: usize = 0;
        while i < self.values.len()
            invariant
                i <= self.values.len(),
                values.len() == i,
                forall|j: int| 0 <= j < i ==> acos_out(self@[j], #[trigger] values[j]),
            decreases self.values.len() - i,
        {
            values.push(self.values[i].acos());
            i += 1;
        }
        Arr { values }
    }
}

} // verus!
