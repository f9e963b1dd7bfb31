//! `Array`: an owned, ordered sequence of numbers.

use vstd::prelude::*;
use core::fmt::Display;
use crate::densetools;
use crate::full::to_string_out;
use crate::num::{is_one_value, is_zero_value};

verus! {

/// A one-dimensional array of numbers with a small interface: constructors,
/// a buffer accessor, arithmetic. `Arr` offers the same and more.
#[derive(Debug)]
pub struct Array<T> {
    pub(crate) data: Vec<T>,
}

impl<T> View for Array<T> {
    type V = Seq<T>;

    closed spec fn view(&self) -> Seq<T> {
        self.data@
    }
}

impl<T> Array<T> {
    /// The array that owns the buffer `data`.
    pub(crate) fn from_buffer(data: Vec<T>) -> (r: Self)
        ensures
            r@ == data@,
    {
        Self { data }
    }

    /// The buffer.
    pub(crate) fn buffer(&self) -> (r: &[T])
        ensures
            r@ == self@,
    {
        self.data.as_slice()
    }

    /// The buffer, for writing.
    pub(crate) fn buffer_mut(&mut self) -> (r: &mut [T])
        ensures
            r@ == old(self)@,
            final(self)@ == final(r)@,
    {
        self.data.as_mut_slice()
    }

    /// An array of `n` zeros.
    pub fn zeros(n: usize) -> (r: Self) where T: Clone + num_traits::Zero
        ensures
            r@.len() == n,
            forall|i: int| 0 <= i < n ==> is_zero_value(#[trigger] r@[i]),
    {
        Self { data: densetools::zeros(1, n) }
    }

    /// An array of `n` ones.
    pub fn ones(n: usize) -> (r: Self) where T: Clone + num_traits::One
        ensures
            r@.len() == n,
            forall|i: int| 0 <= i < n ==> is_one_value(#[trigger] r@[i]),
    {
        Self { data: densetools::ones(1, n) }
    }

    /// Renders the array as text, on one line, with single spaces between the
    /// values.
    pub fn to_string(&self) -> (out: String) where T: Display + Copy
        ensures
            to_string_out(1, self@.len() as int, self@, false, out@),
    {
        densetools::to_string(1, self.data.len(), self.data.as_slice(), true)
    }

    /// The buffer.
    pub fn data(&self) -> (r: &[T]) where T: Clone
        ensures
            r@ == self@,
    {
        self.data.as_slice()
    }

    /// The buffer, for writing and resizing: what it holds in the end is what
    /// the array holds.
    pub fn data_mut(&mut self) -> (r: &mut Vec<T>)
        ensures
            r@ == old(self)@,
            final(self)@ == final(r)@,
    {
        &mut self.data
    }
}

} // verus!
