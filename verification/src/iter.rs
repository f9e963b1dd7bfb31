//! Algorithms on iterators.
//!
//! An iterator is read to its end into a buffer, and the algorithm of `slice`
//! runs on that. The contracts speak of the items that the iterator is going
//! to give, `remaining()`. Each function asks that the iterator ends: that
//! it follows the laws of iteration, stops after its last item, and has a
//! measure that each item makes smaller.

use vstd::prelude::*;
use vstd::std_specs::iter::IteratorSpec;
use core::ops::{Add, Mul};
use crate::fold::{reduce_terms_ok, reduce_terms_out};
use crate::slice;
use crate::slice::{max_out, min_out, product_term, products_ok};
use crate::traits::{nan_test_out, IsNaN};

verus! {

/// Reads the iterator to its end.
fn drain<I: Iterator>(it: I) -> (r: Vec<I::Item>)
    requires
        it.obeys_prophetic_iter_laws(),
        it.will_return_none(),
        it.decrease() is Some,
    ensures
        r@ == it.remaining(),
{
    let mut it = it;
    let ghost all = it.remaining();
    let mut r: Vec<I::Item> = Vec::new();
    loop
        invariant
            it.obeys_prophetic_iter_laws(),
            it.will_return_none(),
            it.decrease() is Some,
            all == r@ + it.remaining(),
        ensures
            r@ == all,
        decreases it.decrease()->0,
    {
        let ghost before = it.remaining();
        match it.next() {
            Some(v) => {
                r.push(v);
                proof {
                    assert(before =~= seq![v] + it.remaining());
                    assert(all =~= r@ + it.remaining());
                }
            },
            None => {
                proof {
                    assert(before.len() == 0);
                    assert(all =~= r@);
                }
                break ;
            },
        }
    }
    r
}

/// Computes the dot-product of the items of `a` and `b`, which must be as
/// many: the products `a[i] * b[i]`, added up left to right from the first
/// one; a zero of `T` where there is no item.
pub fn dot<T, A: Iterator<Item = T>, B: Iterator<Item = T>>(a: A, b: B) -> (r: T) where
    T: Mul<Output = T> + Add<Output = T> + num_traits::Zero + Copy,

    requires
        a.obeys_prophetic_iter_laws(),
        a.will_return_none(),
        a.decrease() is Some,
        b.obeys_prophetic_iter_laws(),
        b.will_return_none(),
        b.decrease() is Some,
        a.remaining().len() == b.remaining().len(),
        products_ok(a.remaining(), b.remaining()),
        reduce_terms_ok(a.remaining().len(), product_term(a.remaining(), b.remaining())),
    ensures
        reduce_terms_out(a.remaining().len(), product_term(a.remaining(), b.remaining()), r),
{
    let x = drain(a);
    let y = drain(b);
    slice::dot(x.as_slice(), y.as_slice())
}

/// Returns the maximum of the items of `a`, of which there must be one at
/// least.
pub fn max<T, A: Iterator<Item = T>>(a: A) -> (r: T) where T: PartialOrd + Copy
    requires
        a.obeys_prophetic_iter_laws(),
        a.will_return_none(),
        a.decrease() is Some,
        a.remaining().len() > 0,
    ensures
        max_out(a.remaining(), r),
{
    let x = drain(a);
    slice::max(x.as_slice())
}

/// Returns the minimum of the items of `a`, of which there must be one at
/// least.
pub fn min<T, A: Iterator<Item = T>>(a: A) -> (r: T) where T: PartialOrd + Copy
    requires
        a.obeys_prophetic_iter_laws(),
        a.will_return_none(),
        a.decrease() is Some,
        a.remaining().len() > 0,
    ensures
        min_out(a.remaining(), r),
{
    let x = drain(a);
    slice::min(x.as_slice())
}

/// Returns an integer array with 1s where `T::is_nan` holds of the item, and
/// 0s elsewhere.
pub fn is_nan<T, A: Iterator<Item = T>>(a: A) -> (r: Vec<usize>) where
    T: IsNaN,
    T::Real: num_traits::float::FloatCore,

    requires
        a.obeys_prophetic_iter_laws(),
        a.will_return_none(),
        a.decrease() is Some,
    ensures
        r.len() == a.remaining().len(),
        forall|i: int| 0 <= i < r.len() ==> (#[trigger] r[i] == 0 || r[i] == 1),
        forall|i: int| 0 <= i < r.len() ==> nan_test_out(a.remaining()[i], #[trigger] r[i] == 1),
{
    let x = drain(a);
    slice::is_nan(x.as_slice())
}

} // verus!
