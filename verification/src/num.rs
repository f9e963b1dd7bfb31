//! Identities, bounds and conversions of the element type.
//!
//! These come from `num_traits`, whose traits are opaque to the verifier, so
//! each one is reached through a small unverified wrapper. Nothing is
//! assumed about what a wrapper returns. The predicates below only record
//! that a value *is* what such a call returned, which lets a contract say
//! "every element is a zero of `T`" without saying what a zero looks like.

use vstd::prelude::*;

verus! {

/// Calls `num_traits::Zero::zero`. Nothing is claimed of the result.
#[verifier::external_body]
fn zero_call<T: num_traits::Zero>() -> (z: T) {
    T::zero()
}

/// Calls `num_traits::Zero::is_zero`. Nothing is claimed of the result.
#[verifier::external_body]
fn is_zero_call<T: num_traits::Zero>(v: &T) -> (b: bool) {
    v.is_zero()
}

/// Calls `num_traits::One::one`. Nothing is claimed of the result.
#[verifier::external_body]
fn one_call<T: num_traits::One>() -> (o: T) {
    T::one()
}

/// Calls `num_traits::Bounded::min_value`. Nothing is claimed of the result.
#[verifier::external_body]
fn min_value_call<T: num_traits::Bounded>() -> (m: T) {
    T::min_value()
}

/// Calls `num_traits::FromPrimitive::from_usize`. Nothing is claimed of the
/// result; in particular it may be `None`.
#[verifier::external_body]
fn from_usize_call<T: num_traits::FromPrimitive>(n: usize) -> (v: Option<T>) {
    T::from_usize(n)
}

/// `z` is a value that `T`'s additive identity may evaluate to.
pub closed spec fn is_zero_value<T: num_traits::Zero>(z: T) -> bool {
    call_ensures(zero_call::<T>, (), z)
}

/// `b` is an answer that the zero test of `T` may give for `v`.
pub closed spec fn zero_test_out<T: num_traits::Zero>(v: T, b: bool) -> bool {
    call_ensures(is_zero_call::<T>, (&v,), b)
}

/// `o` is a value that `T`'s multiplicative identity may evaluate to.
pub closed spec fn is_one_value<T: num_traits::One>(o: T) -> bool {
    call_ensures(one_call::<T>, (), o)
}

/// `m` is a value that `T`'s smallest finite number may evaluate to.
pub closed spec fn is_min_value<T: num_traits::Bounded>(m: T) -> bool {
    call_ensures(min_value_call::<T>, (), m)
}

/// `v` is a result that converting the count `n` to `T` may give.
pub closed spec fn from_usize_out<T: num_traits::FromPrimitive>(n: usize, v: Option<T>) -> bool {
    call_ensures(from_usize_call::<T>, (n,), v)
}

/// Converting the count `n` to `T` never fails.
pub open spec fn from_usize_ok<T: num_traits::FromPrimitive>(n: usize) -> bool {
    forall|v: Option<T>| #[trigger] from_usize_out(n, v) ==> v is Some
}

/// The additive identity of `T`.
pub fn zero<T: num_traits::Zero>() -> (z: T)
    ensures
        is_zero_value(z),
{
    zero_call()
}

/// Whether `v` is the additive identity of `T`.
pub fn is_zero<T: num_traits::Zero>(v: &T) -> (b: bool)
    ensures
        zero_test_out(*v, b),
{
    is_zero_call(v)
}

/// The multiplicative identity of `T`.
pub fn one<T: num_traits::One>() -> (o: T)
    ensures
        is_one_value(o),
{
    one_call()
}

/// The smallest finite number of `T`.
pub fn min_value<T: num_traits::Bounded>() -> (m: T)
    ensures
        is_min_value(m),
{
    min_value_call()
}

/// The count `n` as a `T`, or `None` where `T` cannot represent it.
pub fn from_usize<T: num_traits::FromPrimitive>(n: usize) -> (v: Option<T>)
    ensures
        from_usize_out(n, v),
{
    from_usize_call(n)
}

} // verus!
