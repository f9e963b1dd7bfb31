//! Element-level operations.
//!
//! The containers are generic over their element type, so nothing here says
//! what `x + y` *is*. Each operation is described by two predicates instead:
//! when it may be applied (`*_ok`) and which results it may give (`*_out`).
//! For an element type whose operators have a functional specification (the
//! machine integers, for one) `*_out` pins the result to a single value; for
//! one that has none (floating point) it only records that the value came
//! out of that operation on those operands.

use vstd::prelude::*;
use core::ops::{Add, Div, Mul, Neg, Sub};

verus! {

/// `x + y` may be evaluated.
pub open spec fn add_ok<T: Add<Output = T>>(x: T, y: T) -> bool {
    call_requires(<T as Add>::add, (x, y))
}

/// `o` is a value that `x + y` may evaluate to.
pub open spec fn add_out<T: Add<Output = T>>(x: T, y: T, o: T) -> bool {
    call_ensures(<T as Add>::add, (x, y), o)
}

/// `x - y` may be evaluated.
pub open spec fn sub_ok<T: Sub<Output = T>>(x: T, y: T) -> bool {
    call_requires(<T as Sub>::sub, (x, y))
}

/// `o` is a value that `x - y` may evaluate to.
pub open spec fn sub_out<T: Sub<Output = T>>(x: T, y: T, o: T) -> bool {
    call_ensures(<T as Sub>::sub, (x, y), o)
}

/// `x * y` may be evaluated.
pub open spec fn mul_ok<T: Mul<Output = T>>(x: T, y: T) -> bool {
    call_requires(<T as Mul>::mul, (x, y))
}

/// `o` is a value that `x * y` may evaluate to.
pub open spec fn mul_out<T: Mul<Output = T>>(x: T, y: T, o: T) -> bool {
    call_ensures(<T as Mul>::mul, (x, y), o)
}

/// `x / y` may be evaluated.
pub open spec fn div_ok<T: Div<Output = T>>(x: T, y: T) -> bool {
    call_requires(<T as Div>::div, (x, y))
}

/// `o` is a value that `x / y` may evaluate to.
pub open spec fn div_out<T: Div<Output = T>>(x: T, y: T, o: T) -> bool {
    call_ensures(<T as Div>::div, (x, y), o)
}

/// `-x` may be evaluated.
pub open spec fn neg_ok<T: Neg<Output = T>>(x: T) -> bool {
    call_requires(<T as Neg>::neg, (x,))
}

/// `o` is a value that `-x` may evaluate to.
pub open spec fn neg_out<T: Neg<Output = T>>(x: T, o: T) -> bool {
    call_ensures(<T as Neg>::neg, (x,), o)
}

/// Evaluates `x + y`.
pub fn plus<T: Add<Output = T>>(x: T, y: T) -> (o: T)
    requires
        add_ok(x, y),
    ensures
        add_out(x, y, o),
{
    let f = <T as Add>::add;
    f(x, y)
}

/// Evaluates `x - y`.
pub fn minus<T: Sub<Output = T>>(x: T, y: T) -> (o: T)
    requires
        sub_ok(x, y),
    ensures
        sub_out(x, y, o),
{
    let f = <T as Sub>::sub;
    f(x, y)
}

/// Evaluates `x * y`.
pub fn times<T: Mul<Output = T>>(x: T, y: T) -> (o: T)
    requires
        mul_ok(x, y),
    ensures
        mul_out(x, y, o),
{
    let f = <T as Mul>::mul;
    f(x, y)
}

/// Evaluates `x / y`.
pub fn over<T: Div<Output = T>>(x: T, y: T) -> (o: T)
    requires
        div_ok(x, y),
    ensures
        div_out(x, y, o),
{
    let f = <T as Div>::div;
    f(x, y)
}

/// Evaluates `-x`.
pub fn negated<T: Neg<Output = T>>(x: T) -> (o: T)
    requires
        neg_ok(x),
    ensures
        neg_out(x, o),
{
    let f = <T as Neg>::neg;
    f(x)
}

/// `o` is a value that `x == y` may evaluate to.
pub open spec fn eq_out<T: PartialEq>(x: T, y: T, o: bool) -> bool {
    call_ensures(<T as PartialEq>::eq, (&x, &y), o)
}

/// `o` is a value that `x != y` may evaluate to.
pub open spec fn ne_out<T: PartialEq>(x: T, y: T, o: bool) -> bool {
    call_ensures(<T as PartialEq>::ne, (&x, &y), o)
}

/// `o` is a value that `x < y` may evaluate to.
pub open spec fn lt_out<T: PartialOrd>(x: T, y: T, o: bool) -> bool {
    call_ensures(<T as PartialOrd>::lt, (&x, &y), o)
}

/// `o` is a value that `x <= y` may evaluate to.
pub open spec fn le_out<T: PartialOrd>(x: T, y: T, o: bool) -> bool {
    call_ensures(<T as PartialOrd>::le, (&x, &y), o)
}

/// `o` is a value that `x > y` may evaluate to.
pub open spec fn gt_out<T: PartialOrd>(x: T, y: T, o: bool) -> bool {
    call_ensures(<T as PartialOrd>::gt, (&x, &y), o)
}

/// `o` is a value that `x >= y` may evaluate to.
pub open spec fn ge_out<T: PartialOrd>(x: T, y: T, o: bool) -> bool {
    call_ensures(<T as PartialOrd>::ge, (&x, &y), o)
}

/// Evaluates `x == y`.
pub fn same<T: PartialEq>(x: &T, y: &T) -> (o: bool)
    ensures
        eq_out(*x, *y, o),
{
    *x == *y
}

/// Evaluates `x != y`.
pub fn differ<T: PartialEq>(x: &T, y: &T) -> (o: bool)
    ensures
        ne_out(*x, *y, o),
{
    *x != *y
}

/// Evaluates `x < y`.
pub fn less<T: PartialOrd>(x: &T, y: &T) -> (o: bool)
    ensures
        lt_out(*x, *y, o),
{
    *x < *y
}

/// Evaluates `x <= y`.
pub fn less_eq<T: PartialOrd>(x: &T, y: &T) -> (o: bool)
    ensures
        le_out(*x, *y, o),
{
    *x <= *y
}

/// Evaluates `x > y`.
pub fn greater<T: PartialOrd>(x: &T, y: &T) -> (o: bool)
    ensures
        gt_out(*x, *y, o),
{
    *x > *y
}

/// Evaluates `x >= y`.
pub fn greater_eq<T: PartialOrd>(x: &T, y: &T) -> (o: bool)
    ensures
        ge_out(*x, *y, o),
{
    *x >= *y
}

} // verus!
