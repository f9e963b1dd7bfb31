//! Elementwise arithmetic on buffers: a buffer with a scalar, a scalar with a
//! buffer, and two buffers of one length, each into a new buffer or in place.

use vstd::prelude::*;
use core::ops::{Add, Div, Mul, Neg, Sub};
use crate::elem::{
    add_ok, add_out, div_ok, div_out, minus, mul_ok, mul_out, neg_ok, neg_out, negated, over,
    plus, sub_ok, sub_out, times,
};

verus! {

/// Returns `-a[i]` for every `i`.
pub fn negate<T>(a: &[T]) -> (r: Vec<T>) where T: Copy + Neg<Output = T>
    requires
        forall|i: int| 0 <= i < a.len() ==> neg_ok(#[trigger] a[i]),
    ensures
        r.len() == a.len(),
        forall|i: int| 0 <= i < a.len() ==> neg_out(a[i], #[trigger] r[i]),
{
    let mut r: Vec<T> = Vec::new();
    let mut i: usize = 0;
    while i < a.len()
        invariant
            i <= a.len(),
            r.len() == i,
            forall|j: int| 0 <= j < a.len() ==> neg_ok(#[trigger] a[j]),
            forall|j: int| 0 <= j < i ==> neg_out(a[j], #[trigger] r[j]),
        decreases a.len() - i,
    {
        r.push(negated(a[i]));
        i += 1;
    }
    r
}

/// Returns `a[i] + s` for every `i`.
pub fn add_scalar<T>(a: &[T], s: T) -> (r: Vec<T>) where T: Copy + Add<Output = T>
    requires
        forall|i: int| 0 <= i < a.len() ==> add_ok(#[trigger] a[i], s),
    ensures
        r.len() == a.len(),
        forall|i: int| 0 <= i < a.len() ==> add_out(a[i], s, #[trigger] r[i]),
{
    let mut r: Vec<T> = Vec::new();
    let mut i: usize = 0;
    while i < a.len()
        invariant
            i <= a.len(),
            r.len() == i,
            forall|j: int| 0 <= j < a.len() ==> add_ok(#[trigger] a[j], s),
            forall|j: int| 0 <= j < i ==> add_out(a[j], s, #[trigger] r[j]),
        decreases a.len() - i,
    {
        r.push(plus(a[i], s));
        i += 1;
    }
    r
}

/// Returns `s + a[i]` for every `i`.
pub fn scalar_add<T>(s: T, a: &[T]) -> (r: Vec<T>) where T: Copy + Add<Output = T>
    requires
        forall|i: int| 0 <= i < a.len() ==> add_ok(s, #[trigger] a[i]),
    ensures
        r.len() == a.len(),
        forall|i: int| 0 <= i < a.len() ==> add_out(s, a[i], #[trigger] r[i]),
{
    let mut r: Vec<T> = Vec::new();
    let mut i: usize = 0;
    while i < a.len()
        invariant
            i <= a.len(),
            r.len() == i,
            forall|j: int| 0 <= j < a.len() ==> add_ok(s, #[trigger] a[j]),
            forall|j: int| 0 <= j < i ==> add_out(s, a[j], #[trigger] r[j]),
        decreases a.len() - i,
    {
        r.push(plus(s, a[i]));
        i += 1;
    }
    r
}

/// Every `a[i] + b[i]` may be evaluated.
pub open spec fn add_each_ok<T: Add<Output = T>>(a: Seq<T>, b: Seq<T>) -> bool {
    &&& a.len() == b.len()
    &&& forall|i: int| 0 <= i < a.len() ==> add_ok(#[trigger] a[i], b[i])
}

/// Returns `a[i] + b[i]` for every `i`.
pub fn add_each<T>(a: &[T], b: &[T]) -> (r: Vec<T>) where T: Copy + Add<Output = T>
    requires
        add_each_ok(a@, b@),
    ensures
        r.len() == a.len(),
        forall|i: int| 0 <= i < a.len() ==> add_out(a[i], b[i], #[trigger] r[i]),
{
    let mut r: Vec<T> = Vec::new();
    let mut i: usize = 0;
    while i < a.len()
        invariant
            i <= a.len(),
            r.len() == i,
            add_each_ok(a@, b@),
            forall|j: int| 0 <= j < i ==> add_out(a[j], b[j], #[trigger] r[j]),
        decreases a.len() - i,
    {
        assert(add_ok(a@[i as int], b@[i as int]));
        r.push(plus(a[i], b[i]));
        i += 1;
    }
    r
}

/// Sets `a[i]` to `a[i] + s`, for every `i`.
pub fn add_assign_scalar<T>(a: &mut [T], s: T) where T: Copy + Add<Output = T>
    requires
        forall|i: int| 0 <= i < old(a).len() ==> add_ok(#[trigger] old(a)[i], s),
    ensures
        final(a).len() == old(a).len(),
        forall|i: int| 0 <= i < old(a).len() ==> add_out(old(a)[i], s, #[trigger] final(a)[i]),
{
    let n = a.len();
    let mut i: usize = 0;
    while i < n
        invariant
            i <= n,
            n == a.len(),
            a.len() == old(a).len(),
            forall|j: int| 0 <= j < n ==> add_ok(#[trigger] old(a)[j], s),
            forall|j: int| 0 <= j < i ==> add_out(old(a)[j], s, #[trigger] a[j]),
            forall|j: int| i <= j < n ==> #[trigger] a[j] == old(a)[j],
        decreases n - i,
    {
        assert(add_ok(old(a)[i as int], s));
        let v = plus(a[i], s);
        a[i] = v;
        i += 1;
    }
}

/// Sets `a[i]` to `a[i] + b[i]`, for every `i`.
pub fn add_assign_each<T>(a: &mut [T], b: &[T]) where T: Copy + Add<Output = T>
    requires
        add_each_ok(old(a)@, b@),
    ensures
        final(a).len() == old(a).len(),
        forall|i: int| 0 <= i < old(a).len() ==> add_out(old(a)[i], b[i], #[trigger] final(a)[i]),
{
    let n = a.len();
    let mut i: usize = 0;
    while i < n
        invariant
            i <= n,
            n == a.len(),
            a.len() == old(a).len(),
            add_each_ok(old(a)@, b@),
            forall|j: int| 0 <= j < i ==> add_out(old(a)[j], b[j], #[trigger] a[j]),
            forall|j: int| i <= j < n ==> #[trigger] a[j] == old(a)[j],
        decreases n - i,
    {
        assert(add_ok(old(a)@[i as int], b@[i as int]));
        let v = plus(a[i], b[i]);
        a[i] = v;
        i += 1;
    }
}

/// Returns `a[i] - s` for every `i`.
pub fn sub_scalar<T>(a: &[T], s: T) -> (r: Vec<T>) where T: Copy + Sub<Output = T>
    requires
        forall|i: int| 0 <= i < a.len() ==> sub_ok(#[trigger] a[i], s),
    ensures
        r.len() == a.len(),
        forall|i: int| 0 <= i < a.len() ==> sub_out(a[i], s, #[trigger] r[i]),
{
    let mut r: Vec<T> = Vec::new();
    let mut i: usize = 0;
    while i < a.len()
        invariant
            i <= a.len(),
            r.len() == i,
            forall|j: int| 0 <= j < a.len() ==> sub_ok(#[trigger] a[j], s),
            forall|j: int| 0 <= j < i ==> sub_out(a[j], s, #[trigger] r[j]),
        decreases a.len() - i,
    {
        r.push(minus(a[i], s));
        i += 1;
    }
    r
}

/// Returns `s - a[i]` for every `i`.
pub fn scalar_sub<T>(s: T, a: &[T]) -> (r: Vec<T>) where T: Copy + Sub<Output = T>
    requires
        forall|i: int| 0 <= i < a.len() ==> sub_ok(s, #[trigger] a[i]),
    ensures
        r.len() == a.len(),
        forall|i: int| 0 <= i < a.len() ==> sub_out(s, a[i], #[trigger] r[i]),
{
    let mut r: Vec<T> = Vec::new();
    let mut i: usize = 0;
    while i < a.len()
        invariant
            i <= a.len(),
            r.len() == i,
            forall|j: int| 0 <= j < a.len() ==> sub_ok(s, #[trigger] a[j]),
            forall|j: int| 0 <= j < i ==> sub_out(s, a[j], #[trigger] r[j]),
        decreases a.len() - i,
    {
        r.push(minus(s, a[i]));
        i += 1;
    }
    r
}

/// Every `a[i] - b[i]` may be evaluated.
pub open spec fn sub_each_ok<T: Sub<Output = T>>(a: Seq<T>, b: Seq<T>) -> bool {
    &&& a.len() == b.len()
    &&& forall|i: int| 0 <= i < a.len() ==> sub_ok(#[trigger] a[i], b[i])
}

/// Returns `a[i] - b[i]` for every `i`.
pub fn sub_each<T>(a: &[T], b: &[T]) -> (r: Vec<T>) where T: Copy + Sub<Output = T>
    requires
        sub_each_ok(a@, b@),
    ensures
        r.len() == a.len(),
        forall|i: int| 0 <= i < a.len() ==> sub_out(a[i], b[i], #[trigger] r[i]),
{
    let mut r: Vec<T> = Vec::new();
    let mut i: usize = 0;
    while i < a.len()
        invariant
            i <= a.len(),
            r.len() == i,
            sub_each_ok(a@, b@),
            forall|j: int| 0 <= j < i ==> sub_out(a[j], b[j], #[trigger] r[j]),
        decreases a.len() - i,
    {
        assert(sub_ok(a@[i as int], b@[i as int]));
        r.push(minus(a[i], b[i]));
        i += 1;
    }
    r
}

/// Sets `a[i]` to `a[i] - s`, for every `i`.
pub fn sub_assign_scalar<T>(a: &mut [T], s: T) where T: Copy + Sub<Output = T>
    requires
        forall|i: int| 0 <= i < old(a).len() ==> sub_ok(#[trigger] old(a)[i], s),
    ensures
        final(a).len() == old(a).len(),
        forall|i: int| 0 <= i < old(a).len() ==> sub_out(old(a)[i], s, #[trigger] final(a)[i]),
{
    let n = a.len();
    let mut i: usize = 0;
    while i < n
        invariant
            i <= n,
            n == a.len(),
            a.len() == old(a).len(),
            forall|j: int| 0 <= j < n ==> sub_ok(#[trigger] old(a)[j], s),
            forall|j: int| 0 <= j < i ==> sub_out(old(a)[j], s, #[trigger] a[j]),
            forall|j: int| i <= j < n ==> #[trigger] a[j] == old(a)[j],
        decreases n - i,
    {
        assert(sub_ok(old(a)[i as int], s));
        let v = minus(a[i], s);
        a[i] = v;
        i += 1;
    }
}

/// Sets `a[i]` to `a[i] - b[i]`, for every `i`.
pub fn sub_assign_each<T>(a: &mut [T], b: &[T]) where T: Copy + Sub<Output = T>
    requires
        sub_each_ok(old(a)@, b@),
    ensures
        final(a).len() == old(a).len(),
        forall|i: int| 0 <= i < old(a).len() ==> sub_out(old(a)[i], b[i], #[trigger] final(a)[i]),
{
    let n = a.len();
    let mut i: usize = 0;
    while i < n
        invariant
            i <= n,
            n == a.len(),
            a.len() == old(a).len(),
            sub_each_ok(old(a)@, b@),
            forall|j: int| 0 <= j < i ==> sub_out(old(a)[j], b[j], #[trigger] a[j]),
            forall|j: int| i <= j < n ==> #[trigger] a[j] == old(a)[j],
        decreases n - i,
    {
        assert(sub_ok(old(a)@[i as int], b@[i as int]));
        let v = minus(a[i], b[i]);
        a[i] = v;
        i += 1;
    }
}

/// Returns `a[i] * s` for every `i`.
pub fn mul_scalar<T>(a: &[T], s: T) -> (r: Vec<T>) where T: Copy + Mul<Output = T>
    requires
        forall|i: int| 0 <= i < a.len() ==> mul_ok(#[trigger] a[i], s),
    ensures
        r.len() == a.len(),
        forall|i: int| 0 <= i < a.len() ==> mul_out(a[i], s, #[trigger] r[i]),
{
    let mut r: Vec<T> = Vec::new();
    let mut i: usize = 0;
    while i < a.len()
        invariant
            i <= a.len(),
            r.len() == i,
            forall|j: int| 0 <= j < a.len() ==> mul_ok(#[trigger] a[j], s),
            forall|j: int| 0 <= j < i ==> mul_out(a[j], s, #[trigger] r[j]),
        decreases a.len() - i,
    {
        r.push(times(a[i], s));
        i += 1;
    }
    r
}

/// Returns `s * a[i]` for every `i`.
pub fn scalar_mul<T>(s: T, a: &[T]) -> (r: Vec<T>) where T: Copy + Mul<Output = T>
    requires
        forall|i: int| 0 <= i < a.len() ==> mul_ok(s, #[trigger] a[i]),
    ensures
        r.len() == a.len(),
        forall|i: int| 0 <= i < a.len() ==> mul_out(s, a[i], #[trigger] r[i]),
{
    let mut r: Vec<T> = Vec::new();
    let mut i: usize = 0;
    while i < a.len()
        invariant
            i <= a.len(),
            r.len() == i,
            forall|j: int| 0 <= j < a.len() ==> mul_ok(s, #[trigger] a[j]),
            forall|j: int| 0 <= j < i ==> mul_out(s, a[j], #[trigger] r[j]),
        decreases a.len() - i,
    {
        r.push(times(s, a[i]));
        i += 1;
    }
    r
}

/// Every `a[i] * b[i]` may be evaluated.
pub open spec fn mul_each_ok<T: Mul<Output = T>>(a: Seq<T>, b: Seq<T>) -> bool {
    &&& a.len() == b.len()
    &&& forall|i: int| 0 <= i < a.len() ==> mul_ok(#[trigger] a[i], b[i])
}

/// Returns `a[i] * b[i]` for every `i`.
pub fn mul_each<T>(a: &[T], b: &[T]) -> (r: Vec<T>) where T: Copy + Mul<Output = T>
    requires
        mul_each_ok(a@, b@),
    ensures
        r.len() == a.len(),
        forall|i: int| 0 <= i < a.len() ==> mul_out(a[i], b[i], #[trigger] r[i]),
{
    let mut r: Vec<T> = Vec::new();
    let mut i: usize = 0;
    while i < a.len()
        invariant
            i <= a.len(),
            r.len() == i,
            mul_each_ok(a@, b@),
            forall|j: int| 0 <= j < i ==> mul_out(a[j], b[j], #[trigger] r[j]),
        decreases a.len() - i,
    {
        assert(mul_ok(a@[i as int], b@[i as int]));
        r.push(times(a[i], b[i]));
        i += 1;
    }
    r
}

/// Sets `a[i]` to `a[i] * s`, for every `i`.
pub fn mul_assign_scalar<T>(a: &mut [T], s: T) where T: Copy + Mul<Output = T>
    requires
        forall|i: int| 0 <= i < old(a).len() ==> mul_ok(#[trigger] old(a)[i], s),
    ensures
        final(a).len() == old(a).len(),
        forall|i: int| 0 <= i < old(a).len() ==> mul_out(old(a)[i], s, #[trigger] final(a)[i]),
{
    let n = a.len();
    let mut i: usize = 0;
    while i < n
        invariant
            i <= n,
            n == a.len(),
            a.len() == old(a).len(),
            forall|j: int| 0 <= j < n ==> mul_ok(#[trigger] old(a)[j], s),
            forall|j: int| 0 <= j < i ==> mul_out(old(a)[j], s, #[trigger] a[j]),
            forall|j: int| i <= j < n ==> #[trigger] a[j] == old(a)[j],
        decreases n - i,
    {
        assert(mul_ok(old(a)[i as int], s));
        let v = times(a[i], s);
        a[i] = v;
        i += 1;
    }
}

/// Sets `a[i]` to `a[i] * b[i]`, for every `i`.
pub fn mul_assign_each<T>(a: &mut [T], b: &[T]) where T: Copy + Mul<Output = T>
    requires
        mul_each_ok(old(a)@, b@),
    ensures
        final(a).len() == old(a).len(),
        forall|i: int| 0 <= i < old(a).len() ==> mul_out(old(a)[i], b[i], #[trigger] final(a)[i]),
{
    let n = a.len();
    let mut i: usize = 0;
    while i < n
        invariant
            i <= n,
            n == a.len(),
            a.len() == old(a).len(),
            mul_each_ok(old(a)@, b@),
            forall|j: int| 0 <= j < i ==> mul_out(old(a)[j], b[j], #[trigger] a[j]),
            forall|j: int| i <= j < n ==> #[trigger] a[j] == old(a)[j],
        decreases n - i,
    {
        assert(mul_ok(old(a)@[i as int], b@[i as int]));
        let v = times(a[i], b[i]);
        a[i] = v;
        i += 1;
    }
}

/// Returns `a[i] / s` for every `i`.
pub fn div_scalar<T>(a: &[T], s: T) -> (r: Vec<T>) where T: Copy + Div<Output = T>
    requires
        forall|i: int| 0 <= i < a.len() ==> div_ok(#[trigger] a[i], s),
    ensures
        r.len() == a.len(),
        forall|i: int| 0 <= i < a.len() ==> div_out(a[i], s, #[trigger] r[i]),
{
    let mut r: Vec<T> = Vec::new();
    let mut i: usize = 0;
    while i < a.len()
        invariant
            i <= a.len(),
            r.len() == i,
            forall|j: int| 0 <= j < a.len() ==> div_ok(#[trigger] a[j], s),
            forall|j: int| 0 <= j < i ==> div_out(a[j], s, #[trigger] r[j]),
        decreases a.len() - i,
    {
        r.push(over(a[i], s));
        i += 1;
    }
    r
}

/// Returns `s / a[i]` for every `i`.
pub fn scalar_div<T>(s: T, a: &[T]) -> (r: Vec<T>) where T: Copy + Div<Output = T>
    requires
        forall|i: int| 0 <= i < a.len() ==> div_ok(s, #[trigger] a[i]),
    ensures
        r.len() == a.len(),
        forall|i: int| 0 <= i < a.len() ==> div_out(s, a[i], #[trigger] r[i]),
{
    let mut r: Vec<T> = Vec::new();
    let mut i: usize = 0;
    while i < a.len()
        invariant
            i <= a.len(),
            r.len() == i,
            forall|j: int| 0 <= j < a.len() ==> div_ok(s, #[trigger] a[j]),
            forall|j: int| 0 <= j < i ==> div_out(s, a[j], #[trigger] r[j]),
        decreases a.len() - i,
    {
        r.push(over(s, a[i]));
        i += 1;
    }
    r
}

/// Every `a[i] / b[i]` may be evaluated.
pub open spec fn div_each_ok<T: Div<Output = T>>(a: Seq<T>, b: Seq<T>) -> bool {
    &&& a.len() == b.len()
    &&& forall|i: int| 0 <= i < a.len() ==> div_ok(#[trigger] a[i], b[i])
}

/// Returns `a[i] / b[i]` for every `i`.
pub fn div_each<T>(a: &[T], b: &[T]) -> (r: Vec<T>) where T: Copy + Div<Output = T>
    requires
        div_each_ok(a@, b@),
    ensures
        r.len() == a.len(),
        forall|i: int| 0 <= i < a.len() ==> div_out(a[i], b[i], #[trigger] r[i]),
{
    let mut r: Vec<T> = Vec::new();
    let mut i: usize = 0;
    while i < a.len()
        invariant
            i <= a.len(),
            r.len() == i,
            div_each_ok(a@, b@),
            forall|j: int| 0 <= j < i ==> div_out(a[j], b[j], #[trigger] r[j]),
        decreases a.len() - i,
    {
        assert(div_ok(a@[i as int], b@[i as int]));
        r.push(over(a[i], b[i]));
        i += 1;
    }
    r
}

/// Sets `a[i]` to `a[i] / s`, for every `i`.
pub fn div_assign_scalar<T>(a: &mut [T], s: T) where T: Copy + Div<Output = T>
    requires
        forall|i: int| 0 <= i < old(a).len() ==> div_ok(#[trigger] old(a)[i], s),
    ensures
        final(a).len() == old(a).len(),
        forall|i: int| 0 <= i < old(a).len() ==> div_out(old(a)[i], s, #[trigger] final(a)[i]),
{
    let n = a.len();
    let mut i: usize = 0;
    while i < n
        invariant
            i <= n,
            n == a.len(),
            a.len() == old(a).len(),
            forall|j: int| 0 <= j < n ==> div_ok(#[trigger] old(a)[j], s),
            forall|j: int| 0 <= j < i ==> div_out(old(a)[j], s, #[trigger] a[j]),
            forall|j: int| i <= j < n ==> #[trigger] a[j] == old(a)[j],
        decreases n - i,
    {
        assert(div_ok(old(a)[i as int], s));
        let v = over(a[i], s);
        a[i] = v;
        i += 1;
    }
}

/// Sets `a[i]` to `a[i] / b[i]`, for every `i`.
pub fn div_assign_each<T>(a: &mut [T], b: &[T]) where T: Copy + Div<Output = T>
    requires
        div_each_ok(old(a)@, b@),
    ensures
        final(a).len() == old(a).len(),
        forall|i: int| 0 <= i < old(a).len() ==> div_out(old(a)[i], b[i], #[trigger] final(a)[i]),
{
    let n = a.len();
    let mut i: usize = 0;
    while i < n
        invariant
            i <= n,
            n == a.len(),
            a.len() == old(a).len(),
            div_each_ok(old(a)@, b@),
            forall|j: int| 0 <= j < i ==> div_out(old(a)[j], b[j], #[trigger] a[j]),
            forall|j: int| i <= j < n ==> #[trigger] a[j] == old(a)[j],
        decreases n - i,
    {
        assert(div_ok(old(a)@[i as int], b@[i as int]));
        let v = over(a[i], b[i]);
        a[i] = v;
        i += 1;
    }
}

} // verus!
