//! Arithmetic on `Array`: with a scalar on either side, with another
//! `Array` of the same length, into a new `Array` or in place, and negation.
//!
//! Every operation is a method with a name. The operators `+ - * /` and
//! unary `-` are offered on top of the methods, for the forms that have
//! `Array` on the left. The assigning forms go by their names: an
//! operator cannot say which operands it accepts.

use vstd::prelude::*;
use vstd::std_specs::ops::{AddSpecImpl, DivSpecImpl, MulSpecImpl, NegSpecImpl, SubSpecImpl};
use core::ops::{Add, Div, Mul, Neg, Sub};
use crate::elem::{
    add_ok, add_out, div_ok, div_out, mul_ok, mul_out, neg_ok, neg_out, sub_ok, sub_out,
};
use crate::elementwise;
use crate::elementwise::{add_each_ok, div_each_ok, mul_each_ok, sub_each_ok};
use crate::array::array::Array;

verus! {

impl<T: Copy> Array<T> {
    /// Returns `-self[i]` for every `i`.
    pub fn negate(&self) -> (r: Array<T>) where T: Neg<Output = T>
        requires
            forall|i: int| 0 <= i < self@.len() ==> neg_ok(#[trigger] self@[i]),
        ensures
            r@.len() == self@.len(),
            forall|i: int| 0 <= i < self@.len() ==> neg_out(self@[i], #[trigger] r@[i]),
    {
        Array::from_buffer(elementwise::negate(self.buffer()))
    }

    /// Returns `self[i] + rhs` for every `i`.
    pub fn add_scalar(&self, rhs: T) -> (r: Array<T>) where T: Add<Output = T>
        requires
            forall|i: int| 0 <= i < self@.len() ==> add_ok(#[trigger] self@[i], rhs),
        ensures
            r@.len() == self@.len(),
            forall|i: int| 0 <= i < self@.len() ==> add_out(self@[i], rhs, #[trigger] r@[i]),
    {
        Array::from_buffer(elementwise::add_scalar(self.buffer(), rhs))
    }

    /// Returns `lhs + self[i]` for every `i`.
    pub fn scalar_add(&self, lhs: T) -> (r: Array<T>) where T: Add<Output = T>
        requires
            forall|i: int| 0 <= i < self@.len() ==> add_ok(lhs, #[trigger] self@[i]),
        ensures
            r@.len() == self@.len(),
            forall|i: int| 0 <= i < self@.len() ==> add_out(lhs, self@[i], #[trigger] r@[i]),
    {
        Array::from_buffer(elementwise::scalar_add(lhs, self.buffer()))
    }

    /// Returns `self[i] + rhs[i]` for every `i`. The two must have one
    /// length.
    pub fn add_array(&self, rhs: &Array<T>) -> (r: Array<T>) where T: Add<Output = T>
        requires
            add_each_ok(self@, rhs@),
        ensures
            r@.len() == self@.len(),
            forall|i: int| 0 <= i < self@.len() ==> add_out(self@[i], rhs@[i], #[trigger] r@[i]),
    {
        Array::from_buffer(elementwise::add_each(self.buffer(), rhs.buffer()))
    }

    /// Sets `self[i]` to `self[i] + rhs`, for every `i`.
    pub fn add_assign_scalar(&mut self, rhs: T) where T: Add<Output = T>
        requires
            forall|i: int| 0 <= i < old(self)@.len() ==> add_ok(#[trigger] old(self)@[i], rhs),
        ensures
            final(self)@.len() == old(self)@.len(),
            forall|i: int|
                0 <= i < old(self)@.len() ==> add_out(old(self)@[i], rhs, #[trigger] final(self)@[i]),
    {
        elementwise::add_assign_scalar(self.buffer_mut(), rhs);
    }

    /// Sets `self[i]` to `self[i] + rhs[i]`, for every `i`. The two must
    /// have one length.
    pub fn add_assign_array(&mut self, rhs: &Array<T>) where T: Add<Output = T>
        requires
            add_each_ok(old(self)@, rhs@),
        ensures
            final(self)@.len() == old(self)@.len(),
            forall|i: int|
                0 <= i < old(self)@.len() ==> add_out(
                    old(self)@[i],
                    rhs@[i],
                    #[trigger] final(self)@[i],
                ),
    {
        elementwise::add_assign_each(self.buffer_mut(), rhs.buffer());
    }

    /// Returns `self[i] - rhs` for every `i`.
    pub fn sub_scalar(&self, rhs: T) -> (r: Array<T>) where T: Sub<Output = T>
        requires
            forall|i: int| 0 <= i < self@.len() ==> sub_ok(#[trigger] self@[i], rhs),
        ensures
            r@.len() == self@.len(),
            forall|i: int| 0 <= i < self@.len() ==> sub_out(self@[i], rhs, #[trigger] r@[i]),
    {
        Array::from_buffer(elementwise::sub_scalar(self.buffer(), rhs))
    }

    /// Returns `lhs - self[i]` for every `i`.
    pub fn scalar_sub(&self, lhs: T) -> (r: Array<T>) where T: Sub<Output = T>
        requires
            forall|i: int| 0 <= i < self@.len() ==> sub_ok(lhs, #[trigger] self@[i]),
        ensures
            r@.len() == self@.len(),
            forall|i: int| 0 <= i < self@.len() ==> sub_out(lhs, self@[i], #[trigger] r@[i]),
    {
        Array::from_buffer(elementwise::scalar_sub(lhs, self.buffer()))
    }

    /// Returns `self[i] - rhs[i]` for every `i`. The two must have one
    /// length.
    pub fn sub_array(&self, rhs: &Array<T>) -> (r: Array<T>) where T: Sub<Output = T>
        requires
            sub_each_ok(self@, rhs@),
        ensures
            r@.len() == self@.len(),
            forall|i: int| 0 <= i < self@.len() ==> sub_out(self@[i], rhs@[i], #[trigger] r@[i]),
    {
        Array::from_buffer(elementwise::sub_each(self.buffer(), rhs.buffer()))
    }

    /// Sets `self[i]` to `self[i] - rhs`, for every `i`.
    pub fn sub_assign_scalar(&mut self, rhs: T) where T: Sub<Output = T>
        requires
            forall|i: int| 0 <= i < old(self)@.len() ==> sub_ok(#[trigger] old(self)@[i], rhs),
        ensures
            final(self)@.len() == old(self)@.len(),
            forall|i: int|
                0 <= i < old(self)@.len() ==> sub_out(old(self)@[i], rhs, #[trigger] final(self)@[i]),
    {
        elementwise::sub_assign_scalar(self.buffer_mut(), rhs);
    }

    /// Sets `self[i]` to `self[i] - rhs[i]`, for every `i`. The two must
    /// have one length.
    pub fn sub_assign_array(&mut self, rhs: &Array<T>) where T: Sub<Output = T>
        requires
            sub_each_ok(old(self)@, rhs@),
        ensures
            final(self)@.len() == old(self)@.len(),
            forall|i: int|
                0 <= i < old(self)@.len() ==> sub_out(
                    old(self)@[i],
                    rhs@[i],
                    #[trigger] final(self)@[i],
                ),
    {
        elementwise::sub_assign_each(self.buffer_mut(), rhs.buffer());
    }

    /// Returns `self[i] * rhs` for every `i`.
    pub fn mul_scalar(&self, rhs: T) -> (r: Array<T>) where T: Mul<Output = T>
        requires
            forall|i: int| 0 <= i < self@.len() ==> mul_ok(#[trigger] self@[i], rhs),
        ensures
            r@.len() == self@.len(),
            forall|i: int| 0 <= i < self@.len() ==> mul_out(self@[i], rhs, #[trigger] r@[i]),
    {
        Array::from_buffer(elementwise::mul_scalar(self.buffer(), rhs))
    }

    /// Returns `lhs * self[i]` for every `i`.
    pub fn scalar_mul(&self, lhs: T) -> (r: Array<T>) where T: Mul<Output = T>
        requires
            forall|i: int| 0 <= i < self@.len() ==> mul_ok(lhs, #[trigger] self@[i]),
        ensures
            r@.len() == self@.len(),
            forall|i: int| 0 <= i < self@.len() ==> mul_out(lhs, self@[i], #[trigger] r@[i]),
    {
        Array::from_buffer(elementwise::scalar_mul(lhs, self.buffer()))
    }

    /// Returns `self[i] * rhs[i]` for every `i`. The two must have one
    /// length.
    pub fn mul_array(&self, rhs: &Array<T>) -> (r: Array<T>) where T: Mul<Output = T>
        requires
            mul_each_ok(self@, rhs@),
        ensures
            r@.len() == self@.len(),
            forall|i: int| 0 <= i < self@.len() ==> mul_out(self@[i], rhs@[i], #[trigger] r@[i]),
    {
        Array::from_buffer(elementwise::mul_each(self.buffer(), rhs.buffer()))
    }

    /// Sets `self[i]` to `self[i] * rhs`, for every `i`.
    pub fn mul_assign_scalar(&mut self, rhs: T) where T: Mul<Output = T>
        requires
            forall|i: int| 0 <= i < old(self)@.len() ==> mul_ok(#[trigger] old(self)@[i], rhs),
        ensures
            final(self)@.len() == old(self)@.len(),
            forall|i: int|
                0 <= i < old(self)@.len() ==> mul_out(old(self)@[i], rhs, #[trigger] final(self)@[i]),
    {
        elementwise::mul_assign_scalar(self.buffer_mut(), rhs);
    }

    /// Sets `self[i]` to `self[i] * rhs[i]`, for every `i`. The two must
    /// have one length.
    pub fn mul_assign_array(&mut self, rhs: &Array<T>) where T: Mul<Output = T>
        requires
            mul_each_ok(old(self)@, rhs@),
        ensures
            final(self)@.len() == old(self)@.len(),
            forall|i: int|
                0 <= i < old(self)@.len() ==> mul_out(
                    old(self)@[i],
                    rhs@[i],
                    #[trigger] final(self)@[i],
                ),
    {
        elementwise::mul_assign_each(self.buffer_mut(), rhs.buffer());
    }

    /// Returns `self[i] / rhs` for every `i`.
    pub fn div_scalar(&self, rhs: T) -> (r: Array<T>) where T: Div<Output = T>
        requires
            forall|i: int| 0 <= i < self@.len() ==> div_ok(#[trigger] self@[i], rhs),
        ensures
            r@.len() == self@.len(),
            forall|i: int| 0 <= i < self@.len() ==> div_out(self@[i], rhs, #[trigger] r@[i]),
    {
        Array::from_buffer(elementwise::div_scalar(self.buffer(), rhs))
    }

    /// Returns `lhs / self[i]` for every `i`.
    pub fn scalar_div(&self, lhs: T) -> (r: Array<T>) where T: Div<Output = T>
        requires
            forall|i: int| 0 <= i < self@.len() ==> div_ok(lhs, #[trigger] self@[i]),
        ensures
            r@.len() == self@.len(),
            forall|i: int| 0 <= i < self@.len() ==> div_out(lhs, self@[i], #[trigger] r@[i]),
    {
        Array::from_buffer(elementwise::scalar_div(lhs, self.buffer()))
    }

    /// Returns `self[i] / rhs[i]` for every `i`. The two must have one
    /// length.
    pub fn div_array(&self, rhs: &Array<T>) -> (r: Array<T>) where T: Div<Output = T>
        requires
            div_each_ok(self@, rhs@),
        ensures
            r@.len() == self@.len(),
            forall|i: int| 0 <= i < self@.len() ==> div_out(self@[i], rhs@[i], #[trigger] r@[i]),
    {
        Array::from_buffer(elementwise::div_each(self.buffer(), rhs.buffer()))
    }

    /// Sets `self[i]` to `self[i] / rhs`, for every `i`.
    pub fn div_assign_scalar(&mut self, rhs: T) where T: Div<Output = T>
        requires
            forall|i: int| 0 <= i < old(self)@.len() ==> div_ok(#[trigger] old(self)@[i], rhs),
        ensures
            final(self)@.len() == old(self)@.len(),
            forall|i: int|
                0 <= i < old(self)@.len() ==> div_out(old(self)@[i], rhs, #[trigger] final(self)@[i]),
    {
        elementwise::div_assign_scalar(self.buffer_mut(), rhs);
    }

    /// Sets `self[i]` to `self[i] / rhs[i]`, for every `i`. The two must
    /// have one length.
    pub fn div_assign_array(&mut self, rhs: &Array<T>) where T: Div<Output = T>
        requires
            div_each_ok(old(self)@, rhs@),
        ensures
            final(self)@.len() == old(self)@.len(),
            forall|i: int|
                0 <= i < old(self)@.len() ==> div_out(
                    old(self)@[i],
                    rhs@[i],
                    #[trigger] final(self)@[i],
                ),
    {
        elementwise::div_assign_each(self.buffer_mut(), rhs.buffer());
    }
}

impl<T: Copy + Neg<Output = T>> NegSpecImpl for Array<T> {
    /// The result is not stated as a function of the operands: the element
    /// operations are described by the results they may give.
    open spec fn obeys_neg_spec() -> bool {
        false
    }

    /// The operands that the operator accepts.
    open spec fn neg_req(self) -> bool {
        forall|i: int| 0 <= i < self@.len() ==> neg_ok(#[trigger] self@[i])
    }

    /// Left open: see the `ensures` of the operator.
    open spec fn neg_spec(self) -> Array<T> {
        arbitrary()
    }
}

impl<T: Copy + Neg<Output = T>> Neg for Array<T> {
    type Output = Array<T>;

    /// `-self`: see `negate`.
    fn neg(self) -> (r: Array<T>)
        ensures
            r@.len() == self@.len(),
            forall|i: int| 0 <= i < self@.len() ==> neg_out(self@[i], #[trigger] r@[i]),
    {
        self.negate()
    }
}

impl<T: Copy + Add<Output = T>> AddSpecImpl<T> for Array<T> {
    /// The result is not stated as a function of the operands: the element
    /// operations are described by the results they may give.
    open spec fn obeys_add_spec() -> bool {
        false
    }

    /// The operands that the operator accepts.
    open spec fn add_req(self, rhs: T) -> bool {
        forall|i: int| 0 <= i < self@.len() ==> add_ok(#[trigger] self@[i], rhs)
    }

    /// Left open: see the `ensures` of the operator.
    open spec fn add_spec(self, rhs: T) -> Array<T> {
        arbitrary()
    }
}

impl<T: Copy + Add<Output = T>> Add<T> for Array<T> {
    type Output = Array<T>;

    /// `self + rhs`: see `add_scalar`.
    fn add(self, rhs: T) -> (r: Array<T>)
        ensures
            r@.len() == self@.len(),
            forall|i: int| 0 <= i < self@.len() ==> add_out(self@[i], rhs, #[trigger] r@[i]),
    {
        self.add_scalar(rhs)
    }
}

impl<T: Copy + Add<Output = T>> AddSpecImpl<Array<T>> for Array<T> {
    /// The result is not stated as a function of the operands: the element
    /// operations are described by the results they may give.
    open spec fn obeys_add_spec() -> bool {
        false
    }

    /// The operands that the operator accepts.
    open spec fn add_req(self, rhs: Array<T>) -> bool {
        add_each_ok(self@, rhs@)
    }

    /// Left open: see the `ensures` of the operator.
    open spec fn add_spec(self, rhs: Array<T>) -> Array<T> {
        arbitrary()
    }
}

impl<T: Copy + Add<Output = T>> Add<Array<T>> for Array<T> {
    type Output = Array<T>;

    /// `self + rhs`: see `add_array`.
    fn add(self, rhs: Array<T>) -> (r: Array<T>)
        ensures
            r@.len() == self@.len(),
            forall|i: int| 0 <= i < self@.len() ==> add_out(self@[i], rhs@[i], #[trigger] r@[i]),
    {
        self.add_array(&rhs)
    }
}

impl<T: Copy + Sub<Output = T>> SubSpecImpl<T> for Array<T> {
    /// The result is not stated as a function of the operands: the element
    /// operations are described by the results they may give.
    open spec fn obeys_sub_spec() -> bool {
        false
    }

    /// The operands that the operator accepts.
    open spec fn sub_req(self, rhs: T) -> bool {
        forall|i: int| 0 <= i < self@.len() ==> sub_ok(#[trigger] self@[i], rhs)
    }

    /// Left open: see the `ensures` of the operator.
    open spec fn sub_spec(self, rhs: T) -> Array<T> {
        arbitrary()
    }
}

impl<T: Copy + Sub<Output = T>> Sub<T> for Array<T> {
    type Output = Array<T>;

    /// `self - rhs`: see `sub_scalar`.
    fn sub(self, rhs: T) -> (r: Array<T>)
        ensures
            r@.len() == self@.len(),
            forall|i: int| 0 <= i < self@.len() ==> sub_out(self@[i], rhs, #[trigger] r@[i]),
    {
        self.sub_scalar(rhs)
    }
}

impl<T: Copy + Sub<Output = T>> SubSpecImpl<Array<T>> for Array<T> {
    /// The result is not stated as a function of the operands: the element
    /// operations are described by the results they may give.
    open spec fn obeys_sub_spec() -> bool {
        false
    }

    /// The operands that the operator accepts.
    open spec fn sub_req(self, rhs: Array<T>) -> bool {
        sub_each_ok(self@, rhs@)
    }

    /// Left open: see the `ensures` of the operator.
    open spec fn sub_spec(self, rhs: Array<T>) -> Array<T> {
        arbitrary()
    }
}

impl<T: Copy + Sub<Output = T>> Sub<Array<T>> for Array<T> {
    type Output = Array<T>;

    /// `self - rhs`: see `sub_array`.
    fn sub(self, rhs: Array<T>) -> (r: Array<T>)
        ensures
            r@.len() == self@.len(),
            forall|i: int| 0 <= i < self@.len() ==> sub_out(self@[i], rhs@[i], #[trigger] r@[i]),
    {
        self.sub_array(&rhs)
    }
}

impl<T: Copy + Mul<Output = T>> MulSpecImpl<T> for Array<T> {
    /// The result is not stated as a function of the operands: the element
    /// operations are described by the results they may give.
    open spec fn obeys_mul_spec() -> bool {
        false
    }

    /// The operands that the operator accepts.
    open spec fn mul_req(self, rhs: T) -> bool {
        forall|i: int| 0 <= i < self@.len() ==> mul_ok(#[trigger] self@[i], rhs)
    }

    /// Left open: see the `ensures` of the operator.
    open spec fn mul_spec(self, rhs: T) -> Array<T> {
        arbitrary()
    }
}

impl<T: Copy + Mul<Output = T>> Mul<T> for Array<T> {
    type Output = Array<T>;

    /// `self * rhs`: see `mul_scalar`.
    fn mul(self, rhs: T) -> (r: Array<T>)
        ensures
            r@.len() == self@.len(),
            forall|i: int| 0 <= i < self@.len() ==> mul_out(self@[i], rhs, #[trigger] r@[i]),
    {
        self.mul_scalar(rhs)
    }
}

impl<T: Copy + Mul<Output = T>> MulSpecImpl<Array<T>> for Array<T> {
    /// The result is not stated as a function of the operands: the element
    /// operations are described by the results they may give.
    open spec fn obeys_mul_spec() -> bool {
        false
    }

    /// The operands that the operator accepts.
    open spec fn mul_req(self, rhs: Array<T>) -> bool {
        mul_each_ok(self@, rhs@)
    }

    /// Left open: see the `ensures` of the operator.
    open spec fn mul_spec(self, rhs: Array<T>) -> Array<T> {
        arbitrary()
    }
}

impl<T: Copy + Mul<Output = T>> Mul<Array<T>> for Array<T> {
    type Output = Array<T>;

    /// `self * rhs`: see `mul_array`.
    fn mul(self, rhs: Array<T>) -> (r: Array<T>)
        ensures
            r@.len() == self@.len(),
            forall|i: int| 0 <= i < self@.len() ==> mul_out(self@[i], rhs@[i], #[trigger] r@[i]),
    {
        self.mul_array(&rhs)
    }
}

impl<T: Copy + Div<Output = T>> DivSpecImpl<T> for Array<T> {
    /// The result is not stated as a function of the operands: the element
    /// operations are described by the results they may give.
    open spec fn obeys_div_spec() -> bool {
        false
    }

    /// The operands that the operator accepts.
    open spec fn div_req(self, rhs: T) -> bool {
        forall|i: int| 0 <= i < self@.len() ==> div_ok(#[trigger] self@[i], rhs)
    }

    /// Left open: see the `ensures` of the operator.
    open spec fn div_spec(self, rhs: T) -> Array<T> {
        arbitrary()
    }
}

impl<T: Copy + Div<Output = T>> Div<T> for Array<T> {
    type Output = Array<T>;

    /// `self / rhs`: see `div_scalar`.
    fn div(self, rhs: T) -> (r: Array<T>)
        ensures
            r@.len() == self@.len(),
            forall|i: int| 0 <= i < self@.len() ==> div_out(self@[i], rhs, #[trigger] r@[i]),
    {
        self.div_scalar(rhs)
    }
}

impl<T: Copy + Div<Output = T>> DivSpecImpl<Array<T>> for Array<T> {
    /// The result is not stated as a function of the operands: the element
    /// operations are described by the results they may give.
    open spec fn obeys_div_spec() -> bool {
        false
    }

    /// The operands that the operator accepts.
    open spec fn div_req(self, rhs: Array<T>) -> bool {
        div_each_ok(self@, rhs@)
    }

    /// Left open: see the `ensures` of the operator.
    open spec fn div_spec(self, rhs: Array<T>) -> Array<T> {
        arbitrary()
    }
}

impl<T: Copy + Div<Output = T>> Div<Array<T>> for Array<T> {
    type Output = Array<T>;

    /// `self / rhs`: see `div_array`.
    fn div(self, rhs: Array<T>) -> (r: Array<T>)
        ensures
            r@.len() == self@.len(),
            forall|i: int| 0 <= i < self@.len() ==> div_out(self@[i], rhs@[i], #[trigger] r@[i]),
    {
        self.div_array(&rhs)
    }
}

} // verus!
