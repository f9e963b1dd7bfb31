//! Arithmetic on `Matrix`: with a scalar on either side, with another
//! `Matrix` of the same shape, into a new `Matrix` or in place, and
//! negation. All of it works value by value and keeps the shape.
//!
//! Every operation is a method with a name. The operators `+ - * /` and
//! unary `-` are offered on top of the methods, for the forms that have a
//! `Matrix` on the left. The assigning forms go by their names: an operator
//! cannot say which operands it accepts.

use vstd::prelude::*;
use vstd::std_specs::ops::{AddSpecImpl, DivSpecImpl, MulSpecImpl, NegSpecImpl, SubSpecImpl};
use core::ops::{Add, Div, Mul, Neg, Sub};
use crate::elem::{
    add_ok, add_out, div_ok, div_out, mul_ok, mul_out, neg_ok, neg_out, sub_ok, sub_out,
};
use crate::elementwise;
use crate::elementwise::{add_each_ok, div_each_ok, mul_each_ok, sub_each_ok};
use crate::matrix::matrix::Matrix;

verus! {

impl<T: Copy> Matrix<T> {
    /// `m` has the shape of `self`.
    pub open spec fn same_shape(&self, m: &Matrix<T>) -> bool {
        &&& m.wf()
        &&& m.nrows() == self.nrows()
        &&& m.ncols() == self.ncols()
    }

    /// Returns the matrix of the values `-self[i]`.
    pub fn negate(&self) -> (m: Matrix<T>) where T: Neg<Output = T>
        requires
            self.wf(),
            forall|i: int| 0 <= i < self@.len() ==> neg_ok(#[trigger] self@[i]),
        ensures
            self.same_shape(&m),
            forall|i: int| 0 <= i < self@.len() ==> neg_out(self@[i], #[trigger] m@[i]),
    {
        let values = elementwise::negate(self.values());
        Self::with_data(self.rows(), self.cols(), values)
    }

    /// Returns the matrix of the values `self[i] + rhs`.
    pub fn add_scalar(&self, rhs: T) -> (m: Matrix<T>) where T: Add<Output = T>
        requires
            self.wf(),
            forall|i: int| 0 <= i < self@.len() ==> add_ok(#[trigger] self@[i], rhs),
        ensures
            self.same_shape(&m),
            forall|i: int| 0 <= i < self@.len() ==> add_out(self@[i], rhs, #[trigger] m@[i]),
    {
        let values = elementwise::add_scalar(self.values(), rhs);
        Self::with_data(self.rows(), self.cols(), values)
    }

    /// Returns the matrix of the values `lhs + self[i]`.
    pub fn scalar_add(&self, lhs: T) -> (m: Matrix<T>) where T: Add<Output = T>
        requires
            self.wf(),
            forall|i: int| 0 <= i < self@.len() ==> add_ok(lhs, #[trigger] self@[i]),
        ensures
            self.same_shape(&m),
            forall|i: int| 0 <= i < self@.len() ==> add_out(lhs, self@[i], #[trigger] m@[i]),
    {
        let values = elementwise::scalar_add(lhs, self.values());
        Self::with_data(self.rows(), self.cols(), values)
    }

    /// `self` and `rhs` are of one shape, and every
    /// `self[i] + rhs[i]` may be evaluated.
    pub open spec fn add_mat_ok(&self, rhs: &Matrix<T>) -> bool where T: Add<Output = T> {
        &&& self.wf()
        &&& self.same_shape(rhs)
        &&& add_each_ok(self@, rhs@)
    }

    /// Returns the matrix of the values `self[i] + rhs[i]`. The two must
    /// be of one shape.
    pub fn add_mat(&self, rhs: &Matrix<T>) -> (m: Matrix<T>) where T: Add<Output = T>
        requires
            self.add_mat_ok(rhs),
        ensures
            self.same_shape(&m),
            forall|i: int| 0 <= i < self@.len() ==> add_out(self@[i], rhs@[i], #[trigger] m@[i]),
    {
        let values = elementwise::add_each(self.values(), rhs.values());
        Self::with_data(self.rows(), self.cols(), values)
    }

    /// Sets every value `self[i]` to `self[i] + rhs`.
    pub fn add_assign_scalar(&mut self, rhs: T) where T: Add<Output = T>
        requires
            old(self).wf(),
            forall|i: int| 0 <= i < old(self)@.len() ==> add_ok(#[trigger] old(self)@[i], rhs),
        ensures
            old(self).same_shape(final(self)),
            forall|i: int|
                0 <= i < old(self)@.len() ==> add_out(old(self)@[i], rhs, #[trigger] final(self)@[i]),
    {
        elementwise::add_assign_scalar(self.values_mut(), rhs);
    }

    /// Sets every value `self[i]` to `self[i] + rhs[i]`. The two must be
    /// of one shape.
    pub fn add_assign_mat(&mut self, rhs: &Matrix<T>) where T: Add<Output = T>
        requires
            old(self).add_mat_ok(rhs),
        ensures
            old(self).same_shape(final(self)),
            forall|i: int|
                0 <= i < old(self)@.len() ==> add_out(
                    old(self)@[i],
                    rhs@[i],
                    #[trigger] final(self)@[i],
                ),
    {
        elementwise::add_assign_each(self.values_mut(), rhs.values());
    }

    /// Returns the matrix of the values `self[i] - rhs`.
    pub fn sub_scalar(&self, rhs: T) -> (m: Matrix<T>) where T: Sub<Output = T>
        requires
            self.wf(),
            forall|i: int| 0 <= i < self@.len() ==> sub_ok(#[trigger] self@[i], rhs),
        ensures
            self.same_shape(&m),
            forall|i: int| 0 <= i < self@.len() ==> sub_out(self@[i], rhs, #[trigger] m@[i]),
    {
        let values = elementwise::sub_scalar(self.values(), rhs);
        Self::with_data(self.rows(), self.cols(), values)
    }

    /// Returns the matrix of the values `lhs - self[i]`.
    pub fn scalar_sub(&self, lhs: T) -> (m: Matrix<T>) where T: Sub<Output = T>
        requires
            self.wf(),
            forall|i: int| 0 <= i < self@.len() ==> sub_ok(lhs, #[trigger] self@[i]),
        ensures
            self.same_shape(&m),
            forall|i: int| 0 <= i < self@.len() ==> sub_out(lhs, self@[i], #[trigger] m@[i]),
    {
        let values = elementwise::scalar_sub(lhs, self.values());
        Self::with_data(self.rows(), self.cols(), values)
    }

    /// `self` and `rhs` are of one shape, and every
    /// `self[i] - rhs[i]` may be evaluated.
    pub open spec fn sub_mat_ok(&self, rhs: &Matrix<T>) -> bool where T: Sub<Output = T> {
        &&& self.wf()
        &&& self.same_shape(rhs)
        &&& sub_each_ok(self@, rhs@)
    }

    /// Returns the matrix of the values `self[i] - rhs[i]`. The two must
    /// be of one shape.
    pub fn sub_mat(&self, rhs: &Matrix<T>) -> (m: Matrix<T>) where T: Sub<Output = T>
        requires
            self.sub_mat_ok(rhs),
        ensures
            self.same_shape(&m),
            forall|i: int| 0 <= i < self@.len() ==> sub_out(self@[i], rhs@[i], #[trigger] m@[i]),
    {
        let values = elementwise::sub_each(self.values(), rhs.values());
        Self::with_data(self.rows(), self.cols(), values)
    }

    /// Sets every value `self[i]` to `self[i] - rhs`.
    pub fn sub_assign_scalar(&mut self, rhs: T) where T: Sub<Output = T>
        requires
            old(self).wf(),
            forall|i: int| 0 <= i < old(self)@.len() ==> sub_ok(#[trigger] old(self)@[i], rhs),
        ensures
            old(self).same_shape(final(self)),
            forall|i: int|
                0 <= i < old(self)@.len() ==> sub_out(old(self)@[i], rhs, #[trigger] final(self)@[i]),
    {
        elementwise::sub_assign_scalar(self.values_mut(), rhs);
    }

    /// Sets every value `self[i]` to `self[i] - rhs[i]`. The two must be
    /// of one shape.
    pub fn sub_assign_mat(&mut self, rhs: &Matrix<T>) where T: Sub<Output = T>
        requires
            old(self).sub_mat_ok(rhs),
        ensures
            old(self).same_shape(final(self)),
            forall|i: int|
                0 <= i < old(self)@.len() ==> sub_out(
                    old(self)@[i],
                    rhs@[i],
                    #[trigger] final(self)@[i],
                ),
    {
        elementwise::sub_assign_each(self.values_mut(), rhs.values());
    }

    /// Returns the matrix of the values `self[i] * rhs`.
    pub fn mul_scalar(&self, rhs: T) -> (m: Matrix<T>) where T: Mul<Output = T>
        requires
            self.wf(),
            forall|i: int| 0 <= i < self@.len() ==> mul_ok(#[trigger] self@[i], rhs),
        ensures
            self.same_shape(&m),
            forall|i: int| 0 <= i < self@.len() ==> mul_out(self@[i], rhs, #[trigger] m@[i]),
    {
        let values = elementwise::mul_scalar(self.values(), rhs);
        Self::with_data(self.rows(), self.cols(), values)
    }

    /// Returns the matrix of the values `lhs * self[i]`.
    pub fn scalar_mul(&self, lhs: T) -> (m: Matrix<T>) where T: Mul<Output = T>
        requires
            self.wf(),
            forall|i: int| 0 <= i < self@.len() ==> mul_ok(lhs, #[trigger] self@[i]),
        ensures
            self.same_shape(&m),
            forall|i: int| 0 <= i < self@.len() ==> mul_out(lhs, self@[i], #[trigger] m@[i]),
    {
        let values = elementwise::scalar_mul(lhs, self.values());
        Self::with_data(self.rows(), self.cols(), values)
    }

    /// `self` and `rhs` are of one shape, and every
    /// `self[i] * rhs[i]` may be evaluated.
    pub open spec fn mul_mat_ok(&self, rhs: &Matrix<T>) -> bool where T: Mul<Output = T> {
        &&& self.wf()
        &&& self.same_shape(rhs)
        &&& mul_each_ok(self@, rhs@)
    }

    /// Returns the matrix of the values `self[i] * rhs[i]`. The two must
    /// be of one shape.
    pub fn mul_mat(&self, rhs: &Matrix<T>) -> (m: Matrix<T>) where T: Mul<Output = T>
        requires
            self.mul_mat_ok(rhs),
        ensures
            self.same_shape(&m),
            forall|i: int| 0 <= i < self@.len() ==> mul_out(self@[i], rhs@[i], #[trigger] m@[i]),
    {
        let values = elementwise::mul_each(self.values(), rhs.values());
        Self::with_data(self.rows(), self.cols(), values)
    }

    /// Sets every value `self[i]` to `self[i] * rhs`.
    pub fn mul_assign_scalar(&mut self, rhs: T) where T: Mul<Output = T>
        requires
            old(self).wf(),
            forall|i: int| 0 <= i < old(self)@.len() ==> mul_ok(#[trigger] old(self)@[i], rhs),
        ensures
            old(self).same_shape(final(self)),
            forall|i: int|
                0 <= i < old(self)@.len() ==> mul_out(old(self)@[i], rhs, #[trigger] final(self)@[i]),
    {
        elementwise::mul_assign_scalar(self.values_mut(), rhs);
    }

    /// Sets every value `self[i]` to `self[i] * rhs[i]`. The two must be
    /// of one shape.
    pub fn mul_assign_mat(&mut self, rhs: &Matrix<T>) where T: Mul<Output = T>
        requires
            old(self).mul_mat_ok(rhs),
        ensures
            old(self).same_shape(final(self)),
            forall|i: int|
                0 <= i < old(self)@.len() ==> mul_out(
                    old(self)@[i],
                    rhs@[i],
                    #[trigger] final(self)@[i],
                ),
    {
        elementwise::mul_assign_each(self.values_mut(), rhs.values());
    }

    /// Returns the matrix of the values `self[i] / rhs`.
    pub fn div_scalar(&self, rhs: T) -> (m: Matrix<T>) where T: Div<Output = T>
        requires
            self.wf(),
            forall|i: int| 0 <= i < self@.len() ==> div_ok(#[trigger] self@[i], rhs),
        ensures
            self.same_shape(&m),
            forall|i: int| 0 <= i < self@.len() ==> div_out(self@[i], rhs, #[trigger] m@[i]),
    {
        let values = elementwise::div_scalar(self.values(), rhs);
        Self::with_data(self.rows(), self.cols(), values)
    }

    /// Returns the matrix of the values `lhs / self[i]`.
    pub fn scalar_div(&self, lhs: T) -> (m: Matrix<T>) where T: Div<Output = T>
        requires
            self.wf(),
            forall|i: int| 0 <= i < self@.len() ==> div_ok(lhs, #[trigger] self@[i]),
        ensures
            self.same_shape(&m),
            forall|i: int| 0 <= i < self@.len() ==> div_out(lhs, self@[i], #[trigger] m@[i]),
    {
        let values = elementwise::scalar_div(lhs, self.values());
        Self::with_data(self.rows(), self.cols(), values)
    }

    /// `self` and `rhs` are of one shape, and every
    /// `self[i] / rhs[i]` may be evaluated.
    pub open spec fn div_mat_ok(&self, rhs: &Matrix<T>) -> bool where T: Div<Output = T> {
        &&& self.wf()
        &&& self.same_shape(rhs)
        &&& div_each_ok(self@, rhs@)
    }

    /// Returns the matrix of the values `self[i] / rhs[i]`. The two must
    /// be of one shape.
    pub fn div_mat(&self, rhs: &Matrix<T>) -> (m: Matrix<T>) where T: Div<Output = T>
        requires
            self.div_mat_ok(rhs),
        ensures
            self.same_shape(&m),
            forall|i: int| 0 <= i < self@.len() ==> div_out(self@[i], rhs@[i], #[trigger] m@[i]),
    {
        let values = elementwise::div_each(self.values(), rhs.values());
        Self::with_data(self.rows(), self.cols(), values)
    }

    /// Sets every value `self[i]` to `self[i] / rhs`.
    pub fn div_assign_scalar(&mut self, rhs: T) where T: Div<Output = T>
        requires
            old(self).wf(),
            forall|i: int| 0 <= i < old(self)@.len() ==> div_ok(#[trigger] old(self)@[i], rhs),
        ensures
            old(self).same_shape(final(self)),
            forall|i: int|
                0 <= i < old(self)@.len() ==> div_out(old(self)@[i], rhs, #[trigger] final(self)@[i]),
    {
        elementwise::div_assign_scalar(self.values_mut(), rhs);
    }

    /// Sets every value `self[i]` to `self[i] / rhs[i]`. The two must be
    /// of one shape.
    pub fn div_assign_mat(&mut self, rhs: &Matrix<T>) where T: Div<Output = T>
        requires
            old(self).div_mat_ok(rhs),
        ensures
            old(self).same_shape(final(self)),
            forall|i: int|
                0 <= i < old(self)@.len() ==> div_out(
                    old(self)@[i],
                    rhs@[i],
                    #[trigger] final(self)@[i],
                ),
    {
        elementwise::div_assign_each(self.values_mut(), rhs.values());
    }
}

impl<T: Copy + Neg<Output = T>> NegSpecImpl for Matrix<T> {
    /// The result is not stated as a function of the operands: the element
    /// operations are described by the results they may give.
    open spec fn obeys_neg_spec() -> bool {
        false
    }

    /// The operands that the operator accepts.
    open spec fn neg_req(self) -> bool {
        &&& self.wf()
        &&& forall|i: int| 0 <= i < self@.len() ==> neg_ok(#[trigger] self@[i])
    }

    /// Left open: see the `ensures` of the operator.
    open spec fn neg_spec(self) -> Matrix<T> {
        arbitrary()
    }
}

impl<T: Copy + Neg<Output = T>> Neg for Matrix<T> {
    type Output = Matrix<T>;

    /// `-self`: see `negate`.
    fn neg(self) -> (m: Matrix<T>)
        ensures
            self.same_shape(&m),
            forall|i: int| 0 <= i < self@.len() ==> neg_out(self@[i], #[trigger] m@[i]),
    {
        self.negate()
    }
}

impl<T: Copy + Add<Output = T>> AddSpecImpl<T> for Matrix<T> {
    /// The result is not stated as a function of the operands: the element
    /// operations are described by the results they may give.
    open spec fn obeys_add_spec() -> bool {
        false
    }

    /// The operands that the operator accepts.
    open spec fn add_req(self, rhs: T) -> bool {
        &&& self.wf()
        &&& forall|i: int| 0 <= i < self@.len() ==> add_ok(#[trigger] self@[i], rhs)
    }

    /// Left open: see the `ensures` of the operator.
    open spec fn add_spec(self, rhs: T) -> Matrix<T> {
        arbitrary()
    }
}

impl<T: Copy + Add<Output = T>> Add<T> for Matrix<T> {
    type Output = Matrix<T>;

    /// `self + rhs`: see `add_scalar`.
    fn add(self, rhs: T) -> (m: Matrix<T>)
        ensures
            self.same_shape(&m),
            forall|i: int| 0 <= i < self@.len() ==> add_out(self@[i], rhs, #[trigger] m@[i]),
    {
        self.add_scalar(rhs)
    }
}

impl<T: Copy + Add<Output = T>> AddSpecImpl<Matrix<T>> for Matrix<T> {
    /// The result is not stated as a function of the operands: the element
    /// operations are described by the results they may give.
    open spec fn obeys_add_spec() -> bool {
        false
    }

    /// The operands that the operator accepts.
    open spec fn add_req(self, rhs: Matrix<T>) -> bool {
        self.add_mat_ok(&rhs)
    }

    /// Left open: see the `ensures` of the operator.
    open spec fn add_spec(self, rhs: Matrix<T>) -> Matrix<T> {
        arbitrary()
    }
}

impl<T: Copy + Add<Output = T>> Add<Matrix<T>> for Matrix<T> {
    type Output = Matrix<T>;

    /// `self + rhs`: see `add_mat`.
    fn add(self, rhs: Matrix<T>) -> (m: Matrix<T>)
        ensures
            self.same_shape(&m),
            forall|i: int| 0 <= i < self@.len() ==> add_out(self@[i], rhs@[i], #[trigger] m@[i]),
    {
        self.add_mat(&rhs)
    }
}

impl<T: Copy + Sub<Output = T>> SubSpecImpl<T> for Matrix<T> {
    /// The result is not stated as a function of the operands: the element
    /// operations are described by the results they may give.
    open spec fn obeys_sub_spec() -> bool {
        false
    }

    /// The operands that the operator accepts.
    open spec fn sub_req(self, rhs: T) -> bool {
        &&& self.wf()
        &&& forall|i: int| 0 <= i < self@.len() ==> sub_ok(#[trigger] self@[i], rhs)
    }

    /// Left open: see the `ensures` of the operator.
    open spec fn sub_spec(self, rhs: T) -> Matrix<T> {
        arbitrary()
    }
}

impl<T: Copy + Sub<Output = T>> Sub<T> for Matrix<T> {
    type Output = Matrix<T>;

    /// `self - rhs`: see `sub_scalar`.
    fn sub(self, rhs: T) -> (m: Matrix<T>)
        ensures
            self.same_shape(&m),
            forall|i: int| 0 <= i < self@.len() ==> sub_out(self@[i], rhs, #[trigger] m@[i]),
    {
        self.sub_scalar(rhs)
    }
}

impl<T: Copy + Sub<Output = T>> SubSpecImpl<Matrix<T>> for Matrix<T> {
    /// The result is not stated as a function of the operands: the element
    /// operations are described by the results they may give.
    open spec fn obeys_sub_spec() -> bool {
        false
    }

    /// The operands that the operator accepts.
    open spec fn sub_req(self, rhs: Matrix<T>) -> bool {
        self.sub_mat_ok(&rhs)
    }

    /// Left open: see the `ensures` of the operator.
    open spec fn sub_spec(self, rhs: Matrix<T>) -> Matrix<T> {
        arbitrary()
    }
}

impl<T: Copy + Sub<Output = T>> Sub<Matrix<T>> for Matrix<T> {
    type Output = Matrix<T>;

    /// `self - rhs`: see `sub_mat`.
    fn sub(self, rhs: Matrix<T>) -> (m: Matrix<T>)
        ensures
            self.same_shape(&m),
            forall|i: int| 0 <= i < self@.len() ==> sub_out(self@[i], rhs@[i], #[trigger] m@[i]),
    {
        self.sub_mat(&rhs)
    }
}

impl<T: Copy + Mul<Output = T>> MulSpecImpl<T> for Matrix<T> {
    /// The result is not stated as a function of the operands: the element
    /// operations are described by the results they may give.
    open spec fn obeys_mul_spec() -> bool {
        false
    }

    /// The operands that the operator accepts.
    open spec fn mul_req(self, rhs: T) -> bool {
        &&& self.wf()
        &&& forall|i: int| 0 <= i < self@.len() ==> mul_ok(#[trigger] self@[i], rhs)
    }

    /// Left open: see the `ensures` of the operator.
    open spec fn mul_spec(self, rhs: T) -> Matrix<T> {
        arbitrary()
    }
}

impl<T: Copy + Mul<Output = T>> Mul<T> for Matrix<T> {
    type Output = Matrix<T>;

    /// `self * rhs`: see `mul_scalar`.
    fn mul(self, rhs: T) -> (m: Matrix<T>)
        ensures
            self.same_shape(&m),
            forall|i: int| 0 <= i < self@.len() ==> mul_out(self@[i], rhs, #[trigger] m@[i]),
    {
        self.mul_scalar(rhs)
    }
}

impl<T: Copy + Mul<Output = T>> MulSpecImpl<Matrix<T>> for Matrix<T> {
    /// The result is not stated as a function of the operands: the element
    /// operations are described by the results they may give.
    open spec fn obeys_mul_spec() -> bool {
        false
    }

    /// The operands that the operator accepts.
    open spec fn mul_req(self, rhs: Matrix<T>) -> bool {
        self.mul_mat_ok(&rhs)
    }

    /// Left open: see the `ensures` of the operator.
    open spec fn mul_spec(self, rhs: Matrix<T>) -> Matrix<T> {
        arbitrary()
    }
}

impl<T: Copy + Mul<Output = T>> Mul<Matrix<T>> for Matrix<T> {
    type Output = Matrix<T>;

    /// `self * rhs`: see `mul_mat`.
    fn mul(self, rhs: Matrix<T>) -> (m: Matrix<T>)
        ensures
            self.same_shape(&m),
            forall|i: int| 0 <= i < self@.len() ==> mul_out(self@[i], rhs@[i], #[trigger] m@[i]),
    {
        self.mul_mat(&rhs)
    }
}

impl<T: Copy + Div<Output = T>> DivSpecImpl<T> for Matrix<T> {
    /// The result is not stated as a function of the operands: the element
    /// operations are described by the results they may give.
    open spec fn obeys_div_spec() -> bool {
        false
    }

    /// The operands that the operator accepts.
    open spec fn div_req(self, rhs: T) -> bool {
        &&& self.wf()
        &&& forall|i: int| 0 <= i < self@.len() ==> div_ok(#[trigger] self@[i], rhs)
    }

    /// Left open: see the `ensures` of the operator.
    open spec fn div_spec(self, rhs: T) -> Matrix<T> {
        arbitrary()
    }
}

impl<T: Copy + Div<Output = T>> Div<T> for Matrix<T> {
    type Output = Matrix<T>;

    /// `self / rhs`: see `div_scalar`.
    fn div(self, rhs: T) -> (m: Matrix<T>)
        ensures
            self.same_shape(&m),
            forall|i: int| 0 <= i < self@.len() ==> div_out(self@[i], rhs, #[trigger] m@[i]),
    {
        self.div_scalar(rhs)
    }
}

impl<T: Copy + Div<Output = T>> DivSpecImpl<Matrix<T>> for Matrix<T> {
    /// The result is not stated as a function of the operands: the element
    /// operations are described by the results they may give.
    open spec fn obeys_div_spec() -> bool {
        false
    }

    /// The operands that the operator accepts.
    open spec fn div_req(self, rhs: Matrix<T>) -> bool {
        self.div_mat_ok(&rhs)
    }

    /// Left open: see the `ensures` of the operator.
    open spec fn div_spec(self, rhs: Matrix<T>) -> Matrix<T> {
        arbitrary()
    }
}

impl<T: Copy + Div<Output = T>> Div<Matrix<T>> for Matrix<T> {
    type Output = Matrix<T>;

    /// `self / rhs`: see `div_mat`.
    fn div(self, rhs: Matrix<T>) -> (m: Matrix<T>)
        ensures
            self.same_shape(&m),
            forall|i: int| 0 <= i < self@.len() ==> div_out(self@[i], rhs@[i], #[trigger] m@[i]),
    {
        self.div_mat(&rhs)
    }
}

} // verus!
