//! The capabilities that an element type offers.
//!
//! Each capability is a trait of its own, so that an operation asks only for
//! what it uses: a real scalar need not know how to conjugate. The traits
//! promise nothing about the values they return; the impls for the complex
//! numbers of `num_complex` say which call of that crate gave the value.
//! Beside each trait stands a predicate that says "this value came out of
//! that method on this input", and the containers' contracts are stated over
//! those predicates.

use vstd::prelude::*;
use crate::complex::{magnitude, norm_value};

verus! {

/// A real scalar.
///
/// It is a value type with an order; whatever else an operation needs of it
/// is asked for where the operation is declared.
pub trait Float: Copy + PartialOrd {

}

impl<T: Copy + PartialOrd> Float for T {

}

/// An element type built on floating point: a real scalar held in a `Real`,
/// or a complex scalar whose two parts are `Real`s.
///
/// The capabilities below are offered where `Real` is a floating-point type
/// of `num_traits`, which is what lets the complex numbers of `num_complex`
/// have them.
pub trait Scalar {
    /// The floating-point type that the element type is built on.
    type Real;
}

impl<F: Float> Scalar for num_complex::Complex<F> {
    type Real = F;
}

/// The magnitude of a scalar, as a real of type `F`.
pub trait Norm<F>: Scalar {
    /// The magnitude of `self`.
    fn norm(&self) -> F where Self::Real: num_traits::Float;
}

/// `o` is a value that the magnitude of `x` may evaluate to.
pub open spec fn norm_out<F, N: Norm<F>>(x: N, o: F) -> bool where N::Real: num_traits::Float {
    call_ensures(N::norm, (&x,), o)
}

impl<F: Float> Norm<F> for num_complex::Complex<F> {
    fn norm(&self) -> (r: F) where F: num_traits::Float
        ensures
            norm_value(*self, r),
    {
        magnitude(self)
    }
}

/// The test for "not a number".
pub trait IsNaN: Scalar {
    /// Whether `self` is not a number.
    fn is_nan(&self) -> bool where Self::Real: num_traits::float::FloatCore;
}

/// `b` is an answer that the not-a-number test may give for `x`.
pub open spec fn nan_test_out<T: IsNaN>(x: T, b: bool) -> bool where
    T::Real: num_traits::float::FloatCore,
 {
    call_ensures(T::is_nan, (&x,), b)
}

/// Calls `num_complex::Complex::is_nan`. Nothing is claimed of the result.
#[verifier::external_body]
fn complex_is_nan<F: num_traits::float::FloatCore>(c: &num_complex::Complex<F>) -> (b: bool) {
    num_complex::Complex::<F>::is_nan(*c)
}

/// `b` is an answer that `num_complex::Complex::is_nan` may give for `c`.
pub closed spec fn is_nan_value<F: num_traits::float::FloatCore>(
    c: num_complex::Complex<F>,
    b: bool,
) -> bool {
    call_ensures(complex_is_nan::<F>, (&c,), b)
}

impl<F: Float> IsNaN for num_complex::Complex<F> {
    fn is_nan(&self) -> (b: bool) where F: num_traits::float::FloatCore
        ensures
            is_nan_value(*self, b),
    {
        complex_is_nan(self)
    }
}

/// The natural logarithm.
pub trait Ln: Scalar + Sized {
    /// Applies the function to `self`.
    fn ln(&self) -> Self where Self::Real: num_traits::Float;
}

/// `o` is a value that the natural logarithm of `x` may evaluate to.
pub open spec fn ln_out<T: Ln>(x: T, o: T) -> bool where T::Real: num_traits::Float {
    call_ensures(T::ln, (&x,), o)
}

/// Calls `num_complex::Complex::ln`. Nothing is claimed of the result.
#[verifier::external_body]
fn complex_ln<F: num_traits::Float>(c: &num_complex::Complex<F>) -> (r: num_complex::Complex<F>) {
    num_complex::Complex::<F>::ln(*c)
}

/// `o` is a value that `num_complex::Complex::ln` may give for `c`.
pub closed spec fn ln_value<F: num_traits::Float>(
    c: num_complex::Complex<F>,
    o: num_complex::Complex<F>,
) -> bool {
    call_ensures(complex_ln::<F>, (&c,), o)
}

impl<F: Float> Ln for num_complex::Complex<F> {
    fn ln(&self) -> (r: Self) where F: num_traits::Float
        ensures
            ln_value(*self, r),
    {
        complex_ln(self)
    }
}

/// The exponential function.
pub trait Exp: Scalar + Sized {
    /// Applies the function to `self`.
    fn exp(&self) -> Self where Self::Real: num_traits::Float;
}

/// `o` is a value that the exponential of `x` may evaluate to.
pub open spec fn exp_out<T: Exp>(x: T, o: T) -> bool where T::Real: num_traits::Float {
    call_ensures(T::exp, (&x,), o)
}

/// Calls `num_complex::Complex::exp`. Nothing is claimed of the result.
#[verifier::external_body]
fn complex_exp<F: num_traits::Float>(c: &num_complex::Complex<F>) -> (r: num_complex::Complex<F>) {
    num_complex::Complex::<F>::exp(*c)
}

/// `o` is a value that `num_complex::Complex::exp` may give for `c`.
pub closed spec fn exp_value<F: num_traits::Float>(
    c: num_complex::Complex<F>,
    o: num_complex::Complex<F>,
) -> bool {
    call_ensures(complex_exp::<F>, (&c,), o)
}

impl<F: Float> Exp for num_complex::Complex<F> {
    fn exp(&self) -> (r: Self) where F: num_traits::Float
        ensures
            exp_value(*self, r),
    {
        complex_exp(self)
    }
}

/// The square root.
pub trait Sqrt: Scalar + Sized {
    /// Applies the function to `self`.
    fn sqrt(&self) -> Self where Self::Real: num_traits::Float;
}

/// `o` is a value that the square root of `x` may evaluate to.
pub open spec fn sqrt_out<T: Sqrt>(x: T, o: T) -> bool where T::Real: num_traits::Float {
    call_ensures(T::sqrt, (&x,), o)
}

/// Calls `num_complex::Complex::sqrt`. Nothing is claimed of the result.
#[verifier::external_body]
fn complex_sqrt<F: num_traits::Float>(c: &num_complex::Complex<F>) -> (r: num_complex::Complex<F>) {
    num_complex::Complex::<F>::sqrt(*c)
}

/// `o` is a value that `num_complex::Complex::sqrt` may give for `c`.
pub closed spec fn sqrt_value<F: num_traits::Float>(
    c: num_complex::Complex<F>,
    o: num_complex::Complex<F>,
) -> bool {
    call_ensures(complex_sqrt::<F>, (&c,), o)
}

impl<F: Float> Sqrt for num_complex::Complex<F> {
    fn sqrt(&self) -> (r: Self) where F: num_traits::Float
        ensures
            sqrt_value(*self, r),
    {
        complex_sqrt(self)
    }
}

/// The sine.
pub trait Sin: Scalar + Sized {
    /// Applies the function to `self`.
    fn sin(&self) -> Self where Self::Real: num_traits::Float;
}

/// `o` is a value that the sine of `x` may evaluate to.
pub open spec fn sin_out<T: Sin>(x: T, o: T) -> bool where T::Real: num_traits::Float {
    call_ensures(T::sin, (&x,), o)
}

/// Calls `num_complex::Complex::sin`. Nothing is claimed of the result.
#[verifier::external_body]
fn complex_sin<F: num_traits::Float>(c: &num_complex::Complex<F>) -> (r: num_complex::Complex<F>) {
    num_complex::Complex::<F>::sin(*c)
}

/// `o` is a value that `num_complex::Complex::sin` may give for `c`.
pub closed spec fn sin_value<F: num_traits::Float>(
    c: num_complex::Complex<F>,
    o: num_complex::Complex<F>,
) -> bool {
    call_ensures(complex_sin::<F>, (&c,), o)
}

impl<F: Float> Sin for num_complex::Complex<F> {
    fn sin(&self) -> (r: Self) where F: num_traits::Float
        ensures
            sin_value(*self, r),
    {
        complex_sin(self)
    }
}

/// The cosine.
pub trait Cos: Scalar + Sized {
    /// Applies the function to `self`.
    fn cos(&self) -> Self where Self::Real: num_traits::Float;
}

/// `o` is a value that the cosine of `x` may evaluate to.
pub open spec fn cos_out<T: Cos>(x: T, o: T) -> bool where T::Real: num_traits::Float {
    call_ensures(T::cos, (&x,), o)
}

/// Calls `num_complex::Complex::cos`. Nothing is claimed of the result.
#[verifier::external_body]
fn complex_cos<F: num_traits::Float>(c: &num_complex::Complex<F>) -> (r: num_complex::Complex<F>) {
    num_complex::Complex::<F>::cos(*c)
}

/// `o` is a value that `num_complex::Complex::cos` may give for `c`.
pub closed spec fn cos_value<F: num_traits::Float>(
    c: num_complex::Complex<F>,
    o: num_complex::Complex<F>,
) -> bool {
    call_ensures(complex_cos::<F>, (&c,), o)
}

impl<F: Float> Cos for num_complex::Complex<F> {
    fn cos(&self) -> (r: Self) where F: num_traits::Float
        ensures
            cos_value(*self, r),
    {
        complex_cos(self)
    }
}

/// The inverse sine.
pub trait ArcSin: Scalar + Sized {
    /// Applies the function to `self`.
    fn asin(&self) -> Self where Self::Real: num_traits::Float;
}

/// `o` is a value that the inverse sine of `x` may evaluate to.
pub open spec fn asin_out<T: ArcSin>(x: T, o: T) -> bool where T::Real: num_traits::Float {
    call_ensures(T::asin, (&x,), o)
}

/// Calls `num_complex::Complex::asin`. Nothing is claimed of the result.
#[verifier::external_body]
fn complex_asin<F: num_traits::Float>(c: &num_complex::Complex<F>) -> (r: num_complex::Complex<F>) {
    num_complex::Complex::<F>::asin(*c)
}

/// `o` is a value that `num_complex::Complex::asin` may give for `c`.
pub closed spec fn asin_value<F: num_traits::Float>(
    c: num_complex::Complex<F>,
    o: num_complex::Complex<F>,
) -> bool {
    call_ensures(complex_asin::<F>, (&c,), o)
}

impl<F: Float> ArcSin for num_complex::Complex<F> {
    fn asin(&self) -> (r: Self) where F: num_traits::Float
        ensures
            asin_value(*self, r),
    {
        complex_asin(self)
    }
}

/// The inverse cosine.
pub trait ArcCos: Scalar + Sized {
    /// Applies the function to `self`.
    fn acos(&self) -> Self where Self::Real: num_traits::Float;
}

/// `o` is a value that the inverse cosine of `x` may evaluate to.
pub open spec fn acos_out<T: ArcCos>(x: T, o: T) -> bool where T::Real: num_traits::Float {
    call_ensures(T::acos, (&x,), o)
}

/// Calls `num_complex::Complex::acos`. Nothing is claimed of the result.
#[verifier::external_body]
fn complex_acos<F: num_traits::Float>(c: &num_complex::Complex<F>) -> (r: num_complex::Complex<F>) {
    num_complex::Complex::<F>::acos(*c)
}

/// `o` is a value that `num_complex::Complex::acos` may give for `c`.
pub closed spec fn acos_value<F: num_traits::Float>(
    c: num_complex::Complex<F>,
    o: num_complex::Complex<F>,
) -> bool {
    call_ensures(complex_acos::<F>, (&c,), o)
}

impl<F: Float> ArcCos for num_complex::Complex<F> {
    fn acos(&self) -> (r: Self) where F: num_traits::Float
        ensures
            acos_value(*self, r),
    {
        complex_acos(self)
    }
}

/// The absolute value.
pub trait Abs: Sized {
    /// Applies the function to `self`.
    fn abs(&self) -> Self;
}

/// `o` is a value that the absolute value of `x` may evaluate to.
pub open spec fn abs_out<T: Abs>(x: T, o: T) -> bool {
    call_ensures(T::abs, (&x,), o)
}

/// Rounding to the nearest integer.
pub trait Round: Sized {
    /// Applies the function to `self`.
    fn round(&self) -> Self;
}

/// `o` is a value that rounding `x` may evaluate to.
pub open spec fn round_out<T: Round>(x: T, o: T) -> bool {
    call_ensures(T::round, (&x,), o)
}

} // verus!
