//! Complex scalars.
//!
//! `ComplexNumber` is what the library asks of a complex element type. It is
//! implemented here for the complex numbers of `num_complex`; construction
//! and the two parts are proved from the type's two fields, the rest is what
//! that crate computes.

use vstd::prelude::*;
use crate::traits::Float;

verus! {

/// A complex scalar whose parts are of type `T`.
pub trait ComplexNumber<T>: Sized {
    /// The number with real part `re` and imaginary part `im`.
    fn new(re: T, im: T) -> Self;

    /// The number with magnitude `norm` and angle `arg`.
    fn from_polar(norm: T, arg: T) -> Self where T: num_traits::Float;

    /// The real part.
    fn real_part(&self) -> T;

    /// The imaginary part.
    fn imag(&self) -> T;

    /// The complex conjugate.
    fn conj(&self) -> Self where T: num_traits::Float;

    /// The magnitude.
    fn norm(&self) -> T where T: num_traits::Float;

    /// The angle.
    fn arg(&self) -> T where T: num_traits::Float;

    /// The number raised to the integer power `r`.
    fn pow(&self, r: i32) -> Self where T: num_traits::Float;
}

/// The complex numbers of `num_complex`: a pair of public fields, `re` and
/// `im`, and nothing else.
#[verifier::external_type_specification]
#[verifier::reject_recursive_types(T)]
pub struct ExComplex<T>(num_complex::Complex<T>);

/// Calls `num_complex::Complex::from_polar`. Nothing is claimed of the result.
#[verifier::external_body]
fn complex_from_polar<F: num_traits::Float>(norm: F, arg: F) -> (c: num_complex::Complex<F>) {
    num_complex::Complex::<F>::from_polar(norm, arg)
}

/// `o` is a conjugate of `c`: its real part is a clone of that of `c`, and its
/// imaginary part a negation of a clone of that of `c`.
pub open spec fn conjugates<F: num_traits::Float>(
    c: num_complex::Complex<F>,
    o: num_complex::Complex<F>,
) -> bool {
    &&& cloned(c.re, o.re)
    &&& exists|im: F| cloned(c.im, im) && #[trigger] crate::elem::neg_out(im, o.im)
}

/// Calls `num_complex::Complex::conj`, which builds its result from a clone of
/// the real part and the negation of a clone of the imaginary part.
#[verifier::external_body]
fn complex_conj<F: num_traits::Float>(c: &num_complex::Complex<F>) -> (r: num_complex::Complex<F>)
    ensures
        conjugates(*c, r),
{
    num_complex::Complex::<F>::conj(c)
}

/// Calls `num_complex::Complex::norm`. Nothing is claimed of the result.
#[verifier::external_body]
fn complex_norm<F: num_traits::Float>(c: &num_complex::Complex<F>) -> (r: F) {
    num_complex::Complex::<F>::norm(*c)
}

/// Calls `num_complex::Complex::arg`. Nothing is claimed of the result.
#[verifier::external_body]
fn complex_arg<F: num_traits::Float>(c: &num_complex::Complex<F>) -> (r: F) {
    num_complex::Complex::<F>::arg(*c)
}

/// Calls `num_complex::Complex::powi`. Nothing is claimed of the result.
#[verifier::external_body]
fn complex_powi<F: num_traits::Float>(c: &num_complex::Complex<F>, r: i32) -> (p:
    num_complex::Complex<F>) {
    num_complex::Complex::<F>::powi(c, r)
}

/// `o` is a value that `num_complex::Complex::from_polar` may give for the
/// magnitude `norm` and the angle `arg`.
pub closed spec fn polar_value<F: num_traits::Float>(
    norm: F,
    arg: F,
    o: num_complex::Complex<F>,
) -> bool {
    call_ensures(complex_from_polar::<F>, (norm, arg), o)
}

/// `o` is a value that `num_complex::Complex::norm` may give for `c`.
pub closed spec fn norm_value<F: num_traits::Float>(c: num_complex::Complex<F>, o: F) -> bool {
    call_ensures(complex_norm::<F>, (&c,), o)
}

/// The magnitude of `c`, as `num_complex::Complex::norm` gives it.
pub(crate) fn magnitude<F: num_traits::Float>(c: &num_complex::Complex<F>) -> (r: F)
    ensures
        norm_value(*c, r),
{
    complex_norm(c)
}

/// `o` is a value that `num_complex::Complex::arg` may give for `c`.
pub closed spec fn arg_value<F: num_traits::Float>(c: num_complex::Complex<F>, o: F) -> bool {
    call_ensures(complex_arg::<F>, (&c,), o)
}

/// `o` is a value that `num_complex::Complex::powi` may give for `c` and the
/// exponent `r`.
pub closed spec fn powi_value<F: num_traits::Float>(
    c: num_complex::Complex<F>,
    r: i32,
    o: num_complex::Complex<F>,
) -> bool {
    call_ensures(complex_powi::<F>, (&c, r), o)
}

impl<F: Float> ComplexNumber<F> for num_complex::Complex<F> {
    fn new(re: F, im: F) -> (c: Self)
        ensures
            c.re == re,
            c.im == im,
    {
        num_complex::Complex { re, im }
    }

    fn from_polar(norm: F, arg: F) -> (c: Self) where F: num_traits::Float
        ensures
            polar_value(norm, arg, c),
    {
        complex_from_polar(norm, arg)
    }

    fn real_part(&self) -> (re: F)
        ensures
            re == self.re,
    {
        self.re
    }

    fn imag(&self) -> (im: F)
        ensures
            im == self.im,
    {
        self.im
    }

    fn conj(&self) -> (c: Self) where F: num_traits::Float
        ensures
            conjugates(*self, c),
    {
        complex_conj(self)
    }

    fn norm(&self) -> (r: F) where F: num_traits::Float
        ensures
            norm_value(*self, r),
    {
        complex_norm(self)
    }

    fn arg(&self) -> (r: F) where F: num_traits::Float
        ensures
            arg_value(*self, r),
    {
        complex_arg(self)
    }

    fn pow(&self, r: i32) -> (p: Self) where F: num_traits::Float
        ensures
            powi_value(*self, r, p),
    {
        complex_powi(self, r)
    }
}

/// `c` is a value that `C::new(re, im)` may give.
pub open spec fn new_out<F, C: ComplexNumber<F>>(re: F, im: F, c: C) -> bool {
    call_ensures(C::new, (re, im), c)
}

/// `c` is a value that `C::new(re, z)` may give for a zero `z` of `F`.
pub open spec fn real_only_out<F: num_traits::Zero, C: ComplexNumber<F>>(re: F, c: C) -> bool {
    exists|z: F| #[trigger] crate::num::is_zero_value(z) && new_out(re, z, c)
}

/// `c` is a value that `C::new(z, im)` may give for a zero `z` of `F`.
pub open spec fn imag_only_out<F: num_traits::Zero, C: ComplexNumber<F>>(im: F, c: C) -> bool {
    exists|z: F| #[trigger] crate::num::is_zero_value(z) && new_out(z, im, c)
}

/// `c` is a value that `C::from_polar(norm, arg)` may give.
pub open spec fn from_polar_out<F: num_traits::Float, C: ComplexNumber<F>>(
    norm: F,
    arg: F,
    c: C,
) -> bool {
    call_ensures(C::from_polar, (norm, arg), c)
}

/// `re` is a value that the real part of `c` may evaluate to.
pub open spec fn real_out<F, C: ComplexNumber<F>>(c: C, re: F) -> bool {
    call_ensures(C::real_part, (&c,), re)
}

/// `im` is a value that the imaginary part of `c` may evaluate to.
pub open spec fn imag_out<F, C: ComplexNumber<F>>(c: C, im: F) -> bool {
    call_ensures(C::imag, (&c,), im)
}

/// `o` is a value that the conjugate of `c` may evaluate to.
pub open spec fn conj_out<F: num_traits::Float, C: ComplexNumber<F>>(c: C, o: C) -> bool {
    call_ensures(C::conj, (&c,), o)
}

/// `o` is a value that the magnitude of `c` may evaluate to.
pub open spec fn complex_norm_out<F: num_traits::Float, C: ComplexNumber<F>>(c: C, o: F) -> bool {
    call_ensures(C::norm, (&c,), o)
}

/// `o` is a value that the angle of `c` may evaluate to.
pub open spec fn arg_out<F: num_traits::Float, C: ComplexNumber<F>>(c: C, o: F) -> bool {
    call_ensures(C::arg, (&c,), o)
}

/// `o` is a value that `c` raised to the power `r` may evaluate to.
pub open spec fn complex_pow_out<F: num_traits::Float, C: ComplexNumber<F>>(
    c: C,
    r: i32,
    o: C,
) -> bool {
    call_ensures(C::pow, (&c, r), o)
}

} // verus!
