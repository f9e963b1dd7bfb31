//! Complex arrays: building them from real parts and taking them apart.

use vstd::prelude::*;
use crate::num::{is_zero_value, zero};
use crate::complex::{
    arg_out, complex_norm_out, conj_out, from_polar_out, imag_only_out, imag_out, new_out,
    real_only_out, real_out, ComplexNumber,
};
use crate::traits::Float;
use crate::array::array::Array;

verus! {

/// What a complex array offers beyond an array: `F` is the type of the real
/// parts, `C` the type of the complex values.
///
/// Every method returns a new array; none hands out a view into another.
pub trait CArray<F, C: ComplexNumber<F>>: Sized {
    /// The values of the array.
    spec fn items(&self) -> Seq<C>;

    /// The array of the numbers `re[i] + i * im[i]`. The two slices must have
    /// one length.
    fn from_parts(re: &[F], im: &[F]) -> (r: Array<C>)
        requires
            re.len() == im.len(),
        ensures
            r@.len() == re.len(),
            forall|i: int| 0 <= i < re.len() ==> new_out(re[i], im[i], #[trigger] r@[i]),
    ;

    /// The array of the numbers with real part `re[i]` and a zero of `F` as
    /// imaginary part.
    fn from_real(re: &[F]) -> (r: Array<C>) where F: num_traits::Zero
        ensures
            r@.len() == re.len(),
            forall|i: int| 0 <= i < re.len() ==> real_only_out(re[i], #[trigger] r@[i]),
    ;

    /// The array of the numbers with imaginary part `im[i]` and a zero of `F`
    /// as real part.
    fn from_imag(im: &[F]) -> (r: Array<C>) where F: num_traits::Zero
        ensures
            r@.len() == im.len(),
            forall|i: int| 0 <= i < im.len() ==> imag_only_out(im[i], #[trigger] r@[i]),
    ;

    /// Returns a complex array of size `a.len()/2`, where `a`
    /// has interleaved complex parts e.g. `[re0, im0, re1, im1...]`.
    /// The length of `a` must be even.
    fn from_interleaved(interleaved: &[F]) -> (r: Array<C>)
        requires
            interleaved.len() % 2 == 0,
        ensures
            r@.len() == interleaved.len() / 2,
            forall|i: int|
                0 <= i < r@.len() ==> new_out(
                    interleaved[2 * i],
                    interleaved[2 * i + 1],
                    #[trigger] r@[i],
                ),
    ;

    /// The array of the numbers with magnitude `norm[i]` and angle `arg[i]`.
    /// The two slices must have one length.
    fn from_polar(norm: &[F], arg: &[F]) -> (r: Array<C>) where F: num_traits::Float
        requires
            norm.len() == arg.len(),
        ensures
            r@.len() == norm.len(),
            forall|i: int| 0 <= i < norm.len() ==> from_polar_out(norm[i], arg[i], #[trigger] r@[i]),
    ;

    /// The real parts.
    fn real_part(&self) -> (r: Array<F>)
        ensures
            r@.len() == self.items().len(),
            forall|i: int| 0 <= i < r@.len() ==> real_out(self.items()[i], #[trigger] r@[i]),
    ;

    /// The imaginary parts.
    fn imag(&self) -> (r: Array<F>)
        ensures
            r@.len() == self.items().len(),
            forall|i: int| 0 <= i < r@.len() ==> imag_out(self.items()[i], #[trigger] r@[i]),
    ;

    /// The complex conjugates.
    fn conj(&self) -> (r: Array<C>) where F: num_traits::Float
        ensures
            r@.len() == self.items().len(),
            forall|i: int| 0 <= i < r@.len() ==> conj_out::<F, C>(self.items()[i], #[trigger] r@[i]),
    ;

    /// The magnitudes.
    fn norm(&self) -> (r: Array<F>) where F: num_traits::Float
        ensures
            r@.len() == self.items().len(),
            forall|i: int|
                0 <= i < r@.len() ==> complex_norm_out(self.items()[i], #[trigger] r@[i]),
    ;

    /// The angles.
    fn arg(&self) -> (r: Array<F>) where F: num_traits::Float
        ensures
            r@.len() == self.items().len(),
            forall|i: int| 0 <= i < r@.len() ==> arg_out(self.items()[i], #[trigger] r@[i]),
    ;

    /// The magnitudes and the angles.
    fn to_polar(&self) -> (r: (Array<F>, Array<F>)) where F: num_traits::Float
        ensures
            r.0@.len() == self.items().len(),
            r.1@.len() == self.items().len(),
            forall|i: int|
                0 <= i < self.items().len() ==> complex_norm_out(
                    self.items()[i],
                    #[trigger] r.0@[i],
                ),
            forall|i: int|
                0 <= i < self.items().len() ==> arg_out(self.items()[i], #[trigger] r.1@[i]),
    ;

    /// Returns a float array of size `2*self.len()` with complex
    /// parts interleaved e.g. `[re0, im0, re1, im1...]`.
    fn interleave(&self) -> (r: Array<F>)
        ensures
            r@.len() == 2 * self.items().len(),
            forall|i: int|
                0 <= i < self.items().len() ==> real_out(self.items()[i], #[trigger] r@[2 * i]),
            forall|i: int|
                0 <= i < self.items().len() ==> imag_out(self.items()[i], #[trigger] r@[2 * i + 1]),
    ;
}

impl<F, C> CArray<F, C> for Array<C> where F: Float, C: ComplexNumber<F> {
    open spec fn items(&self) -> Seq<C> {
        self@
    }

    fn from_parts(re: &[F], im: &[F]) -> (r: Array<C>) {
        let mut data: Vec<C> = Vec::new();
        let mut i: usize = 0;
        while i < re.len()
            invariant
                i <= re.len(),
                re.len() == im.len(),
                data.len() == i,
                forall|j: int| 0 <= j < i ==> new_out(re[j], im[j], #[trigger] data[j]),
            decreases re.len() - i,
        {
            data.push(C::new(re[i], im[i]));
            i += 1;
        }
        Array::from_buffer(data)
    }

    fn from_real(re: &[F]) -> (r: Array<C>) where F: num_traits::Zero {
        let mut data: Vec<C> = Vec::new();
        let mut i: usize = 0;
        while i < re.len()
            invariant
                i <= re.len(),
                data.len() == i,
                forall|j: int| 0 <= j < i ==> real_only_out(re[j], #[trigger] data[j]),
            decreases re.len() - i,
        {
            let z: F = zero();
            let c = C::new(re[i], z);
            assert(is_zero_value(z) && new_out(re[i as int], z, c));
            data.push(c);
            i += 1;
        }
        Array::from_buffer(data)
    }

    fn from_imag(im: &[F]) -> (r: Array<C>) where F: num_traits::Zero {
        let mut data: Vec<C> = Vec::new();
        let mut i: usize = 0;
        while i < im.len()
            invariant
                i <= im.len(),
                data.len() == i,
                forall|j: int| 0 <= j < i ==> imag_only_out(im[j], #[trigger] data[j]),
            decreases im.len() - i,
        {
            let z: F = zero();
            let c = C::new(z, im[i]);
            assert(is_zero_value(z) && new_out(z, im[i as int], c));
            data.push(c);
            i += 1;
        }
        Array::from_buffer(data)
    }

    fn from_interleaved(interleaved: &[F]) -> (r: Array<C>) {
        let n = interleaved.len() / 2;
        let mut data: Vec<C> = Vec::with_capacity(n);
        let mut i: usize = 0;
        while i < n
            invariant
                i <= n,
                n == interleaved.len() / 2,
                interleaved.len() % 2 == 0,
                data.len() == i,
                forall|j: int|
                    0 <= j < i ==> new_out(
                        interleaved[2 * j],
                        interleaved[2 * j + 1],
                        #[trigger] data[j],
                    ),
            decreases n - i,
        {
            data.push(C::new(interleaved[2 * i], interleaved[2 * i + 1]));
            i += 1;
        }
        Array::from_buffer(data)
    }

    fn from_polar(norm: &[F], arg: &[F]) -> (r: Array<C>) where F: num_traits::Float {
        let mut data: Vec<C> = Vec::new();
        let mut i: usize = 0;
        while i < norm.len()
            invariant
                i <= norm.len(),
                norm.len() == arg.len(),
                data.len() == i,
                forall|j: int| 0 <= j < i ==> from_polar_out(norm[j], arg[j], #[trigger] data[j]),
            decreases norm.len() - i,
        {
            data.push(C::from_polar(norm[i], arg[i]));
            i += 1;
        }
        Array::from_buffer(data)
    }

    fn real_part(&self) -> (r: Array<F>) {
        let a = self.buffer();
        let mut data: Vec<F> = Vec::new();
        let mut i: usize = 0;
        while i < a.len()
            invariant
                i <= a.len(),
                a@ == self@,
                data.len() == i,
                forall|j: int| 0 <= j < i ==> real_out(a[j], #[trigger] data[j]),
            decreases a.len() - i,
        {
            data.push(a[i].real_part());
            i += 1;
        }
        Array::from_buffer(data)
    }

    fn imag(&self) -> (r: Array<F>) {
        let a = self.buffer();
        let mut data: Vec<F> = Vec::new();
        let mut i: usize = 0;
        while i < a.len()
            invariant
                i <= a.len(),
                a@ == self@,
                data.len() == i,
                forall|j: int| 0 <= j < i ==> imag_out(a[j], #[trigger] data[j]),
            decreases a.len() - i,
        {
            data.push(a[i].imag());
            i += 1;
        }
        Array::from_buffer(data)
    }

    fn conj(&self) -> (r: Array<C>) where F: num_traits::Float {
        let a = self.buffer();
        let mut data: Vec<C> = Vec::new();
        let mut i: usize = 0;
        while i < a.len()
            invariant
                i <= a.len(),
                a@ == self@,
                data.len() == i,
                forall|j: int| 0 <= j < i ==> conj_out::<F, C>(a[j], #[trigger] data[j]),
            decreases a.len() - i,
        {
            data.push(a[i].conj());
            i += 1;
        }
        Array::from_buffer(data)
    }

    fn norm(&self) -> (r: Array<F>) where F: num_traits::Float {
        let a = self.buffer();
        let mut data: Vec<F> = Vec::new();
        let mut i: usize = 0;
        while i < a.len()
            invariant
                i <= a.len(),
                a@ == self@,
                data.len() == i,
                forall|j: int| 0 <= j < i ==> complex_norm_out(a[j], #[trigger] data[j]),
            decreases a.len() - i,
        {
            data.push(a[i].norm());
            i += 1;
        }
        Array::from_buffer(data)
    }

    fn arg(&self) -> (r: Array<F>) where F: num_traits::Float {
        let a = self.buffer();
        let mut data: Vec<F> = Vec::new();
        let mut i: usize = 0;
        while i < a.len()
            invariant
                i <= a.len(),
                a@ == self@,
                data.len() == i,
                forall|j: int| 0 <= j < i ==> arg_out(a[j], #[trigger] data[j]),
            decreases a.len() - i,
        {
            data.push(a[i].arg());
            i += 1;
        }
        Array::from_buffer(data)
    }

    fn to_polar(&self) -> (r: (Array<F>, Array<F>)) where F: num_traits::Float {
        (self.norm(), self.arg())
    }

    fn interleave(&self) -> (r: Array<F>) {
        let a = self.buffer();
        let mut data: Vec<F> = Vec::new();
        let mut i: usize = 0;
        while i < a.len()
            invariant
                i <= a.len(),
                a@ == self@,
                data.len() == 2 * i,
                forall|j: int| 0 <= j < i ==> real_out(a[j], #[trigger] data[2 * j]),
                forall|j: int| 0 <= j < i ==> imag_out(a[j], #[trigger] data[2 * j + 1]),
            decreases a.len() - i,
        {
            data.push(a[i].real_part());
            data.push(a[i].imag());
            i += 1;
        }
        Array::from_buffer(data)
    }
}

} // verus!
