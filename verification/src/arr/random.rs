//! Arrays of pseudo-random values.

use vstd::prelude::*;
use crate::arr::arr::Arr;
use crate::random::{normal, normal_draw, standard, standard_draw};
use crate::complex::{new_out, ComplexNumber};

verus! {

/// Arrays that can be filled with pseudo-random values.
pub trait Rand: Sized {
    /// The type of the values.
    type Item;

    /// The values of the array.
    spec fn items(&self) -> Seq<Self::Item>;

    /// Creates an array with `n` pseudo-random values, each a draw from the
    /// standard distribution of the value type (for a float: uniform in
    /// `[0.0,1.0)`).
    fn rand(n: usize) -> (r: Self) where
        rand::distributions::Standard: rand::distributions::Distribution<Self::Item>,

        ensures
            r.items().len() == n,
            forall|i: int| 0 <= i < n ==> standard_draw(#[trigger] r.items()[i]),
    ;

    /// Creates an array with `n` pseudo-random values, each a draw from the
    /// standard normal distribution (mean=0, stddev=1) of the value type.
    fn randn(n: usize) -> (r: Self) where
        rand_distr::StandardNormal: rand::distributions::Distribution<Self::Item>,

        ensures
            r.items().len() == n,
            forall|i: int| 0 <= i < n ==> normal_draw(#[trigger] r.items()[i]),
    ;
}

impl<T> Rand for Arr<T> {
    type Item = T;

    open spec fn items(&self) -> Seq<T> {
        self@
    }

    fn rand(n: usize) -> (r: Self) where
        rand::distributions::Standard: rand::distributions::Distribution<T>,
     {
        let mut values: Vec<T> = Vec::new();
        let mut i: usize = 0;
        while i < n
            invariant
                i <= n,
                values.len() == i,
                forall|j: int| 0 <= j < i ==> standard_draw(#[trigger] values[j]),
            decreases n - i,
        {
            values.push(standard());
            i += 1;
        }
        Arr::from_buffer(values)
    }

    fn randn(n: usize) -> (r: Self) where
        rand_distr::StandardNormal: rand::distributions::Distribution<T>,
     {
        let mut values: Vec<T> = Vec::new();
        let mut i: usize = 0;
        while i < n
            invariant
                i <= n,
                values.len() == i,
                forall|j: int| 0 <= j < i ==> normal_draw(#[trigger] values[j]),
            decreases n - i,
        {
            values.push(normal());
            i += 1;
        }
        Arr::from_buffer(values)
    }
}

/// `c` is a complex value whose two parts are draws from the standard
/// distribution of `F`, the real part drawn first.
pub open spec fn complex_standard_draw<F, C: ComplexNumber<F>>(c: C) -> bool where
    rand::distributions::Standard: rand::distributions::Distribution<F>,
 {
    exists|re: F, im: F|
        #![trigger standard_draw(re), standard_draw(im)]
        standard_draw(re) && standard_draw(im) && new_out(re, im, c)
}

/// `c` is a complex value whose two parts are draws from the standard normal
/// distribution of `F`, the real part drawn first.
pub open spec fn complex_normal_draw<F, C: ComplexNumber<F>>(c: C) -> bool where
    rand_distr::StandardNormal: rand::distributions::Distribution<F>,
 {
    exists|re: F, im: F|
        #![trigger normal_draw(re), normal_draw(im)]
        normal_draw(re) && normal_draw(im) && new_out(re, im, c)
}

/// Creates a complex array with `n` pseudo-random values: both parts of each
/// are draws from the standard distribution of `F`.
pub fn rand_complex<F, C: ComplexNumber<F>>(n: usize) -> (r: Arr<C>) where
    rand::distributions::Standard: rand::distributions::Distribution<F>,

    ensures
        r@.len() == n,
        forall|i: int| 0 <= i < n ==> complex_standard_draw::<F, C>(#[trigger] r@[i]),
{
    let mut values: Vec<C> = Vec::new();
    let mut i: usize = 0;
    while i < n
        invariant
            i <= n,
            values.len() == i,
            forall|j: int| 0 <= j < i ==> complex_standard_draw::<F, C>(#[trigger] values[j]),
        decreases n - i,
    {
        let re: F = standard();
        let im: F = standard();
        let c = C::new(re, im);
        assert(standard_draw(re) && standard_draw(im) && new_out(re, im, c));
        values.push(c);
        i += 1;
    }
    Arr::from_buffer(values)
}

/// Creates a complex array with `n` pseudo-random values: both parts of each
/// are draws from the standard normal distribution of `F`.
pub fn randn_complex<F, C: ComplexNumber<F>>(n: usize) -> (r: Arr<C>) where
    rand_distr::StandardNormal: rand::distributions::Distribution<F>,

    ensures
        r@.len() == n,
        forall|i: int| 0 <= i < n ==> complex_normal_draw::<F, C>(#[trigger] r@[i]),
{
    let mut values: Vec<C> = Vec::new();
    let mut i: usize = 0;
    while i < n
        invariant
            i <= n,
            values.len() == i,
            forall|j: int| 0 <= j < i ==> complex_normal_draw::<F, C>(#[trigger] values[j]),
        decreases n - i,
    {
        let re: F = normal();
        let im: F = normal();
        let c = C::new(re, im);
        assert(normal_draw(re) && normal_draw(im) && new_out(re, im, c));
        values.push(c);
        i += 1;
    }
    Arr::from_buffer(values)
}

} // verus!
