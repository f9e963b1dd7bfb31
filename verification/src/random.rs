//! Buffers of pseudo-random values.
//!
//! The values come from the thread-local generator of `rand`. What a draw
//! gives depends on the generator's state, so nothing is said of a drawn
//! value but that it was drawn.

use vstd::prelude::*;
use crate::full::shape_fits;

verus! {

/// The standard distribution of `rand`: a unit type.
#[verifier::external_type_specification]
#[verifier::external_body]
pub struct ExStandard(rand::distributions::Standard);

/// The standard normal distribution of `rand_distr`: a unit type.
#[verifier::external_type_specification]
#[verifier::external_body]
pub struct ExStandardNormal(rand_distr::StandardNormal);

/// Draws one value from the standard distribution of `T`, with
/// `rand::Rng::gen` on `rand::thread_rng()`. Nothing is claimed of the result.
#[verifier::external_body]
fn draw_standard<T>() -> (v: T) where
    rand::distributions::Standard: rand::distributions::Distribution<T>,
 {
    rand::Rng::gen::<T>(&mut rand::thread_rng())
}

/// Draws one value from the standard normal distribution of `T`, with
/// `rand::Rng::sample` on `rand::thread_rng()`. Nothing is claimed of the
/// result.
#[verifier::external_body]
fn draw_normal<T>() -> (v: T) where rand_distr::StandardNormal: rand::distributions::Distribution<T> {
    rand::Rng::sample(&mut rand::thread_rng(), rand_distr::StandardNormal)
}

/// `v` is a value that a draw from the standard distribution of `T` may give.
pub closed spec fn standard_draw<T>(v: T) -> bool where
    rand::distributions::Standard: rand::distributions::Distribution<T>,
 {
    call_ensures(draw_standard::<T>, (), v)
}

/// `v` is a value that a draw from the standard normal distribution of `T`
/// may give.
pub closed spec fn normal_draw<T>(v: T) -> bool where
    rand_distr::StandardNormal: rand::distributions::Distribution<T>,
 {
    call_ensures(draw_normal::<T>, (), v)
}

/// One draw from the standard distribution of `T`.
pub fn standard<T>() -> (v: T) where
    rand::distributions::Standard: rand::distributions::Distribution<T>,

    ensures
        standard_draw(v),
{
    draw_standard()
}

/// One draw from the standard normal distribution of `T`.
pub fn normal<T>() -> (v: T) where
    rand_distr::StandardNormal: rand::distributions::Distribution<T>,

    ensures
        normal_draw(v),
{
    draw_normal()
}

/// A buffer of `n_row * n_col` draws from the standard distribution of `T`.
pub fn random<T>(n_row: usize, n_col: usize) -> (r: Vec<T>) where
    rand::distributions::Standard: rand::distributions::Distribution<T>,

    requires
        shape_fits(n_row, n_col),
    ensures
        r.len() == n_row * n_col,
        forall|i: int| 0 <= i < r.len() ==> standard_draw(#[trigger] r[i]),
{
    let n = n_row * n_col;
    let mut r: Vec<T> = Vec::new();
    let mut i: usize = 0;
    while i < n
        invariant
            i <= n,
            r.len() == i,
            forall|j: int| 0 <= j < i ==> standard_draw(#[trigger] r[j]),
        decreases n - i,
    {
        r.push(standard());
        i += 1;
    }
    r
}

} // verus!
