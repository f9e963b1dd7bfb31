//! Running sums and products, stated as relations.
//!
//! A reduction applies an element operation once per term, left to right.
//! Because an operation is described by the results it may give (see
//! `elem`), a reduction is described the same way: `sum_out(seed, a, o)`
//! holds when `o` can come out of adding the terms of `a` onto `seed` in
//! order. The matching `*_ok` predicate holds when every operation that such
//! a run can reach may be applied.

use vstd::prelude::*;
use core::ops::{Add, Mul};
use crate::elem::{add_ok, add_out, mul_ok, mul_out, plus, times};
use crate::num::is_zero_value;

verus! {

/// `o` can come out of `((seed + a[0]) + a[1]) + ..`, over all of `a`.
pub open spec fn sum_out<T: Add<Output = T>>(seed: T, a: Seq<T>, o: T) -> bool
    decreases a.len(),
{
    if a.len() == 0 {
        o == seed
    } else {
        exists|p: T| sum_out(seed, a.drop_last(), p) && #[trigger] add_out(p, a.last(), o)
    }
}

/// Every addition that summing `a` onto `seed` can reach may be applied.
pub open spec fn sum_ok<T: Add<Output = T>>(seed: T, a: Seq<T>) -> bool {
    forall|k: int, p: T|
        0 <= k < a.len() && #[trigger] sum_out(seed, a.take(k), p) ==> add_ok(p, a[k])
}

/// `o` can come out of `((seed * a[0]) * a[1]) * ..`, over all of `a`.
pub open spec fn prod_out<T: Mul<Output = T>>(seed: T, a: Seq<T>, o: T) -> bool
    decreases a.len(),
{
    if a.len() == 0 {
        o == seed
    } else {
        exists|p: T| prod_out(seed, a.drop_last(), p) && #[trigger] mul_out(p, a.last(), o)
    }
}

/// Every multiplication that multiplying `a` onto `seed` can reach may be
/// applied.
pub open spec fn prod_ok<T: Mul<Output = T>>(seed: T, a: Seq<T>) -> bool {
    forall|k: int, p: T|
        0 <= k < a.len() && #[trigger] prod_out(seed, a.take(k), p) ==> mul_ok(p, a[k])
}

/// A sum reaches over one more term by one more addition.
pub proof fn lemma_sum_push<T: Add<Output = T>>(seed: T, a: Seq<T>, p: T, x: T, o: T)
    requires
        sum_out(seed, a, p),
        add_out(p, x, o),
    ensures
        sum_out(seed, a.push(x), o),
{
    let b = a.push(x);
    assert(b.drop_last() =~= a);
    assert(sum_out(seed, b.drop_last(), p) && add_out(p, b.last(), o));
}

/// A product reaches over one more term by one more multiplication.
pub proof fn lemma_prod_push<T: Mul<Output = T>>(seed: T, a: Seq<T>, p: T, x: T, o: T)
    requires
        prod_out(seed, a, p),
        mul_out(p, x, o),
    ensures
        prod_out(seed, a.push(x), o),
{
    let b = a.push(x);
    assert(b.drop_last() =~= a);
    assert(prod_out(seed, b.drop_last(), p) && mul_out(p, b.last(), o));
}

/// Adds the terms of `a` onto `seed`, left to right.
pub fn sum_onto<T: Copy + Add<Output = T>>(seed: T, a: &[T]) -> (o: T)
    requires
        sum_ok(seed, a@),
    ensures
        sum_out(seed, a@, o),
{
    let mut acc = seed;
    let mut i: usize = 0;
    while i < a.len()
        invariant
            i <= a.len(),
            sum_ok(seed, a@),
            sum_out(seed, a@.take(i as int), acc),
        decreases a.len() - i,
    {
        let next = plus(acc, a[i]);
        proof {
            lemma_sum_push(seed, a@.take(i as int), acc, a@[i as int], next);
            assert(a@.take(i as int).push(a@[i as int]) =~= a@.take(i + 1));
        }
        acc = next;
        i += 1;
    }
    proof {
        assert(a@.take(a.len() as int) =~= a@);
    }
    acc
}

/// Multiplies the terms of `a` onto `seed`, left to right.
pub fn prod_onto<T: Copy + Mul<Output = T>>(seed: T, a: &[T]) -> (o: T)
    requires
        prod_ok(seed, a@),
    ensures
        prod_out(seed, a@, o),
{
    let mut acc = seed;
    let mut i: usize = 0;
    while i < a.len()
        invariant
            i <= a.len(),
            prod_ok(seed, a@),
            prod_out(seed, a@.take(i as int), acc),
        decreases a.len() - i,
    {
        let next = times(acc, a[i]);
        proof {
            lemma_prod_push(seed, a@.take(i as int), acc, a@[i as int], next);
            assert(a@.take(i as int).push(a@[i as int]) =~= a@.take(i + 1));
        }
        acc = next;
        i += 1;
    }
    proof {
        assert(a@.take(a.len() as int) =~= a@);
    }
    acc
}

/// `m[i]` is a term for index `i`, for every `i`; `term(i, x)` says that `x`
/// can be the term at index `i`.
pub open spec fn terms_are<T>(term: spec_fn(int, T) -> bool, m: Seq<T>) -> bool {
    forall|i: int| 0 <= i < m.len() ==> term(i, #[trigger] m[i])
}

/// `o` can come out of adding one term for each index below `n` onto `seed`,
/// left to right.
pub open spec fn sum_terms_out<T: Add<Output = T>>(
    seed: T,
    n: nat,
    term: spec_fn(int, T) -> bool,
    o: T,
) -> bool {
    exists|m: Seq<T>| m.len() == n && terms_are(term, m) && #[trigger] sum_out(seed, m, o)
}

/// Every addition that adding terms for the indices below `n` onto `seed` can
/// reach may be applied.
pub open spec fn sum_terms_ok<T: Add<Output = T>>(
    seed: T,
    n: nat,
    term: spec_fn(int, T) -> bool,
) -> bool {
    forall|m: Seq<T>, p: T|
        0 < m.len() <= n && terms_are(term, m) && #[trigger] sum_out(seed, m.drop_last(), p)
            ==> add_ok(p, m.last())
}

/// `o` can come out of adding one term for each index below `n`, left to
/// right, starting from the first term; with no term at all, `o` is a zero of
/// `T`.
pub open spec fn reduce_terms_out<T: num_traits::Zero + Add<Output = T>>(
    n: nat,
    term: spec_fn(int, T) -> bool,
    o: T,
) -> bool {
    if n == 0 {
        is_zero_value(o)
    } else {
        exists|m: Seq<T>|
            m.len() == n && terms_are(term, m) && #[trigger] sum_out(m[0], m.skip(1), o)
    }
}

/// Every addition that adding terms for the indices below `n`, starting from
/// the first term, can reach may be applied.
pub open spec fn reduce_terms_ok<T: Add<Output = T>>(
    n: nat,
    term: spec_fn(int, T) -> bool,
) -> bool {
    forall|m: Seq<T>, p: T|
        1 < m.len() <= n && terms_are(term, m) && #[trigger] sum_out(
            m[0],
            m.drop_last().skip(1),
            p,
        ) ==> add_ok(p, m.last())
}

/// With the terms `m` added onto `seed` and `x` a term for the next index,
/// the next addition may be applied.
pub proof fn lemma_sum_terms_next<T: Add<Output = T>>(
    seed: T,
    n: nat,
    term: spec_fn(int, T) -> bool,
    m: Seq<T>,
    x: T,
    p: T,
)
    requires
        sum_terms_ok(seed, n, term),
        m.len() < n,
        terms_are(term, m),
        term(m.len() as int, x),
        sum_out(seed, m, p),
    ensures
        add_ok(p, x),
        terms_are(term, m.push(x)),
{
    let m2 = m.push(x);
    assert(m2.drop_last() =~= m);
    assert(terms_are(term, m2));
    assert(sum_out(seed, m2.drop_last(), p));
    assert(m2.last() == x);
}

/// With the terms `m` added up from the first one and `x` a term for the
/// next index, the next addition may be applied.
pub proof fn lemma_reduce_terms_next<T: Add<Output = T>>(
    n: nat,
    term: spec_fn(int, T) -> bool,
    m: Seq<T>,
    x: T,
    p: T,
)
    requires
        reduce_terms_ok(n, term),
        0 < m.len() < n,
        terms_are(term, m),
        term(m.len() as int, x),
        sum_out(m[0], m.skip(1), p),
    ensures
        add_ok(p, x),
        terms_are(term, m.push(x)),
        m.push(x).skip(1) == m.skip(1).push(x),
        m.push(x)[0] == m[0],
{
    let m2 = m.push(x);
    assert(m2.drop_last() =~= m);
    assert(terms_are(term, m2));
    assert(sum_out(m2[0], m2.drop_last().skip(1), p));
    assert(m2.last() == x);
    assert(m2.skip(1) =~= m.skip(1).push(x));
}

} // verus!
