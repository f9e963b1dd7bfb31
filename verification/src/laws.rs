//! Laws that the operations obey together.
//!
//! The contracts of the library describe an operation by the results it may
//! give. A law that needs more of the element type than that (that
//! subtraction undoes addition, that a zero is neutral) asks for it as
//! a hypothesis on the values involved.

use vstd::prelude::*;
use core::ops::{Add, Div, Mul, Sub};
use crate::elem::{add_ok, add_out, div_out, gt_out, mul_ok, mul_out, sub_out};
use crate::fold::{reduce_terms_ok, reduce_terms_out, sum_ok, sum_out, terms_are};
use crate::full::{is_identity, is_identity_of, offset, row_of};
use crate::num::{from_usize_out, is_one_value, is_zero_value};
use crate::slice::{
    linspace_out, linspace_point, argmax_of, argmin_of, argmin_out, argmin_step, is_first_greatest, is_first_least,
    products_ok, running_sums, argmax_out, argmax_step, cum_sum_out, keep_greater, keep_lesser,
    max_out, min_out, product_term, scattered, total_out,
};
use crate::order::{is_greater, lemma_outcomes_follow_order};
use crate::sort::{ascends, is_permutation, orders, sorts};
use crate::complex::{imag_out, new_out, real_out};
use crate::traits::Float;

verus! {

/// Adding `b` to `a` and subtracting it again gives `a` back: where `s` is a
/// result of `a + b` and `d` a result of `s - b`, value by value, `d` is `a`.
///
/// This holds where subtraction undoes addition on the values involved. It
/// does so for integers as long as the sums do not overflow; in floating
/// point it does so only up to rounding, which is why it is asked for here.
pub proof fn lemma_add_then_sub<T: Add<Output = T> + Sub<Output = T>>(
    a: Seq<T>,
    b: Seq<T>,
    s: Seq<T>,
    d: Seq<T>,
)
    requires
        a.len() == b.len(),
        s.len() == a.len(),
        d.len() == a.len(),
        forall|i: int| 0 <= i < a.len() ==> add_out(a[i], b[i], #[trigger] s[i]),
        forall|i: int| 0 <= i < a.len() ==> sub_out(s[i], b[i], #[trigger] d[i]),
        forall|i: int, x: T, y: T|
            #![trigger add_out(a[i], b[i], x), sub_out(x, b[i], y)]
            0 <= i < a.len() && add_out(a[i], b[i], x) && sub_out(x, b[i], y) ==> y == a[i],
    ensures
        d == a,
{
    assert forall|i: int| 0 <= i < a.len() implies d[i] == a[i] by {
        assert(add_out(a[i], b[i], s[i]) && sub_out(s[i], b[i], d[i]));
    }
    assert(d =~= a);
}

/// The law above for 64-bit integers: it holds wherever no sum `a[i] + b[i]`
/// overflows.
pub proof fn lemma_add_then_sub_i64(a: Seq<i64>, b: Seq<i64>, s: Seq<i64>, d: Seq<i64>)
    requires
        a.len() == b.len(),
        s.len() == a.len(),
        d.len() == a.len(),
        forall|i: int| 0 <= i < a.len() ==> i64::MIN <= #[trigger] a[i] + b[i] <= i64::MAX,
        forall|i: int| 0 <= i < a.len() ==> add_out(a[i], b[i], #[trigger] s[i]),
        forall|i: int| 0 <= i < a.len() ==> sub_out(s[i], b[i], #[trigger] d[i]),
    ensures
        d == a,
{
    assert forall|i: int| 0 <= i < a.len() implies d[i] == a[i] by {
        assert(i64::MIN <= a[i] + b[i] <= i64::MAX);
        assert(add_out(a[i], b[i], s[i]));
        assert(sub_out(s[i], b[i], d[i]));
        assert(s[i] == a[i] + b[i]);
        assert(d[i] == s[i] - b[i]);
    }
    assert(d =~= a);
}

/// The sum of the values of `a`, as a mathematical integer.
pub open spec fn int_sum(a: Seq<i64>) -> int
    decreases a.len(),
{
    if a.len() == 0 {
        0
    } else {
        int_sum(a.drop_last()) + a.last()
    }
}

/// A sum of 64-bit integers onto a seed is the seed plus the mathematical sum
/// of the values, wherever every partial sum fits a 64-bit integer.
pub proof fn lemma_sum_i64(seed: i64, a: Seq<i64>, o: i64)
    requires
        sum_out(seed, a, o),
        forall|k: int|
            0 <= k <= a.len() ==> i64::MIN <= seed + #[trigger] int_sum(a.take(k)) <= i64::MAX,
    ensures
        o == seed + int_sum(a),
    decreases a.len(),
{
    if a.len() > 0 {
        let front = a.drop_last();
        let p = choose|p: i64| sum_out(seed, front, p) && #[trigger] add_out(p, a.last(), o);
        assert forall|k: int| 0 <= k <= front.len() implies i64::MIN <= seed + #[trigger] int_sum(
            front.take(k),
        ) <= i64::MAX by {
            assert(front.take(k) =~= a.take(k));
        }
        lemma_sum_i64(seed, front, p);
        assert(a.take(a.len() as int) =~= a);
        assert(i64::MIN <= seed + int_sum(a.take(a.len() as int)) <= i64::MAX);
        assert(o == p + a.last());
    }
}

/// Summing 64-bit integers onto a seed is allowed wherever every partial sum
/// fits a 64-bit integer.
pub proof fn lemma_sum_ok_i64(seed: i64, a: Seq<i64>)
    requires
        forall|k: int|
            0 <= k <= a.len() ==> i64::MIN <= seed + #[trigger] int_sum(a.take(k)) <= i64::MAX,
    ensures
        sum_ok(seed, a),
{
    assert forall|k: int, p: i64|
        0 <= k < a.len() && #[trigger] sum_out(seed, a.take(k), p) implies add_ok(p, a[k]) by {
        assert forall|j: int| 0 <= j <= a.take(k).len() implies i64::MIN <= seed + #[trigger] int_sum(
            a.take(k).take(j),
        ) <= i64::MAX by {
            assert(a.take(k).take(j) =~= a.take(j));
        }
        lemma_sum_i64(seed, a.take(k), p);
        assert(a.take(k + 1).drop_last() =~= a.take(k));
        assert(a.take(k + 1).last() == a[k]);
        assert(int_sum(a.take(k + 1)) == int_sum(a.take(k)) + a[k]);
        assert(i64::MIN <= seed + int_sum(a.take(k + 1)) <= i64::MAX);
    }
}

/// The last entry of a cumulative sum is a sum of the whole.
pub proof fn lemma_cum_sum_last<T: num_traits::Zero + Add<Output = T>>(a: Seq<T>, r: Seq<T>)
    requires
        a.len() > 0,
        cum_sum_out(a, r),
    ensures
        total_out(a, r.last()),
{
    let z = choose|z: T| #[trigger] is_zero_value(z) && running_sums(z, a, r);
    assert(sum_out(z, a.take(a.len() - 1 + 1), r[a.len() - 1]));
    assert(a.take(a.len() as int) =~= a);
}

/// The running sums of 64-bit integers onto a seed are the mathematical ones:
/// entry `i` is the seed plus the sum of `a[0..=i]`, wherever every partial
/// sum fits a 64-bit integer.
pub proof fn lemma_running_sums_i64(seed: i64, a: Seq<i64>, r: Seq<i64>)
    requires
        running_sums(seed, a, r),
        forall|k: int|
            0 <= k <= a.len() ==> i64::MIN <= seed + #[trigger] int_sum(a.take(k)) <= i64::MAX,
    ensures
        forall|i: int| 0 <= i < a.len() ==> #[trigger] r[i] == seed + int_sum(a.take(i + 1)),
{
    assert forall|i: int| 0 <= i < a.len() implies #[trigger] r[i] == seed + int_sum(
        a.take(i + 1),
    ) by {
        let b = a.take(i + 1);
        assert forall|k: int| 0 <= k <= b.len() implies i64::MIN <= seed + #[trigger] int_sum(
            b.take(k),
        ) <= i64::MAX by {
            assert(b.take(k) =~= a.take(k));
        }
        lemma_sum_i64(seed, b, r[i]);
    }
}

/// The values of `a`, read through its sort order, are in sorted order: none
/// is greater than one that comes after it.
pub proof fn lemma_select_sorted<T: PartialOrd>(a: Seq<T>, ix: Seq<usize>, s: Seq<T>)
    requires
        orders(a),
        sorts(a, ix),
        s.len() == ix.len(),
        forall|k: int| 0 <= k < ix.len() ==> #[trigger] s[k] == a[ix[k] as int],
    ensures
        forall|p: int, q: int| 0 <= p < q < s.len() ==> !is_greater(#[trigger] s[p], #[trigger] s[q]),
{
    assert forall|p: int, q: int| 0 <= p < q < s.len() implies !is_greater(
        #[trigger] s[p],
        #[trigger] s[q],
    ) by {
        assert(ascends(a, ix));
        assert(!is_greater(a[ix[p] as int], a[ix[q] as int]));
    }
}

/// Scattering what a permutation gathered puts every value back in its
/// place: with `s[k] == a[ix[k]]` for a permutation `ix`, setting positions
/// `ix` of any buffer of that length to `s` gives `a`.
pub proof fn lemma_scatter_undoes_select<T>(a: Seq<T>, ix: Seq<usize>, s: Seq<T>, b: Seq<T>)
    requires
        is_permutation(ix, a.len()),
        s.len() == a.len(),
        b.len() == a.len(),
        forall|k: int| 0 <= k < ix.len() ==> #[trigger] s[k] == a[ix[k] as int],
    ensures
        scattered(b, ix, s, ix.len()) == a,
{
    lemma_scattered_values(b, ix, s, ix.len());
    let r = scattered(b, ix, s, ix.len());
    assert forall|j: int| 0 <= j < a.len() implies r[j] == a[j] by {
        lemma_permutation_onto(ix, a.len(), j);
        let k = choose|k: int| 0 <= k < ix.len() && ix[k] == j;
        assert(r[ix[k] as int] == s[k]);
    }
    assert(r =~= a);
}

/// After the first `n` assignments of a scatter through distinct indices,
/// each of the positions written holds its value, and the length is kept.
proof fn lemma_scattered_values<T>(b: Seq<T>, ix: Seq<usize>, s: Seq<T>, n: nat)
    requires
        n <= ix.len(),
        n <= s.len(),
        forall|k: int| 0 <= k < ix.len() ==> #[trigger] ix[k] < b.len(),
        forall|k: int, l: int| 0 <= k < l < ix.len() ==> #[trigger] ix[k] != #[trigger] ix[l],
    ensures
        scattered(b, ix, s, n).len() == b.len(),
        forall|k: int| 0 <= k < n ==> scattered(b, ix, s, n)[#[trigger] ix[k] as int] == s[k],
    decreases n,
{
    if n > 0 {
        lemma_scattered_values(b, ix, s, (n - 1) as nat);
        let before = scattered(b, ix, s, (n - 1) as nat);
        let after = scattered(b, ix, s, n);
        assert(after == before.update(ix[n - 1] as int, s[n - 1]));
        assert forall|k: int| 0 <= k < n implies after[#[trigger] ix[k] as int] == s[k] by {
            if k < n - 1 {
                assert(ix[k] != ix[n - 1]);
                assert(before[ix[k] as int] == s[k]);
            }
        }
    }
}

/// A permutation of the indices below `n` reaches every one of them.
proof fn lemma_permutation_onto(ix: Seq<usize>, n: nat, j: int)
    requires
        is_permutation(ix, n),
        0 <= j < n,
    ensures
        exists|k: int| 0 <= k < ix.len() && ix[k] == j,
{
    // The indices are distinct and all below n, and there are n of them.
    let image = Set::new(|v: int| exists|k: int| 0 <= k < ix.len() && #[trigger] ix[k] == v);
    let below = Set::new(|v: int| 0 <= v < n);
    lemma_below_finite(n);
    assert(image.subset_of(below));
    lemma_image_len(ix, ix.len());
    assert(prefix_image(ix, ix.len()) =~= image);
    vstd::set_lib::lemma_subset_equality(image, below);
    assert(below.contains(j));
}

/// The set of the first `m` entries of `ix`.
spec fn prefix_image(ix: Seq<usize>, m: nat) -> Set<int> {
    Set::new(|v: int| exists|k: int| 0 <= k < m && #[trigger] ix[k] == v)
}

/// The first `m` entries of a sequence of distinct values make a set of `m`
/// values.
proof fn lemma_image_len(ix: Seq<usize>, m: nat)
    requires
        m <= ix.len(),
        forall|k: int, l: int| 0 <= k < l < ix.len() ==> #[trigger] ix[k] != #[trigger] ix[l],
    ensures
        prefix_image(ix, m).finite(),
        prefix_image(ix, m).len() == m,
    decreases m,
{
    if m == 0 {
        assert(prefix_image(ix, 0) =~= Set::<int>::empty());
    } else {
        lemma_image_len(ix, (m - 1) as nat);
        let before = prefix_image(ix, (m - 1) as nat);
        let v = ix[m - 1] as int;
        assert(!before.contains(v)) by {
            if before.contains(v) {
                let k = choose|k: int| 0 <= k < m - 1 && #[trigger] ix[k] == v;
                assert(ix[k] != ix[m - 1]);
            }
        }
        assert(prefix_image(ix, m) =~= before.insert(v)) by {
            assert forall|w: int| prefix_image(ix, m).contains(w) <==> before.insert(v).contains(
                w,
            ) by {
                if prefix_image(ix, m).contains(w) {
                    let k = choose|k: int| 0 <= k < m && #[trigger] ix[k] == w;
                    if k < m - 1 {
                        assert(before.contains(w));
                    }
                }
                if before.contains(w) {
                    let k = choose|k: int| 0 <= k < m - 1 && #[trigger] ix[k] == w;
                    assert(0 <= k < m && ix[k] == w);
                }
                if w == v {
                    assert(0 <= m - 1 < m && ix[m - 1] == w);
                }
            }
        }
    }
}

/// The indices below `n` make a finite set of `n` values.
proof fn lemma_below_finite(n: nat)
    ensures
        Set::new(|v: int| 0 <= v < n).finite(),
        Set::new(|v: int| 0 <= v < n).len() == n,
    decreases n,
{
    let s = Set::new(|v: int| 0 <= v < n);
    if n == 0 {
        assert(s =~= Set::<int>::empty());
    } else {
        lemma_below_finite((n - 1) as nat);
        let t = Set::new(|v: int| 0 <= v < n - 1);
        assert(s =~= t.insert(n - 1));
    }
}

/// Three arrays, one after the other: the result is as long as the three
/// together, and each value stands at its place behind the arrays before it.
pub proof fn lemma_concat_three<T>(a1: Seq<T>, a2: Seq<T>, a3: Seq<T>)
    ensures
        seq![a1, a2, a3].flatten() == a1 + a2 + a3,
        seq![a1, a2, a3].flatten().len() == a1.len() + a2.len() + a3.len(),
        forall|i: int| 0 <= i < a1.len() ==> seq![a1, a2, a3].flatten()[i] == a1[i],
        forall|i: int| 0 <= i < a2.len() ==> seq![a1, a2, a3].flatten()[a1.len() + i] == a2[i],
        forall|i: int|
            0 <= i < a3.len() ==> seq![a1, a2, a3].flatten()[a1.len() + a2.len() + i] == a3[i],
{
    let none = Seq::<Seq<T>>::empty();
    none.lemma_flatten_push(a1);
    none.push(a1).lemma_flatten_push(a2);
    none.push(a1).push(a2).lemma_flatten_push(a3);
    assert(none.push(a1).push(a2).push(a3) =~= seq![a1, a2, a3]);
    assert(none.flatten() =~= Seq::<T>::empty());
    assert(seq![a1, a2, a3].flatten() =~= a1 + a2 + a3);
}

/// On the values of `v`, the zeros and ones of `T` do what identities do: a
/// zero times a value is a zero, a one times a value is that value, and
/// adding a zero on either side changes nothing.
pub open spec fn identities_hold<T: num_traits::Zero + num_traits::One + Add<Output = T> + Mul<
    Output = T,
>>(v: Seq<T>) -> bool {
    &&& forall|z: T, i: int, m: T|
        #![trigger is_zero_value(z), mul_out(z, v[i], m)]
        is_zero_value(z) && 0 <= i < v.len() && mul_out(z, v[i], m) ==> is_zero_value(m)
    &&& forall|o: T, i: int, m: T|
        #![trigger is_one_value(o), mul_out(o, v[i], m)]
        is_one_value(o) && 0 <= i < v.len() && mul_out(o, v[i], m) ==> m == v[i]
    &&& forall|z: T, x: T, s: T|
        #![trigger is_zero_value(z), add_out(z, x, s)]
        is_zero_value(z) && add_out(z, x, s) ==> s == x
    &&& forall|z: T, x: T, s: T|
        #![trigger is_zero_value(z), add_out(x, z, s)]
        is_zero_value(z) && add_out(x, z, s) ==> s == x
}

/// Multiplying the identity matrix with a vector gives the vector back:
/// where `y[i]` is a dot product of row `i` of the identity with `v`, `y` is
/// `v`.
///
/// This holds where the zeros and ones of `T` act as identities on the values
/// of `v`; in floating point they do not on a value that is infinite or not a
/// number.
pub proof fn lemma_identity_mat_vec<T: num_traits::Zero + num_traits::One + Add<Output = T> + Mul<
    Output = T,
>>(n: nat, a_x: Seq<T>, v: Seq<T>, y: Seq<T>, col_major: bool)
    requires
        is_identity(n as int, a_x),
        v.len() == n,
        y.len() == n,
        identities_hold(v),
        forall|i: int|
            0 <= i < n ==> reduce_terms_out(
                n,
                product_term(row_of(n as int, n as int, a_x, i, col_major), v),
                #[trigger] y[i],
            ),
    ensures
        y == v,
{
    assert forall|i: int| 0 <= i < n implies y[i] == v[i] by {
        let row = row_of(n as int, n as int, a_x, i, col_major);
        let term = product_term(row, v);
        let m = choose|m: Seq<T>|
            m.len() == n && terms_are(term, m) && #[trigger] sum_out(m[0], m.skip(1), y[i]);
        assert forall|k: int| 0 <= k < n implies if k == i {
            m[k] == v[k]
        } else {
            is_zero_value(#[trigger] m[k])
        } by {
            assert(term(k, m[k]));
            assert(mul_out(row[k], v[k], m[k]));
            if col_major {
                assert(row[k] == a_x[offset(n as int, n as int, i, k, true)]);
            } else {
                assert(row[k] == a_x[offset(n as int, n as int, k, i, true)]);
            }
        }
        if i == 0 {
            lemma_sum_of_zeros(m[0], m.skip(1), y[i]);
        } else {
            lemma_sum_with_one_value(m[0], m.skip(1), i - 1, y[i]);
        }
    }
    assert(y =~= v);
}

/// On the values of `v`, `zero` and `one` do what identities do: `zero` times
/// a value is `zero`, `one` times a value is that value, and adding `zero` on
/// either side changes nothing.
pub open spec fn are_identities<T: Add<Output = T> + Mul<Output = T>>(
    zero: T,
    one: T,
    v: Seq<T>,
) -> bool {
    &&& forall|i: int, m: T|
        0 <= i < v.len() && #[trigger] mul_out(zero, v[i], m) ==> m == zero
    &&& forall|i: int, m: T| 0 <= i < v.len() && #[trigger] mul_out(one, v[i], m) ==> m == v[i]
    &&& forall|x: T, s: T| #[trigger] add_out(zero, x, s) ==> s == x
    &&& forall|x: T, s: T| #[trigger] add_out(x, zero, s) ==> s == x
}

/// Multiplying the identity matrix over `zero` and `one` with a vector gives
/// the vector back, where the two act as identities on its values.
pub proof fn lemma_identity_of_mat_vec<T: num_traits::Zero + Add<Output = T> + Mul<Output = T>>(
    n: nat,
    zero: T,
    one: T,
    a_x: Seq<T>,
    v: Seq<T>,
    y: Seq<T>,
    col_major: bool,
)
    requires
        is_identity_of(n as int, zero, one, a_x),
        v.len() == n,
        y.len() == n,
        are_identities(zero, one, v),
        forall|i: int|
            0 <= i < n ==> reduce_terms_out(
                n,
                product_term(row_of(n as int, n as int, a_x, i, col_major), v),
                #[trigger] y[i],
            ),
    ensures
        y == v,
{
    assert forall|i: int| 0 <= i < n implies y[i] == v[i] by {
        let row = row_of(n as int, n as int, a_x, i, col_major);
        let term = product_term(row, v);
        let m = choose|m: Seq<T>|
            m.len() == n && terms_are(term, m) && #[trigger] sum_out(m[0], m.skip(1), y[i]);
        assert forall|k: int| 0 <= k < n implies #[trigger] m[k] == (if k == i {
            v[k]
        } else {
            zero
        }) by {
            assert(term(k, m[k]));
            assert(mul_out(row[k], v[k], m[k]));
            if col_major {
                assert(row[k] == a_x[offset(n as int, n as int, i, k, true)]);
            } else {
                assert(row[k] == a_x[offset(n as int, n as int, k, i, true)]);
            }
        }
        if i == 0 {
            lemma_sum_of_equal_zeros(zero, m[0], m.skip(1), y[i]);
        } else {
            lemma_sum_with_one_term(zero, m.skip(1), i - 1, y[i]);
        }
    }
    assert(y =~= v);
}

/// The law above for 64-bit integers, with 0 and 1: the identity matrix times
/// a vector is the vector.
pub proof fn lemma_identity_mat_vec_i64(
    n: nat,
    a_x: Seq<i64>,
    v: Seq<i64>,
    y: Seq<i64>,
    col_major: bool,
)
    requires
        is_identity_of(n as int, 0i64, 1i64, a_x),
        v.len() == n,
        y.len() == n,
        forall|i: int|
            0 <= i < n ==> reduce_terms_out(
                n,
                product_term(row_of(n as int, n as int, a_x, i, col_major), v),
                #[trigger] y[i],
            ),
    ensures
        y == v,
{
    assert forall|i: int, m: i64| 0 <= i < v.len() && #[trigger] mul_out(0i64, v[i], m) implies m
        == 0 by {
        assert(0 * v[i] == 0);
    }
    assert forall|i: int, m: i64| 0 <= i < v.len() && #[trigger] mul_out(1i64, v[i], m) implies m
        == v[i] by {
        assert(1 * v[i] == v[i]);
    }
    lemma_identity_of_mat_vec(n, 0i64, 1i64, a_x, v, y, col_major);
}

/// Adding terms that all equal `zero` onto a seed leaves the seed.
proof fn lemma_sum_of_equal_zeros<T: Add<Output = T>>(zero: T, seed: T, t: Seq<T>, o: T)
    requires
        sum_out(seed, t, o),
        forall|k: int| 0 <= k < t.len() ==> #[trigger] t[k] == zero,
        forall|x: T, s: T| #[trigger] add_out(x, zero, s) ==> s == x,
    ensures
        o == seed,
    decreases t.len(),
{
    if t.len() > 0 {
        let p = choose|p: T| sum_out(seed, t.drop_last(), p) && #[trigger] add_out(p, t.last(), o);
        lemma_sum_of_equal_zeros(zero, seed, t.drop_last(), p);
        assert(t.last() == zero);
    }
}

/// Adding the terms `t`, all equal to `zero` but the one at `j`, onto `zero`
/// gives the term at `j`.
proof fn lemma_sum_with_one_term<T: Add<Output = T>>(zero: T, t: Seq<T>, j: int, o: T)
    requires
        sum_out(zero, t, o),
        0 <= j < t.len(),
        forall|k: int| 0 <= k < t.len() && k != j ==> #[trigger] t[k] == zero,
        forall|x: T, s: T| #[trigger] add_out(zero, x, s) ==> s == x,
        forall|x: T, s: T| #[trigger] add_out(x, zero, s) ==> s == x,
    ensures
        o == t[j],
    decreases t.len(),
{
    let p = choose|p: T| sum_out(zero, t.drop_last(), p) && #[trigger] add_out(p, t.last(), o);
    if j == t.len() - 1 {
        lemma_sum_of_equal_zeros(zero, zero, t.drop_last(), p);
    } else {
        lemma_sum_with_one_term(zero, t.drop_last(), j, p);
        assert(t.last() == zero);
    }
}

/// Adding zeros onto a seed leaves the seed.
proof fn lemma_sum_of_zeros<T: num_traits::Zero + Add<Output = T>>(seed: T, t: Seq<T>, o: T)
    requires
        sum_out(seed, t, o),
        forall|k: int| 0 <= k < t.len() ==> is_zero_value(#[trigger] t[k]),
        forall|z: T, x: T, s: T|
            #![trigger is_zero_value(z), add_out(x, z, s)]
            is_zero_value(z) && add_out(x, z, s) ==> s == x,
    ensures
        o == seed,
    decreases t.len(),
{
    if t.len() > 0 {
        let p = choose|p: T| sum_out(seed, t.drop_last(), p) && #[trigger] add_out(p, t.last(), o);
        lemma_sum_of_zeros(seed, t.drop_last(), p);
        assert(is_zero_value(t.last()));
    }
}

/// Adding the terms `t`, all zeros but the one at `j`, onto a zero gives the
/// term at `j`.
proof fn lemma_sum_with_one_value<T: num_traits::Zero + Add<Output = T>>(
    seed: T,
    t: Seq<T>,
    j: int,
    o: T,
)
    requires
        sum_out(seed, t, o),
        is_zero_value(seed),
        0 <= j < t.len(),
        forall|k: int| 0 <= k < t.len() && k != j ==> is_zero_value(#[trigger] t[k]),
        forall|z: T, x: T, s: T|
            #![trigger is_zero_value(z), add_out(z, x, s)]
            is_zero_value(z) && add_out(z, x, s) ==> s == x,
        forall|z: T, x: T, s: T|
            #![trigger is_zero_value(z), add_out(x, z, s)]
            is_zero_value(z) && add_out(x, z, s) ==> s == x,
    ensures
        o == t[j],
    decreases t.len(),
{
    let p = choose|p: T| sum_out(seed, t.drop_last(), p) && #[trigger] add_out(p, t.last(), o);
    if j == t.len() - 1 {
        lemma_sum_of_zeros(seed, t.drop_last(), p);
    } else {
        lemma_sum_with_one_value(seed, t.drop_last(), j, p);
        assert(is_zero_value(t.last()));
    }
}

/// The dot product of `a` and `b`, as a mathematical integer.
pub open spec fn int_dot(a: Seq<i64>, b: Seq<i64>) -> int
    decreases a.len(),
{
    if a.len() == 0 || b.len() == 0 {
        0
    } else {
        int_dot(a.drop_last(), b.drop_last()) + a.last() * b.last()
    }
}

/// The dot product of two non-empty arrays of 64-bit integers is the
/// mathematical one, wherever every product and every partial sum fits a
/// 64-bit integer.
pub proof fn lemma_dot_i64(a: Seq<i64>, b: Seq<i64>, o: i64)
    requires
        a.len() > 0,
        a.len() == b.len(),
        forall|k: int| 0 <= k < a.len() ==> i64::MIN <= #[trigger] (a[k] * b[k]) <= i64::MAX,
        forall|k: int|
            1 <= k <= a.len() ==> i64::MIN <= #[trigger] int_dot(a.take(k), b.take(k)) <= i64::MAX,
        reduce_terms_out(a.len(), product_term(a, b), o),
    ensures
        o == int_dot(a, b),
{
    let term = product_term(a, b);
    let m = choose|m: Seq<i64>|
        m.len() == a.len() && terms_are(term, m) && #[trigger] sum_out(m[0], m.skip(1), o);
    assert(m.take(a.len() as int) =~= m);
    lemma_partial_dot_i64(a, b, m, a.len() as int, o);
    assert(a.take(a.len() as int) =~= a);
    assert(b.take(b.len() as int) =~= b);
}

/// The same for a prefix: adding up the first `k` products gives their sum.
proof fn lemma_partial_dot_i64(a: Seq<i64>, b: Seq<i64>, m: Seq<i64>, k: int, p: i64)
    requires
        a.len() == b.len(),
        m.len() == a.len(),
        terms_are(product_term(a, b), m),
        1 <= k <= a.len(),
        forall|j: int| 0 <= j < a.len() ==> i64::MIN <= #[trigger] (a[j] * b[j]) <= i64::MAX,
        forall|j: int|
            1 <= j <= a.len() ==> i64::MIN <= #[trigger] int_dot(a.take(j), b.take(j)) <= i64::MAX,
        sum_out(m[0], m.take(k).skip(1), p),
    ensures
        p == int_dot(a.take(k), b.take(k)),
    decreases k,
{
    let term = product_term(a, b);
    assert(a.take(k).drop_last() =~= a.take(k - 1));
    assert(b.take(k).drop_last() =~= b.take(k - 1));
    assert(a.take(k).last() == a[k - 1] && b.take(k).last() == b[k - 1]);
    assert(int_dot(a.take(k), b.take(k)) == int_dot(a.take(k - 1), b.take(k - 1)) + a[k - 1] * b[k
        - 1]);
    assert(term(k - 1, m[k - 1]));
    assert(mul_out(a[k - 1], b[k - 1], m[k - 1]));
    assert(i64::MIN <= a[k - 1] * b[k - 1] <= i64::MAX);
    assert(m[k - 1] == a[k - 1] * b[k - 1]);
    let t = m.take(k).skip(1);
    if k == 1 {
        assert(t.len() == 0);
        assert(int_dot(a.take(0), b.take(0)) == 0);
    } else {
        let q = choose|q: i64| sum_out(m[0], t.drop_last(), q) && #[trigger] add_out(q, t.last(), p);
        assert(t.drop_last() =~= m.take(k - 1).skip(1));
        lemma_partial_dot_i64(a, b, m, k - 1, q);
        assert(t.last() == m[k - 1]);
        assert(i64::MIN <= int_dot(a.take(k), b.take(k)) <= i64::MAX);
        assert(p == q + m[k - 1]);
    }
}

/// The dot product of two arrays of 64-bit integers is allowed wherever every
/// product and every partial sum fits a 64-bit integer.
pub proof fn lemma_dot_ok_i64(a: Seq<i64>, b: Seq<i64>)
    requires
        a.len() == b.len(),
        forall|k: int| 0 <= k < a.len() ==> i64::MIN <= #[trigger] (a[k] * b[k]) <= i64::MAX,
        forall|k: int|
            1 <= k <= a.len() ==> i64::MIN <= #[trigger] int_dot(a.take(k), b.take(k)) <= i64::MAX,
    ensures
        products_ok(a, b),
        reduce_terms_ok(a.len(), product_term(a, b)),
{
    assert forall|i: int| 0 <= i < a.len() implies mul_ok(#[trigger] a[i], b[i]) by {
        assert(i64::MIN <= a[i] * b[i] <= i64::MAX);
    }
    let term = product_term(a, b);
    assert forall|m: Seq<i64>, p: i64|
        1 < m.len() <= a.len() && terms_are(term, m) && #[trigger] sum_out(
            m[0],
            m.drop_last().skip(1),
            p,
        ) implies add_ok(p, m.last()) by {
        let k = m.len() as int;
        let a2 = a.take(k);
        let b2 = b.take(k);
        // the terms so far are terms of the shorter arrays
        let m2 = m.drop_last();
        let a1 = a.take(k - 1);
        let b1 = b.take(k - 1);
        assert(terms_are(product_term(a1, b1), m2)) by {
            assert forall|i: int| 0 <= i < m2.len() implies (product_term(a1, b1))(
                i,
                #[trigger] m2[i],
            ) by {
                assert(term(i, m[i]));
                assert(a1[i] == a[i] && b1[i] == b[i]);
            }
        }
        assert forall|j: int| 0 <= j < a1.len() implies i64::MIN <= #[trigger] (a1[j] * b1[j])
            <= i64::MAX by {
            assert(a1[j] == a[j] && b1[j] == b[j]);
            assert(i64::MIN <= a[j] * b[j] <= i64::MAX);
        }
        assert forall|j: int| 1 <= j <= a1.len() implies i64::MIN <= #[trigger] int_dot(
            a1.take(j),
            b1.take(j),
        ) <= i64::MAX by {
            assert(a1.take(j) =~= a.take(j));
            assert(b1.take(j) =~= b.take(j));
        }
        assert(m2.take(k - 1) =~= m2);
        lemma_partial_dot_i64(a1, b1, m2, k - 1, p);
        assert(a1.take(k - 1) =~= a1);
        assert(b1.take(k - 1) =~= b1);
        assert(term(k - 1, m[k - 1]));
        assert(mul_out(a[k - 1], b[k - 1], m.last()));
        assert(i64::MIN <= a[k - 1] * b[k - 1] <= i64::MAX);
        assert(m.last() == a[k - 1] * b[k - 1]);
        assert(a2.drop_last() =~= a1);
        assert(b2.drop_last() =~= b1);
        assert(a2.last() == a[k - 1] && b2.last() == b[k - 1]);
        assert(int_dot(a2, b2) == int_dot(a1, b1) + a[k - 1] * b[k - 1]);
        assert(i64::MIN <= int_dot(a.take(k), b.take(k)) <= i64::MAX);
    }
}

/// A dot product of an array with itself is not negative, and no less than
/// that of a shorter prefix.
pub proof fn lemma_int_dot_self_grows(a: Seq<i64>, k: int)
    requires
        0 <= k <= a.len(),
    ensures
        0 <= int_dot(a.take(k), a.take(k)) <= int_dot(a, a),
    decreases a.len(),
{
    if a.len() == 0 {
        assert(a.take(k) =~= a);
    } else {
        assert(a.last() * a.last() >= 0) by (nonlinear_arith);
        if k == a.len() {
            assert(a.take(k) =~= a);
            lemma_int_dot_self_grows(a.drop_last(), k - 1);
        } else {
            lemma_int_dot_self_grows(a.drop_last(), k);
            assert(a.drop_last().take(k) =~= a.take(k));
        }
    }
}

/// The dot product of a non-empty array of 64-bit integers with itself is the
/// sum of the squares of its values, and so not negative, wherever that sum
/// fits a 64-bit integer.
pub proof fn lemma_dot_self_i64(a: Seq<i64>, o: i64)
    requires
        a.len() > 0,
        int_dot(a, a) <= i64::MAX,
        reduce_terms_out(a.len(), product_term(a, a), o),
    ensures
        o == int_dot(a, a),
        o >= 0,
{
    assert forall|k: int| 1 <= k <= a.len() implies i64::MIN <= #[trigger] int_dot(
        a.take(k),
        a.take(k),
    ) <= i64::MAX by {
        lemma_int_dot_self_grows(a, k);
    }
    assert forall|k: int| 0 <= k < a.len() implies i64::MIN <= #[trigger] (a[k] * a[k])
        <= i64::MAX by {
        lemma_int_dot_self_grows(a, k + 1);
        lemma_int_dot_self_grows(a.take(k + 1), k);
        assert(a.take(k + 1).take(k) =~= a.take(k));
        assert(a.take(k + 1).drop_last() =~= a.take(k));
        assert(a.take(k + 1).last() == a[k]);
        assert(a.take(k + 1).take(k + 1) =~= a.take(k + 1));
        assert(a[k] * a[k] >= 0) by (nonlinear_arith);
    }
    lemma_dot_i64(a, a, o);
    lemma_int_dot_self_grows(a, 0);
}

/// The order of the 64-bit integers orders every sequence of them.
pub proof fn lemma_orders_i64(a: Seq<i64>)
    ensures
        orders(a),
{
}

/// Where the order of `T` orders a sequence, it orders every prefix of it.
proof fn lemma_orders_prefix<T: PartialOrd>(a: Seq<T>, k: int)
    requires
        orders(a),
        0 <= k <= a.len(),
    ensures
        orders(a.take(k)),
{
    let b = a.take(k);
    assert forall|i: int, j: int|
        0 <= i < b.len() && 0 <= j < b.len() && #[trigger] is_greater(b[i], b[j]) implies !is_greater(
        b[j],
        b[i],
    ) by {
        assert(is_greater(a[i], a[j]));
    }
    assert forall|i: int, j: int, l: int|
        #![trigger is_greater(b[i], b[j]), is_greater(b[j], b[l])]
        0 <= i < b.len() && 0 <= j < b.len() && 0 <= l < b.len() && !is_greater(b[i], b[j])
            && !is_greater(b[j], b[l]) implies !is_greater(b[i], b[l]) by {
        assert(!is_greater(a[i], a[j]) && !is_greater(a[j], a[l]));
    }
}

/// What `max` gives is a value of the array, and none of its values is
/// greater, where the order of `T` orders them.
pub proof fn lemma_max_is_greatest<T: PartialOrd>(a: Seq<T>, o: T)
    requires
        orders(a),
        max_out(a, o),
    ensures
        exists|k: int| 0 <= k < a.len() && a[k] == o,
        forall|j: int| 0 <= j < a.len() ==> !is_greater(#[trigger] a[j], o),
    decreases a.len(),
{
    let n = a.len() as int;
    if n == 1 {
        assert(a[0] == o);
        if is_greater(a[0], a[0]) {
            assert(!is_greater(a[0], a[0]));
        }
    } else {
        let front = a.drop_last();
        let p = choose|p: T| max_out(front, p) && #[trigger] keep_greater(p, a.last(), o);
        assert(front =~= a.take(n - 1));
        lemma_orders_prefix(a, n - 1);
        lemma_max_is_greatest(front, p);
        let k = choose|k: int| 0 <= k < front.len() && front[k] == p;
        assert(a[k] == p);
        if is_greater(a[n - 1], a[n - 1]) {
            assert(!is_greater(a[n - 1], a[n - 1]));
        }
        lemma_outcomes_follow_order(p, a.last(), true);
        lemma_outcomes_follow_order(p, a.last(), false);
        if gt_out(p, a.last(), true) {
            assert(is_greater(a[k], a[n - 1]));
            assert(!is_greater(a[n - 1], a[k]));
            assert(o == p);
            assert forall|j: int| 0 <= j < a.len() implies !is_greater(#[trigger] a[j], o) by {
                if j < n - 1 {
                    assert(front[j] == a[j]);
                }
            }
            assert(0 <= k < a.len() && a[k] == o);
        } else {
            assert(gt_out(a[k], a[n - 1], false));
            assert(!is_greater(a[k], a[n - 1]));
            assert(o == a[n - 1]);
            assert forall|j: int| 0 <= j < a.len() implies !is_greater(#[trigger] a[j], o) by {
                if j < n - 1 {
                    assert(front[j] == a[j]);
                    assert(!is_greater(a[j], a[k]));
                    assert(!is_greater(a[k], a[n - 1]));
                }
            }
            assert(0 <= n - 1 < a.len() && a[n - 1] == o);
        }
    }
}

/// What `min` gives is a value of the array, and it is greater than none of
/// its values, where the order of `T` orders them.
pub proof fn lemma_min_is_least<T: PartialOrd>(a: Seq<T>, o: T)
    requires
        orders(a),
        min_out(a, o),
    ensures
        exists|k: int| 0 <= k < a.len() && a[k] == o,
        forall|j: int| 0 <= j < a.len() ==> !is_greater(o, #[trigger] a[j]),
    decreases a.len(),
{
    let n = a.len() as int;
    if n == 1 {
        assert(a[0] == o);
        if is_greater(a[0], a[0]) {
            assert(!is_greater(a[0], a[0]));
        }
    } else {
        let front = a.drop_last();
        let p = choose|p: T| min_out(front, p) && #[trigger] keep_lesser(p, a.last(), o);
        assert(front =~= a.take(n - 1));
        lemma_orders_prefix(a, n - 1);
        lemma_min_is_least(front, p);
        let k = choose|k: int| 0 <= k < front.len() && front[k] == p;
        assert(a[k] == p);
        if is_greater(a[n - 1], a[n - 1]) {
            assert(!is_greater(a[n - 1], a[n - 1]));
        }
        lemma_outcomes_follow_order(p, a.last(), true);
        lemma_outcomes_follow_order(p, a.last(), false);
        if gt_out(p, a.last(), true) {
            assert(is_greater(a[k], a[n - 1]));
            assert(!is_greater(a[n - 1], a[k]));
            assert(o == a[n - 1]);
            assert forall|j: int| 0 <= j < a.len() implies !is_greater(o, #[trigger] a[j]) by {
                if j < n - 1 {
                    assert(front[j] == a[j]);
                    assert(!is_greater(a[k], a[j]));
                    assert(!is_greater(a[n - 1], a[k]));
                }
            }
            assert(0 <= n - 1 < a.len() && a[n - 1] == o);
        } else {
            assert(gt_out(a[k], a[n - 1], false));
            assert(!is_greater(a[k], a[n - 1]));
            assert(o == p);
            assert forall|j: int| 0 <= j < a.len() implies !is_greater(o, #[trigger] a[j]) by {
                if j < n - 1 {
                    assert(front[j] == a[j]);
                }
            }
            assert(0 <= k < a.len() && a[k] == o);
        }
    }
}

/// The index that `argmax` gives is the first index of the maximum, where
/// the order of `T` orders the values.
pub proof fn lemma_argmax_is_first_greatest<T: PartialOrd>(a: Seq<T>, r: int)
    requires
        orders(a),
        argmax_of(a, r),
    ensures
        is_first_greatest(a, r),
{
    let best = choose|best: T| #[trigger] argmax_out(a[0], a, (r, best));
    assert(a.take(a.len() as int) =~= a);
    lemma_argmax_scan(a, a.len() as int, r, best);
}

/// The state of the scan for the maximum after `k` values: the best so far
/// is the value at the index kept, no value so far is greater, and it is
/// greater than every value before it.
proof fn lemma_argmax_scan<T: PartialOrd>(a: Seq<T>, k: int, r: int, best: T)
    requires
        orders(a),
        a.len() > 0,
        0 <= k <= a.len(),
        argmax_out(a[0], a.take(k), (r, best)),
    ensures
        0 <= r < a.len(),
        k > 0 ==> r < k,
        best == a[r],
        forall|j: int| 0 <= j < k ==> !is_greater(#[trigger] a[j], best),
        forall|j: int| 0 <= j < r ==> is_greater(best, #[trigger] a[j]),
    decreases k,
{
    if k > 0 {
        let t = a.take(k);
        let p = choose|p: (int, T)|
            argmax_out(a[0], t.drop_last(), p) && #[trigger] argmax_step(
                t.len() - 1,
                t.last(),
                p,
                (r, best),
            );
        assert(t.drop_last() =~= a.take(k - 1));
        lemma_argmax_scan(a, k - 1, p.0, p.1);
        let x = a[k - 1];
        assert(t.last() == x);
        assert(p.1 == a[p.0]);
        if is_greater(x, x) {
            assert(is_greater(a[k - 1], a[k - 1]));
            assert(!is_greater(a[k - 1], a[k - 1]));
        }
        lemma_outcomes_follow_order(x, p.1, true);
        lemma_outcomes_follow_order(x, p.1, false);
        if gt_out(x, p.1, true) {
            assert((r, best) == (k - 1, x));
            assert(is_greater(a[k - 1], a[p.0]));
            assert(!is_greater(a[p.0], a[k - 1]));
            assert forall|j: int| 0 <= j < k implies !is_greater(#[trigger] a[j], best) by {
                if j < k - 1 {
                    assert(!is_greater(a[j], a[p.0]));
                    assert(!is_greater(a[p.0], a[k - 1]));
                }
            }
            assert forall|j: int| 0 <= j < r implies is_greater(best, #[trigger] a[j]) by {
                assert(!is_greater(a[j], a[p.0]));
                if !is_greater(a[k - 1], a[j]) {
                    assert(!is_greater(a[k - 1], a[p.0]));
                }
            }
        } else {
            assert((r, best) == p);
            assert(gt_out(a[k - 1], a[p.0], false));
            assert(!is_greater(a[k - 1], a[p.0]));
        }
    }
}

/// The index that `argmin` gives is the first index of the minimum, where
/// the order of `T` orders the values.
pub proof fn lemma_argmin_is_first_least<T: PartialOrd>(a: Seq<T>, r: int)
    requires
        orders(a),
        argmin_of(a, r),
    ensures
        is_first_least(a, r),
{
    let best = choose|best: T| #[trigger] argmin_out(a[0], a, (r, best));
    assert(a.take(a.len() as int) =~= a);
    lemma_argmin_scan(a, a.len() as int, r, best);
}

/// The state of the scan for the minimum after `k` values: the best so far
/// is the value at the index kept, it is greater than no value so far, and
/// every value before it is greater than it.
proof fn lemma_argmin_scan<T: PartialOrd>(a: Seq<T>, k: int, r: int, best: T)
    requires
        orders(a),
        a.len() > 0,
        0 <= k <= a.len(),
        argmin_out(a[0], a.take(k), (r, best)),
    ensures
        0 <= r < a.len(),
        k > 0 ==> r < k,
        best == a[r],
        forall|j: int| 0 <= j < k ==> !is_greater(best, #[trigger] a[j]),
        forall|j: int| 0 <= j < r ==> is_greater(#[trigger] a[j], best),
    decreases k,
{
    if k > 0 {
        let t = a.take(k);
        let p = choose|p: (int, T)|
            argmin_out(a[0], t.drop_last(), p) && #[trigger] argmin_step(
                t.len() - 1,
                t.last(),
                p,
                (r, best),
            );
        assert(t.drop_last() =~= a.take(k - 1));
        lemma_argmin_scan(a, k - 1, p.0, p.1);
        let x = a[k - 1];
        assert(t.last() == x);
        assert(p.1 == a[p.0]);
        if is_greater(x, x) {
            assert(is_greater(a[k - 1], a[k - 1]));
            assert(!is_greater(a[k - 1], a[k - 1]));
        }
        lemma_outcomes_follow_order(p.1, x, true);
        lemma_outcomes_follow_order(p.1, x, false);
        if gt_out(p.1, x, true) {
            assert((r, best) == (k - 1, x));
            assert(is_greater(a[p.0], a[k - 1]));
            assert(!is_greater(a[k - 1], a[p.0]));
            assert forall|j: int| 0 <= j < k implies !is_greater(best, #[trigger] a[j]) by {
                if j < k - 1 {
                    assert(!is_greater(a[k - 1], a[p.0]));
                    assert(!is_greater(a[p.0], a[j]));
                }
            }
            assert forall|j: int| 0 <= j < r implies is_greater(#[trigger] a[j], best) by {
                assert(!is_greater(a[p.0], a[j]));
                if !is_greater(a[j], a[k - 1]) {
                    assert(!is_greater(a[p.0], a[k - 1]));
                }
            }
        } else {
            assert((r, best) == p);
            assert(gt_out(a[p.0], a[k - 1], false));
            assert(!is_greater(a[p.0], a[k - 1]));
        }
    }
}

/// Taking apart what was put together: for the complex numbers of
/// `num_complex`, the real and imaginary parts of an array built from the
/// parts `re` and `im` are `re` and `im` again.
pub proof fn lemma_complex_parts<F: Float>(
    re: Seq<F>,
    im: Seq<F>,
    c: Seq<num_complex::Complex<F>>,
    back_re: Seq<F>,
    back_im: Seq<F>,
)
    requires
        re.len() == im.len(),
        c.len() == re.len(),
        back_re.len() == re.len(),
        back_im.len() == re.len(),
        forall|i: int| 0 <= i < re.len() ==> new_out(re[i], im[i], #[trigger] c[i]),
        forall|i: int| 0 <= i < re.len() ==> real_out(c[i], #[trigger] back_re[i]),
        forall|i: int| 0 <= i < re.len() ==> imag_out(c[i], #[trigger] back_im[i]),
    ensures
        back_re == re,
        back_im == im,
{
    assert forall|i: int| 0 <= i < re.len() implies back_re[i] == re[i] && back_im[i] == im[i] by {
        assert(new_out(re[i], im[i], c[i]));
        assert(real_out(c[i], back_re[i]));
        assert(imag_out(c[i], back_im[i]));
    }
    assert(back_re =~= re);
    assert(back_im =~= im);
}

/// `holds` is kept by the arithmetic of a dot product of `a` with itself: it
/// holds of every zero of `T`, of every square `a[i] * a[i]`, and of a sum
/// of two values of which it holds.
pub open spec fn kept_by_squares<T: num_traits::Zero + Add<Output = T> + Mul<Output = T>>(
    holds: spec_fn(T) -> bool,
    a: Seq<T>,
) -> bool {
    &&& forall|z: T| #[trigger] is_zero_value(z) ==> holds(z)
    &&& forall|i: int, m: T| 0 <= i < a.len() && #[trigger] mul_out(a[i], a[i], m) ==> holds(m)
    &&& forall|p: T, x: T, s: T| holds(p) && holds(x) && #[trigger] add_out(p, x, s) ==> holds(s)
}

/// The dot product of an array with itself is not negative, whatever "not
/// negative" is for `T`, as long as the arithmetic keeps it: squares are not
/// negative, and neither is a zero or a sum of two values that are not.
///
/// In floating point that is so for values that are numbers; a value that is
/// not a number has a square that is not one either.
pub proof fn lemma_dot_self_keeps<T: num_traits::Zero + Add<Output = T> + Mul<Output = T>>(
    holds: spec_fn(T) -> bool,
    a: Seq<T>,
    o: T,
)
    requires
        kept_by_squares(holds, a),
        reduce_terms_out(a.len(), product_term(a, a), o),
    ensures
        holds(o),
{
    if a.len() > 0 {
        let term = product_term(a, a);
        let m = choose|m: Seq<T>|
            m.len() == a.len() && terms_are(term, m) && #[trigger] sum_out(m[0], m.skip(1), o);
        assert forall|k: int| 0 <= k < m.len() implies holds(#[trigger] m[k]) by {
            assert(term(k, m[k]));
            assert(mul_out(a[k], a[k], m[k]));
        }
        lemma_sum_keeps(holds, m[0], m.skip(1), o);
    }
}

/// A sum onto a seed keeps what holds of the seed and of every term and is
/// kept by addition.
proof fn lemma_sum_keeps<T: Add<Output = T>>(holds: spec_fn(T) -> bool, seed: T, t: Seq<T>, o: T)
    requires
        holds(seed),
        forall|k: int| 0 <= k < t.len() ==> holds(#[trigger] t[k]),
        forall|p: T, x: T, s: T| holds(p) && holds(x) && #[trigger] add_out(p, x, s) ==> holds(s),
        sum_out(seed, t, o),
    ensures
        holds(o),
    decreases t.len(),
{
    if t.len() > 0 {
        let p = choose|p: T| sum_out(seed, t.drop_last(), p) && #[trigger] add_out(p, t.last(), o);
        assert forall|k: int| 0 <= k < t.drop_last().len() implies holds(
            #[trigger] t.drop_last()[k],
        ) by {
            assert(t.drop_last()[k] == t[k]);
        }
        lemma_sum_keeps(holds, seed, t.drop_last(), p);
        assert(holds(t.last()));
    }
}

/// The count 0, converted to `T`, vanishes in the arithmetic of `linspace`:
/// times anything, or divided by anything and then times anything, and added
/// to `start`, it gives `start`.
pub open spec fn zero_count_vanishes<T: num_traits::FromPrimitive + Add<Output = T> + Mul<
    Output = T,
> + Div<Output = T>>(start: T) -> bool {
    &&& forall|t: T, x: T, m: T, v: T|
        #![trigger from_usize_out(0, Some(t)), mul_out(t, x, m), add_out(m, start, v)]
        from_usize_out(0, Some(t)) && mul_out(t, x, m) && add_out(m, start, v) ==> v == start
    &&& forall|t: T, d: T, q: T, x: T, m: T, v: T|
        #![trigger from_usize_out(0, Some(t)), div_out(t, d, q), mul_out(q, x, m), add_out(m, start, v)]
        from_usize_out(0, Some(t)) && div_out(t, d, q) && mul_out(q, x, m) && add_out(m, start, v)
            ==> v == start
}

/// With two points or more, the first point of `linspace` is `start` itself,
/// where the converted count 0 vanishes in its arithmetic.
///
/// In floating point it does unless the step is infinite or not a number,
/// as where `stop - start` overflows.
pub proof fn lemma_linspace_first<T: num_traits::Zero + num_traits::FromPrimitive + PartialEq + Add<
    Output = T,
> + Sub<Output = T> + Mul<Output = T> + Div<Output = T>>(
    start: T,
    stop: T,
    num: usize,
    inclusive: bool,
    r: Seq<T>,
)
    requires
        num >= 2,
        linspace_out(start, stop, num, inclusive, r),
        zero_count_vanishes(start),
    ensures
        r[0] == start,
{
    let (delta, div, step, zero_step) = choose|delta: T, div: T, step: T, zero_step: bool|
        {
            &&& #[trigger] crate::slice::linspace_spacing(
                start,
                stop,
                crate::slice::linspace_divisor(num, inclusive),
                delta,
                div,
                step,
                zero_step,
            )
            &&& forall|i: int|
                0 <= i < crate::slice::linspace_divisor(num, inclusive) ==> linspace_point(
                    start,
                    delta,
                    div,
                    step,
                    zero_step,
                    i as usize,
                    #[trigger] r[i],
                )
        };
    assert(linspace_point(start, delta, div, step, zero_step, 0, r[0]));
    let (t, m) = choose|t: T, m: T|
        #![trigger from_usize_out(0usize, Some(t)), add_out(m, start, r[0])]
        {
            &&& from_usize_out(0usize, Some(t))
            &&& add_out(m, start, r[0])
            &&& if zero_step {
                exists|q: T| #[trigger] div_out(t, div, q) && mul_out(q, delta, m)
            } else {
                mul_out(t, step, m)
            }
        };
    if zero_step {
        let q = choose|q: T| #[trigger] div_out(t, div, q) && mul_out(q, delta, m);
        assert(from_usize_out(0, Some(t)) && div_out(t, div, q) && mul_out(q, delta, m) && add_out(
            m,
            start,
            r[0],
        ));
    } else {
        assert(from_usize_out(0, Some(t)) && mul_out(t, step, m) && add_out(m, start, r[0]));
    }
}

} // verus!
