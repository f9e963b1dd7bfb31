//! Sorting by index: the permutation that puts a buffer in order.

use vstd::prelude::*;
use crate::elem::{greater, gt_out};
use crate::order::{is_greater, lemma_outcomes_follow_order, obeys_order};

verus! {

/// `s` holds each index below `n` exactly once.
pub open spec fn is_permutation(s: Seq<usize>, n: nat) -> bool {
    &&& s.len() == n
    &&& forall|k: int| 0 <= k < s.len() ==> #[trigger] s[k] < n
    &&& forall|k: int, l: int| 0 <= k < l < s.len() ==> #[trigger] s[k] != #[trigger] s[l]
}

/// The order of `T` is specified and, on the values of `a`, a total preorder:
/// two values are never each greater than the other, and "not greater"
/// carries over from pair to pair.
pub open spec fn orders<T: PartialOrd>(a: Seq<T>) -> bool {
    &&& obeys_order::<T>()
    &&& forall|i: int, j: int|
        0 <= i < a.len() && 0 <= j < a.len() && #[trigger] is_greater(a[i], a[j]) ==> !is_greater(
            a[j],
            a[i],
        )
    &&& forall|i: int, j: int, k: int|
        #![trigger is_greater(a[i], a[j]), is_greater(a[j], a[k])]
        0 <= i < a.len() && 0 <= j < a.len() && 0 <= k < a.len() && !is_greater(a[i], a[j])
            && !is_greater(a[j], a[k]) ==> !is_greater(a[i], a[k])
}

/// Read through `s`, the values of `a` ascend: no value is greater than one
/// that comes after it.
pub open spec fn ascends<T: PartialOrd>(a: Seq<T>, s: Seq<usize>) -> bool {
    forall|p: int, q: int|
        0 <= p < q < s.len() ==> !is_greater(a[#[trigger] s[p] as int], a[#[trigger] s[q] as int])
}

/// Read through `s`, values of `a` that are equal in order stand as they
/// stand in `a`: where the later one is not greater, it has the greater
/// index.
pub open spec fn keeps_ties<T: PartialOrd>(a: Seq<T>, s: Seq<usize>) -> bool {
    forall|p: int, q: int|
        0 <= p < q < s.len() && !is_greater(a[#[trigger] s[q] as int], a[#[trigger] s[p] as int])
            ==> s[p] < s[q]
}

/// `s` is the ascending sort order of `a`: a permutation of its indices
/// which, where the order of `T` is specified and orders the values of `a`,
/// reads them in ascending order and keeps ties in place.
pub open spec fn sorts<T: PartialOrd>(a: Seq<T>, s: Seq<usize>) -> bool {
    &&& is_permutation(s, a.len())
    &&& orders(a) ==> ascends(a, s) && keeps_ties(a, s)
}

/// Putting the index `key` at position `p` keeps a sorted prefix sorted,
/// where `key` is greater than every index in it, the value before `p` did
/// not compare as greater than the one at `key`, and every value from `p` on
/// did.
proof fn lemma_insert_sorted<T: PartialOrd>(a: Seq<T>, s: Seq<usize>, p: int, key: usize)
    requires
        orders(a),
        key < a.len(),
        forall|k: int| 0 <= k < s.len() ==> #[trigger] s[k] < key,
        ascends(a, s),
        keeps_ties(a, s),
        0 <= p <= s.len(),
        p > 0 ==> gt_out(a[s[p - 1] as int], a[key as int], false),
        forall|q: int| p <= q < s.len() ==> gt_out(a[#[trigger] s[q] as int], a[key as int], true),
    ensures
        ascends(a, s.insert(p, key)),
        keeps_ties(a, s.insert(p, key)),
{
    let t = s.insert(p, key);
    let kv = a[key as int];
    if p > 0 {
        lemma_outcomes_follow_order(a[s[p - 1] as int], kv, false);
    }
    assert forall|q: int| p <= q < s.len() implies is_greater(a[#[trigger] s[q] as int], kv) by {
        lemma_outcomes_follow_order(a[s[q] as int], kv, true);
    }
    assert forall|x: int, y: int| 0 <= x < y < t.len() implies !is_greater(
        a[#[trigger] t[x] as int],
        a[#[trigger] t[y] as int],
    ) by {
        if y < p {
            assert(t[x] == s[x] && t[y] == s[y]);
        } else if y == p {
            // t[y] is the key, t[x] stands before the insertion point
            assert(t[x] == s[x]);
            let last = s[p - 1] as int;
            assert(!is_greater(a[last], kv));
            if x < p - 1 {
                assert(!is_greater(a[s[x] as int], a[last]));
                assert(!is_greater(a[s[x] as int], kv));
            }
        } else if x == p {
            assert(t[y] == s[y - 1]);
            assert(is_greater(a[s[y - 1] as int], kv));
        } else if x > p {
            assert(t[x] == s[x - 1] && t[y] == s[y - 1]);
        } else {
            // x < p < y
            assert(t[x] == s[x] && t[y] == s[y - 1]);
        }
    }
    assert forall|x: int, y: int|
        0 <= x < y < t.len() && !is_greater(
            a[#[trigger] t[y] as int],
            a[#[trigger] t[x] as int],
        ) implies t[x] < t[y] by {
        if y < p {
            assert(t[x] == s[x] && t[y] == s[y]);
        } else if y == p {
            assert(t[x] == s[x]);
        } else if x == p {
            assert(t[y] == s[y - 1]);
            assert(is_greater(a[s[y - 1] as int], kv));
        } else if x > p {
            assert(t[x] == s[x - 1] && t[y] == s[y - 1]);
        } else {
            assert(t[x] == s[x] && t[y] == s[y - 1]);
        }
    }
}

/// The position at which index `key` goes into the sorted prefix `ix`: all
/// values from there on compared as greater than the value at `key`, and the
/// value just before it did not.
fn insertion_point<T>(a: &[T], ix: &Vec<usize>, key: usize) -> (p: usize) where
    T: PartialOrd + Copy,

    requires
        key < a.len(),
        forall|k: int| 0 <= k < ix.len() ==> #[trigger] ix[k] < a.len(),
    ensures
        p <= ix.len(),
        p > 0 ==> gt_out(a[ix[p - 1] as int], a[key as int], false),
        forall|q: int| p <= q < ix.len() ==> gt_out(a[#[trigger] ix[q] as int], a[key as int], true),
{
    let mut p: usize = ix.len();
    while p > 0
        invariant
            p <= ix.len(),
            key < a.len(),
            forall|k: int| 0 <= k < ix.len() ==> #[trigger] ix[k] < a.len(),
            forall|q: int|
                p <= q < ix.len() ==> gt_out(a[#[trigger] ix[q] as int], a[key as int], true),
        decreases p,
    {
        if !greater(&a[ix[p - 1]], &a[key]) {
            return p;
        }
        p -= 1;
    }
    p
}

/// The entries of `s`, last to first.
fn reversed(s: &Vec<usize>) -> (r: Vec<usize>)
    ensures
        r@ == s@.reverse(),
{
    let n = s.len();
    let mut r: Vec<usize> = Vec::new();
    let mut i: usize = 0;
    while i < n
        invariant
            i <= n,
            n == s.len(),
            r.len() == i,
            forall|k: int| 0 <= k < i ==> #[trigger] r[k] == s[n - 1 - k],
        decreases n - i,
    {
        r.push(s[n - 1 - i]);
        i += 1;
    }
    proof {
        assert(r@ =~= s@.reverse());
    }
    r
}

/// Returns the indexes that read `a` in ascending order; with `reverse`, that
/// ascending order read last to first.
///
/// The sort is stable: values that are equal in order keep the order they
/// have in `a` (and so stand in the opposite order with `reverse`). This
/// holds where the order of `T` is specified and orders the values of `a`;
/// where it does not (a value that is not a number), the result is still a
/// permutation of the indexes.
pub fn argsort<T>(a: &[T], reverse: bool) -> (r: Vec<usize>) where T: PartialOrd + Copy
    ensures
        sorts(
            a@,
            if reverse {
                r@.reverse()
            } else {
                r@
            },
        ),
{
    let n = a.len();
    let mut ix: Vec<usize> = Vec::new();
    let mut i: usize = 0;
    while i < n
        invariant
            i <= n,
            n == a.len(),
            is_permutation(ix@, i as nat),
            orders(a@) ==> ascends(a@, ix@) && keeps_ties(a@, ix@),
        decreases n - i,
    {
        let p = insertion_point(a, &ix, i);
        proof {
            let t = ix@.insert(p as int, i);
            if orders(a@) {
                lemma_insert_sorted(a@, ix@, p as int, i);
            }
            assert forall|k: int| 0 <= k < t.len() implies #[trigger] t[k] < i + 1 by {
                if k < p {
                    assert(t[k] == ix@[k]);
                } else if k > p {
                    assert(t[k] == ix@[k - 1]);
                }
            }
            assert forall|k: int, l: int| 0 <= k < l < t.len() implies #[trigger] t[k]
                != #[trigger] t[l] by {
                if k < p {
                    assert(t[k] == ix@[k]);
                } else if k > p {
                    assert(t[k] == ix@[k - 1]);
                }
                if l < p {
                    assert(t[l] == ix@[l]);
                } else if l > p {
                    assert(t[l] == ix@[l - 1]);
                }
            }
        }
        ix.insert(p, i);
        i += 1;
    }
    if reverse {
        let r = reversed(&ix);
        proof {
            assert(r@.reverse() =~= ix@);
        }
        r
    } else {
        ix
    }
}

} // verus!
