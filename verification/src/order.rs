//! The order of an element type, as far as it has a specification.

use vstd::prelude::*;
use vstd::std_specs::cmp::{PartialOrdIs, PartialOrdSpec};
use crate::elem::{gt_out, lt_out};

verus! {

/// The comparisons of `T` follow their specification: what `<`, `<=`, `>` and
/// `>=` give is a function of the operands.
pub open spec fn obeys_order<T: PartialOrd>() -> bool {
    T::obeys_partial_cmp_spec()
}

/// `x` is greater than `y`, by the specification of `T`'s order.
pub open spec fn is_greater<T: PartialOrd>(x: T, y: T) -> bool {
    x.is_gt(&y)
}

/// `x` is less than `y`, by the specification of `T`'s order.
pub open spec fn is_less<T: PartialOrd>(x: T, y: T) -> bool {
    x.is_lt(&y)
}

/// Where the comparisons of `T` follow their specification, what `>` and `<`
/// gave is what the specification says.
pub proof fn lemma_outcomes_follow_order<T: PartialOrd>(x: T, y: T, r: bool)
    requires
        obeys_order::<T>(),
    ensures
        gt_out(x, y, r) ==> r == is_greater(x, y),
        lt_out(x, y, r) ==> r == is_less(x, y),
{
}

} // verus!
