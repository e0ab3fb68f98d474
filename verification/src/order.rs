//! The comparison of two formats as an ordering, for sorting.

use std::cmp::Ordering;
use vstd::prelude::*;
use crate::format::Format;
use crate::rank::{cascade, compare_by, compare_with, decides, ranking, ranking_keys};

verus! {

/// The ordering that a comparison stands for: `Greater` for a positive one,
/// `Less` for a negative one, `Equal` for zero.
pub open spec fn ordering_of(sign: int) -> Ordering {
    if sign > 0 {
        Ordering::Greater
    } else if sign < 0 {
        Ordering::Less
    } else {
        Ordering::Equal
    }
}

/// The comparison that an ordering stands for: 1 for `Greater`, -1 for
/// `Less`, 0 for `Equal`.
pub open spec fn sign_of(ordering: Ordering) -> int {
    match ordering {
        Ordering::Greater => 1,
        Ordering::Less => -1,
        Ordering::Equal => 0,
    }
}

/// Orders `a` and `b` by the key functions `sort_by`, the higher score first:
/// the first function that scores them differently decides. `Greater` where
/// it scores `b` higher, `Less` where it scores `a` higher, `Equal` where no
/// function tells them apart.
pub fn sort_formats_by<F: Fn(&Format) -> i64>(a: &Format, b: &Format, sort_by: Vec<F>) -> (r:
    Ordering)
    requires
        forall|i: int|
            0 <= i < sort_by.len() ==> call_requires(#[trigger] sort_by[i], (a,)) && call_requires(
                sort_by[i],
                (b,),
            ),
    ensures
        decides(sort_by@, *a, *b, sign_of(r)),
{
    let sign = compare_with(a, b, &sort_by);
    if sign > 0 {
        Ordering::Greater
    } else if sign < 0 {
        Ordering::Less
    } else {
        Ordering::Equal
    }
}

/// Orders `a` and `b` by the keys of the ranking, the higher score first:
/// the first key under which their scores differ decides.
pub fn sort_formats(a: &Format, b: &Format) -> (r: Ordering)
    ensures
        r == ordering_of(cascade(ranking(), a@, b@)),
{
    let sign = compare_by(a, b, &ranking_keys());
    if sign > 0 {
        Ordering::Greater
    } else if sign < 0 {
        Ordering::Less
    } else {
        Ordering::Equal
    }
}

} // verus!
