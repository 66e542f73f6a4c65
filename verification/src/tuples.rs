//! Tuple construction, destructuring and swap.
use vstd::prelude::*;

verus! {

/// The distance between two integers.
pub open spec fn spec_distance(a: int, b: int) -> int {
    if b > a {
        b - a
    } else {
        a - b
    }
}

/// Orders the pair so that the larger comes first, then subtracts.
pub fn use_tuple_for_swap(a: i64, b: i64) -> (r: i64)
    requires
        spec_distance(a as int, b as int) <= i64::MAX,
    ensures
        r == spec_distance(a as int, b as int),
{
    let mut a = a;
    let mut b = b;
    if b > a {
        let tmp = (b, a);
        a = tmp.0;
        b = tmp.1;
    }
    a - b
}

/// Packs two integers into a pair.
pub fn return_tuple(a: i64, b: i64) -> (r: (i64, i64))
    ensures
        r == (a, b),
{
    (a, b)
}

/// Builds a pair, takes it apart again and returns the distance of its parts.
pub fn use_returned_tuple(a: i64, b: i64) -> (r: i64)
    requires
        spec_distance(a as int, b as int) <= i64::MAX,
    ensures
        r == spec_distance(a as int, b as int),
{
    let (c, d) = return_tuple(a, b);
    use_tuple_for_swap(c, d)
}

/// The distance of the two parts of a pair.
pub fn tuple_in_args(a: (i64, i64)) -> (r: i64)
    requires
        spec_distance(a.0 as int, a.1 as int) <= i64::MAX,
    ensures
        r == spec_distance(a.0 as int, a.1 as int),
{
    let mut a = a;
    if a.1 > a.0 {
        a = (a.1, a.0);
    }
    a.0 - a.1
}

} // verus!
