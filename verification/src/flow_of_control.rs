//! Branches and counted loops.
use vstd::prelude::*;
use vstd::string::StringExecFns;

verus! {

/// The sum of the integers from `a` up to, not including, `b`.
pub open spec fn spec_range_sum(a: int, b: int) -> int
    decreases b - a,
{
    if a >= b {
        0
    } else {
        spec_range_sum(a, b - 1) + (b - 1)
    }
}

/// `c` where `a` holds, else forty-two.
pub fn if_else(a: bool, c: i64) -> (r: i64)
    ensures
        r == (if a {
            c
        } else {
            42
        }),
{
    if a {
        return c;
    } else {
        return 42;
    }
}

/// `c` where `a` holds, else forty-two, as one expression.
pub fn return_if_else(a: bool, c: i64) -> (r: i64)
    ensures
        r == (if a {
            c
        } else {
            42
        }),
{
    if a {
        c
    } else {
        42
    }
}

/// `c` where both hold, `d` where one does, `Neither` where none does.
pub fn if_elif_else(a: bool, b: bool, c: &str, d: &str) -> (r: String)
    ensures
        r@ == (if a && b {
            c@
        } else if a || b {
            d@
        } else {
            "Neither"@
        }),
{
    if a && b {
        return String::from_str(c);
    } else {
        if a || b {
            return String::from_str(d);
        } else {
            return String::from_str("Neither");
        }
    }
}

/// The sum of the integers in `a..b`.
pub fn for_loop(a: i64, b: i64) -> (total: i64)
    requires
        forall|k: int| a <= k <= b ==> i64::MIN <= #[trigger] spec_range_sum(a as int, k) <= i64::MAX,
    ensures
        total == spec_range_sum(a as int, b as int),
{
    let mut total: i64 = 0;
    let mut i: i64 = a;
    while i < b
        invariant
            a <= i <= b || (b < a && i == a),
            total == spec_range_sum(a as int, i as int),
            forall|k: int|
                a <= k <= b ==> i64::MIN <= #[trigger] spec_range_sum(a as int, k) <= i64::MAX,
        decreases b - i,
    {
        assert(spec_range_sum(a as int, i + 1) == spec_range_sum(a as int, i as int) + i);
        total += i;
        i = i + 1;
    }
    total
}

} // verus!
