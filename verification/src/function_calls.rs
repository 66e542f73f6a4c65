//! Calls between functions: into another module, and into the caller itself.
use crate::add_mult::{add_mult, fits, spec_quot, sub_div};
use crate::flow_of_control::{if_elif_else, if_else, return_if_else};
use crate::variables::str_eq;
use vstd::prelude::*;

verus! {

/// `(a + b * c) + (a - b / c)`.
pub open spec fn spec_call_add_mult(a: int, b: int, c: int) -> int {
    (a + b * c) + (a - spec_quot(b, c))
}

/// Whether `call_add_mult` can be computed on these arguments without
/// leaving the range of sixty-four signed bits.
pub open spec fn spec_call_add_mult_fits(a: int, b: int, c: int) -> bool {
    &&& c != 0
    &&& !(b == i64::MIN && c == -1)
    &&& fits(b * c)
    &&& fits(a + b * c)
    &&& fits(a - spec_quot(b, c))
    &&& fits(spec_call_add_mult(a, b, c))
}

/// The sum of `add_mult` and `sub_div` on the same arguments.
pub fn call_add_mult(a: i64, b: i64, c: i64) -> (r: i64)
    requires
        spec_call_add_mult_fits(a as int, b as int, c as int),
    ensures
        r == spec_call_add_mult(a as int, b as int, c as int),
{
    let d = add_mult(a, b, c);
    let e = sub_div(a, b, c);
    d + e
}

/// Picks between the results of two branch functions by the text that a
/// third returns. That text is never `Foo`, so the second result is returned:
/// `b` where `a` holds, else forty-two.
pub fn call_flow_of_control(a: bool, b: i64) -> (r: i64)
    ensures
        r == (if a {
            b
        } else {
            42
        }),
{
    let c = if_else(a, b);
    let d = return_if_else(a, b);
    let e = if_elif_else(a, !a, "hello", "world");
    if str_eq(e.as_str(), "Foo") {
        c
    } else {
        d
    }
}

/// Counts `a` down to zero by calling itself, then calls `call_add_mult`.
pub fn call_local(a: i64, b: i64, c: i64) -> (r: i64)
    requires
        spec_call_add_mult_fits(
            if a > 0 {
                0
            } else {
                a as int
            },
            b as int,
            c as int,
        ),
    ensures
        r == spec_call_add_mult(
            if a > 0 {
                0
            } else {
                a as int
            },
            b as int,
            c as int,
        ),
    decreases a,
{
    if a > 0 {
        return call_local(a - 1, b, c);
    } else {
        return call_add_mult(a, b, c);
    }
}

} // verus!
