//! Assignment in its several forms: plain, annotated, augmented, repeated.
use crate::add_mult::{fits, lemma_quot_fits, spec_quot};
use vstd::prelude::*;
use vstd::string::StringExecFns;

verus! {

/// Whether two string slices hold the same text.
pub fn str_eq(a: &str, b: &str) -> (r: bool)
    ensures
        r == (a@ == b@),
{
    String::from_str(a) == String::from_str(b)
}

/// Three times `3c + 2d` where `a` holds or `b` is `hello`, else nothing.
pub fn assignment(a: bool, b: &str, c: i64, d: i64) -> (r: i64)
    requires
        fits(c + d),
        fits(c + d + c),
        fits(3 * c + 2 * d),
        a || b@ == "hello"@ ==> fits(2 * (3 * c + 2 * d)) && fits(3 * (3 * c + 2 * d)),
    ensures
        r == (if a || b@ == "hello"@ {
            3 * (3 * c + 2 * d)
        } else {
            0
        }),
{
    let e = a;
    let f = b;
    let g = c;
    let h = c + d;
    let j = c + d + g + h;
    let k = j;
    let l = j;
    if a && e || str_eq(f, "hello") {
        j + k + l
    } else {
        0
    }
}

/// `3 + c + d` where `a` holds and `b` is `hello`, else nothing.
pub fn annotated_assignment(a: bool, b: &str, c: i64, d: i64) -> (r: i64)
    requires
        fits(c + d),
        a && b@ == "hello"@ ==> fits(3 + c + d),
    ensures
        r == (if a && b@ == "hello"@ {
            3 + c + d
        } else {
            0
        }),
{
    let e: i64 = 3;
    let f: bool = a;
    let g: String = String::from_str(b);
    let h: i64 = c + d;
    if a && f && str_eq(g.as_str(), "hello") {
        e + h
    } else {
        0
    }
}

/// What a chain of augmented assignments leaves: `a - b`, divided by `a + b`,
/// divided by `a`, times `b`, each quotient rounded towards zero.
pub open spec fn spec_aug_assign(a: int, b: int) -> int {
    spec_quot(spec_quot(a - b, a + b), a) * b
}

/// Starts at zero, then adds `a`, subtracts `b`, divides by `a + b`, divides
/// by `a` and multiplies by `b`.
pub fn aug_assign(a: i64, b: i64) -> (r: i64)
    requires
        fits(a - b),
        fits(a + b),
        a + b != 0,
        !(a - b == i64::MIN && a + b == -1),
        a != 0,
        !(spec_quot(a - b, a + b) == i64::MIN && a == -1),
        fits(spec_aug_assign(a as int, b as int)),
    ensures
        r == spec_aug_assign(a as int, b as int),
{
    let mut c: i64 = 0;
    c += a;
    c -= b;
    proof {
        lemma_quot_fits(a - b, a + b);
    }
    c = c / (a + b);
    proof {
        lemma_quot_fits(c as int, a as int);
    }
    c = c / a;
    c *= b;
    c
}

/// `equal` where the two texts are the same, else the second.
pub fn repeated_assign(a: &str, b: &str) -> (r: String)
    ensures
        r@ == (if a@ == b@ {
            "equal"@
        } else {
            b@
        }),
{
    let mut c = String::from_str(a);
    c = String::from_str(b);
    if str_eq(b, a) {
        c = String::from_str("equal");
    }
    c
}

/// The second argument where `a` holds, else the third.
pub fn pathological(a: bool, b: &str, c: &str) -> (r: String)
    ensures
        r@ == (if a {
            b@
        } else {
            c@
        }),
{
    let mut d: String = String::new();
    if a {
        d = String::from_str(b);
    } else {
        d = String::from_str(c);
    }
    d
}

} // verus!
