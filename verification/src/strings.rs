//! Owned and borrowed strings, and their concatenation.
use crate::variables::str_eq;
use vstd::prelude::*;
use vstd::string::StringExecFns;

verus! {

/// An owned copy of `a`, whatever `b` is.
pub fn str_str_string(a: &str, b: &str) -> (r: String)
    ensures
        r@ == a@,
{
    let c: String = String::from_str(a);
    let d = String::from_str(b);
    let e = str_string(a);
    let f = str_string(a);
    if c == d && e == f {
        return String::from_str(a);
    } else {
        return c;
    }
}

/// An owned copy of `a`.
pub fn str_string(a: &str) -> (r: String)
    ensures
        r@ == a@,
{
    String::from_str(a)
}

/// `a`, `b`, `a`, `foo` and `bar` in a row.
pub fn str_str_op(a: &str, b: &str) -> (r: String)
    ensures
        r@ == a@ + b@ + a@ + "foo"@ + "bar"@,
{
    let c = String::from_str(a).concat(b);
    let mut d = String::from_str(a);
    d.append("foo");
    let r = c.concat(d.as_str()).concat("bar");
    assert(r@ =~= a@ + b@ + a@ + "foo"@ + "bar"@);
    r
}

/// Calls the three functions above on `foo` and `bar` and returns what they
/// give, in the order in which it is shown.
pub fn invoke_all() -> (shown: (String, String, String))
    ensures
        shown.0@ == "foo"@,
        shown.1@ == "foo"@,
        shown.2@ == "foo"@ + "bar"@ + "foo"@ + "foo"@ + "bar"@,
{
    let a = str_str_string("foo", "bar");
    let b = str_string("foo");
    let c = str_str_op("foo", "bar");
    (a, b, c)
}

} // verus!
