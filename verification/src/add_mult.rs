//! Arithmetic, bitwise, boolean and relational expressions on integers.
use vstd::arithmetic::power::pow;
use vstd::prelude::*;

verus! {

/// Whether an integer fits in sixty-four signed bits.
pub open spec fn fits(x: int) -> bool {
    i64::MIN <= x <= i64::MAX
}

/// The quotient of `b` by `c`, rounded towards zero.
pub open spec fn spec_quot(b: int, c: int) -> int {
    if b >= 0 {
        b / c
    } else {
        -((-b) / c)
    }
}

/// The remainder of `b` by `c` that goes with that quotient: it has the sign of `b`.
pub open spec fn spec_rem(b: int, c: int) -> int {
    if b >= 0 {
        b % c
    } else {
        -((-b) % c)
    }
}

proof fn lemma_quot_bounds(b: int, c: int)
    requires
        c != 0,
        b >= 0,
    ensures
        -b <= b / c <= b,
        0 <= b % c <= b,
        c == -1 ==> b / c == -b,
        c < -1 && b > 0 ==> -b < b / c,
{
    vstd::arithmetic::div_mod::lemma_fundamental_div_mod(b, c);
    let q = b / c;
    let r = b % c;
    if c > 0 {
        vstd::arithmetic::div_mod::lemma_mod_bound(b, c);
    }
    assert(0 <= r && (c < 0 ==> r < -c));
    assert(-b <= q <= b && (c == -1 ==> q == -b) && (c < -1 && b > 0 ==> -b < q) && r <= b) by (nonlinear_arith)
        requires
            b == c * q + r,
            0 <= r,
            c > 0 ==> r < c,
            c < 0 ==> r < -c,
            b >= 0,
            c != 0,
    ;
}

/// A quotient rounded towards zero, and its remainder, fit wherever the
/// machine can compute them.
pub proof fn lemma_quot_fits(b: int, c: int)
    requires
        fits(b),
        fits(c),
        c != 0,
        !(b == i64::MIN && c == -1),
    ensures
        fits(spec_quot(b, c)),
        fits(spec_rem(b, c)),
{
    if b >= 0 {
        lemma_quot_bounds(b, c);
    } else {
        lemma_quot_bounds(-b, c);
    }
}

/// `a + b * c`.
pub fn add_mult(a: i64, b: i64, c: i64) -> (r: i64)
    requires
        fits(b * c),
        fits(a + b * c),
    ensures
        r == a + b * c,
{
    a + b * c
}

/// `a - b / c`, the quotient rounded towards zero.
pub fn sub_div(a: i64, b: i64, c: i64) -> (r: i64)
    requires
        c != 0,
        !(b == i64::MIN && c == -1),
        fits(a - spec_quot(b as int, c as int)),
    ensures
        r == a - spec_quot(b as int, c as int),
{
    proof {
        lemma_quot_fits(b as int, c as int);
    }
    a - b / c
}

/// `a / (b % c)`, quotient rounded towards zero and remainder with the sign of `b`.
pub fn floor_div(a: i64, b: i64, c: i64) -> (r: i64)
    requires
        c != 0,
        !(b == i64::MIN && c == -1),
        spec_rem(b as int, c as int) != 0,
        !(a == i64::MIN && spec_rem(b as int, c as int) == -1),
    ensures
        r == spec_quot(a as int, spec_rem(b as int, c as int)),
{
    proof {
        lemma_quot_fits(b as int, c as int);
    }
    let m: i64 = b % c;
    proof {
        lemma_quot_fits(a as int, m as int);
    }
    a / m
}

/// `a << b & b >> c ^ (a | b)`: the shifts bind first, then `&`, then `^`.
pub fn bitwise(a: i64, b: i64, c: i64) -> (r: i64)
    requires
        0 <= b < 64,
        0 <= c < 64,
    ensures
        r == ((a << b) & (b >> c)) ^ (a | b),
{
    a << b & b >> c ^ (a | b)
}

/// `i64::checked_pow` of the standard library: the power `base` to the `exp`
/// where it fits in sixty-four signed bits, and `None` where it does not.
#[verifier::external_body]
fn checked_pow(base: i64, exp: u32) -> (r: Option<i64>)
    ensures
        fits(pow(base as int, exp as nat)) ==> r == Some(pow(base as int, exp as nat) as i64),
        !fits(pow(base as int, exp as nat)) ==> r is None,
{
    base.checked_pow(exp)
}

/// The low thirty-two bits of an integer, read as an exponent.
pub open spec fn spec_exponent(x: int) -> nat {
    (x as u32) as nat
}

/// The inner power of `powers`: `b + c` to the low bits of `c + a`.
pub open spec fn spec_inner_power(a: int, b: int, c: int) -> int {
    pow(b + c, spec_exponent(c + a))
}

/// The outer power of `powers`: `a + b` to the low bits of the inner power.
pub open spec fn spec_outer_power(a: int, b: int, c: int) -> int {
    pow(a + b, spec_exponent(spec_inner_power(a, b, c)))
}

/// `a * (a + b)` to the power of `(b + c)` to the power of `c + a`, each
/// exponent cut down to its low thirty-two bits.
pub fn powers(a: i64, b: i64, c: i64) -> (r: i64)
    requires
        fits(a + b),
        fits(b + c),
        fits(c + a),
        fits(spec_inner_power(a as int, b as int, c as int)),
        fits(spec_outer_power(a as int, b as int, c as int)),
        fits(a * spec_outer_power(a as int, b as int, c as int)),
    ensures
        r == a * spec_outer_power(a as int, b as int, c as int),
{
    let e1: u32 = #[verifier::truncate]
    ((c + a) as u32);
    let inner = checked_pow(b + c, e1);
    let inner_value: i64 = inner.unwrap();
    let e2: u32 = #[verifier::truncate]
    (inner_value as u32);
    let outer = checked_pow(a + b, e2);
    let outer_value: i64 = outer.unwrap();
    a * outer_value
}

/// `!(!a + b + -c) + !!a`, where `!` is the bitwise complement.
pub fn unaries(a: i64, b: i64, c: i64) -> (r: i64)
    requires
        c != i64::MIN,
        fits(-1 - a + b),
        fits(-1 - a + b - c),
        fits(-1 - (-1 - a + b - c) + a),
    ensures
        r == -1 - (-1 - a + b - c) + a,
{
    let na: i64 = !a;
    let nna: i64 = !na;
    assert(na == -1 - a) by (bit_vector)
        requires
            na == !a,
    ;
    assert(nna == a) by (bit_vector)
        requires
            nna == !na,
            na == !a,
    ;
    let inner: i64 = na + b + -c;
    let ninner: i64 = !inner;
    assert(ninner == -1 - inner) by (bit_vector)
        requires
            ninner == !inner,
    ;
    ninner + nna
}

/// True when all three hold or none does.
pub fn boolean(a: bool, b: bool, c: bool) -> (r: bool)
    ensures
        r == ((a && b && c) || !(a || b || c)),
{
    a && b && c || !(a || b || c)
}

/// A disjunction of six comparisons.
pub fn compare(a: i64, b: i64, c: i64) -> (r: bool)
    ensures
        r == (a == b || b != c || a > b || c < a || a <= b || c >= b),
        r,
{
    a == b || b != c || a > b || c < a || a <= b || c >= b
}

/// `a + (b - c) + (b + c) * a`.
pub fn precedence(a: i64, b: i64, c: i64) -> (r: i64)
    requires
        fits(b - c),
        fits(a + (b - c)),
        fits(b + c),
        fits((b + c) * a),
        fits(a + (b - c) + (b + c) * a),
    ensures
        r == a + (b - c) + (b + c) * a,
{
    a + (b - c) + (b + c) * a
}

/// Rising, falling, or stepping onto a plateau.
pub fn multi_compare(a: i64, b: i64, c: i64) -> (r: bool)
    ensures
        r == ((a < b && b < c) || (a >= b && b > c) || (a != b && b == c)),
{
    (a < b) && (b < c) || (a >= b) && (b > c) || (a != b) && (b == c)
}

/// True when at least two of the three hold.
pub fn boolean_precedence(a: bool, b: bool, c: bool) -> (r: bool)
    ensures
        r == ((a && b) || (c && b) || (a && c)),
{
    a && b || c && b || a && c
}

} // verus!
