//! A record with a counter, and functions that build and change it.
use vstd::prelude::*;
use vstd::string::StringExecFns;

verus! {

/// A number, a text and a counter.
pub struct Foo {
    pub a: i64,
    pub b: String,
    pub counter: i64,
}

impl Foo {
    /// A record with the given number and text, its counter at zero.
    pub fn new(a: i64, b: &str) -> (foo: Foo)
        ensures
            foo.a == a,
            foo.b@ == b@,
            foo.counter == 0,
    {
        let tmp_a = a;
        let tmp_b = String::from_str(b);
        let tmp_counter: i64 = 0;
        Foo { a: tmp_a, b: tmp_b, counter: tmp_counter }
    }

    /// Raises the counter by one.
    pub fn increment(&mut self)
        requires
            old(self).counter < i64::MAX,
        ensures
            final(self).counter == old(self).counter + 1,
            final(self).a == old(self).a,
            final(self).b == old(self).b,
    {
        self.counter += 1;
    }

    /// Raises the counter by `x`.
    pub fn add(&mut self, x: i64)
        requires
            i64::MIN <= old(self).counter + x <= i64::MAX,
        ensures
            final(self).counter == old(self).counter + x,
            final(self).a == old(self).a,
            final(self).b == old(self).b,
    {
        self.counter += x;
    }
}

/// A record with the given number and text, its counter at zero.
pub fn create_foo(a: i64, b: &str) -> (foo: Foo)
    ensures
        foo.a == a,
        foo.b@ == b@,
        foo.counter == 0,
{
    let foo = Foo::new(a, b);
    foo
}

/// Raises the counter of `foo` by one.
pub fn increment_foo(foo: &mut Foo)
    requires
        old(foo).counter < i64::MAX,
    ensures
        final(foo).counter == old(foo).counter + 1,
        final(foo).a == old(foo).a,
        final(foo).b == old(foo).b,
{
    let was = foo.counter;
    foo.increment();
    let now = foo.counter;
    assert(now == was + 1);
}

/// Raises the counter of `foo` by `x`.
pub fn add_foo(foo: &mut Foo, x: i64)
    requires
        i64::MIN <= old(foo).counter + x <= i64::MAX,
    ensures
        final(foo).counter == old(foo).counter + x,
        final(foo).a == old(foo).a,
        final(foo).b == old(foo).b,
{
    let was = foo.counter;
    foo.add(x);
    let now = foo.counter;
    assert(now == was + x);
}

/// The number and a copy of the text of `foo`, in the order in which they are shown.
pub fn examine_foo(foo: &Foo) -> (shown: (i64, String))
    ensures
        shown.0 == foo.a,
        shown.1@ == foo.b@,
{
    let b = foo.b.clone();
    let a = foo.a;
    (a, b)
}

} // verus!
