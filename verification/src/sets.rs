//! Sets of integers and of strings, with in-place set algebra.
use crate::lists::repeat;
use std::collections::HashSet;
use vstd::hash_set::StringHashSet;
use vstd::prelude::*;
use vstd::std_specs::hash::spec_hash_keys_iter;
use vstd::std_specs::iter::IteratorSpec;
use vstd::string::StringExecFns;

verus! {

broadcast use {vstd::std_specs::hash::group_hash_axioms, vstd::seq_lib::group_seq_properties};

/// The integers from `a` up to, not including, `b`.
pub open spec fn spec_range_set(a: int, b: int) -> Set<i64> {
    Set::new(|x: i64| a <= x < b)
}

/// The set of the integers in `a..b`.
pub fn create_set(a: i64, b: i64) -> (s: HashSet<i64>)
    ensures
        s@ == spec_range_set(a as int, b as int),
{
    let mut s: HashSet<i64> = HashSet::new();
    let mut i: i64 = a;
    while i < b
        invariant
            a <= i <= b || (b < a && i == a),
            s@ == spec_range_set(a as int, i as int),
        decreases b - i,
    {
        s.insert(i);
        i = i + 1;
        assert(s@ =~= spec_range_set(a as int, i as int));
    }
    assert(s@ =~= spec_range_set(a as int, b as int));
    s
}

/// The elements of a set, each once, in the order in which the set hands them out.
pub fn elements(s: &HashSet<i64>) -> (v: Vec<i64>)
    ensures
        v@.to_set() == s@,
        v@.no_duplicates(),
{
    let mut v: Vec<i64> = Vec::new();
    let ghost all = spec_hash_keys_iter(s).remaining();
    for k in it: s.iter()
        invariant
            it.seq() == all,
            v@.len() == it.index(),
            forall|j: int| 0 <= j < v@.len() ==> v@[j] == *all[j],
    {
        v.push(*k);
    }
    assert(v@ =~= all.unref());
    assert(v@.no_duplicates()) by {
        assert forall|i: int, j: int| 0 <= i < v@.len() && 0 <= j < v@.len() && i != j implies v@[i] != v@[j] by {
            assert(all[i] != all[j]);
        }
    }
    v
}

proof fn lemma_take_step(xs: Seq<i64>, i: int)
    requires
        0 <= i < xs.len(),
    ensures
        xs.take(i + 1).to_set() == xs.take(i).to_set().insert(xs[i]),
        xs.no_duplicates() ==> !xs.take(i).to_set().contains(xs[i]),
{
    let a = xs.take(i + 1);
    let b = xs.take(i);
    assert forall|e: i64| a.contains(e) <==> (b.contains(e) || e == xs[i]) by {
        if a.contains(e) {
            let j = a.index_of(e);
            if j < i {
                assert(b[j] == e);
            }
        }
        if b.contains(e) {
            let j = b.index_of(e);
            assert(a[j] == e);
        }
        if e == xs[i] {
            assert(a[i] == e);
        }
    }
    assert(a.to_set() =~= b.to_set().insert(xs[i]));
    if xs.no_duplicates() && b.contains(xs[i]) {
        let j = b.index_of(xs[i]);
        assert(xs[j] == xs[i]);
    }
}

/// The elements that are in `x` and not in `y`.
pub open spec fn spec_difference(x: Set<i64>, y: Set<i64>) -> Set<i64> {
    Set::new(|e: i64| x.contains(e) && !y.contains(e))
}

/// The elements that are in both sets.
pub open spec fn spec_intersection(x: Set<i64>, y: Set<i64>) -> Set<i64> {
    Set::new(|e: i64| x.contains(e) && y.contains(e))
}

/// The elements that are in exactly one of the two sets.
pub open spec fn spec_symmetric_difference(x: Set<i64>, y: Set<i64>) -> Set<i64> {
    Set::new(|e: i64| x.contains(e) != y.contains(e))
}

/// What `x` holds after `difference_update` with `y`.
pub open spec fn spec_difference_update(x: Set<i64>, y: Set<i64>) -> Set<i64> {
    x.difference(y)
}

/// What `x` holds after `intersection_update` with `y`.
pub open spec fn spec_intersection_update(x: Set<i64>, y: Set<i64>) -> Set<i64> {
    x.intersect(y)
}

/// What `x` holds after `symmetric_difference_update` with `y`.
pub open spec fn spec_symmetric_difference_update(x: Set<i64>, y: Set<i64>) -> Set<i64> {
    x.difference(y).union(y.difference(x))
}

/// Updating a set in place by difference leaves in it what the difference of
/// the two sets holds, for every pair of sets, empty ones included.
pub proof fn lemma_difference_update_is_difference(x: Set<i64>, y: Set<i64>)
    ensures
        spec_difference_update(x, y) == spec_difference(x, y),
{
    assert(spec_difference_update(x, y) =~= spec_difference(x, y));
}

/// Updating a set in place by intersection leaves in it what the intersection
/// of the two sets holds, for every pair of sets, empty ones included.
pub proof fn lemma_intersection_update_is_intersection(x: Set<i64>, y: Set<i64>)
    ensures
        spec_intersection_update(x, y) == spec_intersection(x, y),
{
    assert(spec_intersection_update(x, y) =~= spec_intersection(x, y));
}

/// Updating a set in place by symmetric difference leaves in it what the
/// symmetric difference of the two sets holds, for every pair of sets, empty
/// ones included.
pub proof fn lemma_symmetric_difference_update_is_symmetric_difference(x: Set<i64>, y: Set<i64>)
    ensures
        spec_symmetric_difference_update(x, y) == spec_symmetric_difference(x, y),
{
    assert(spec_symmetric_difference_update(x, y) =~= spec_symmetric_difference(x, y));
}

/// An independent copy of a set: it holds the same elements, and a later
/// change to either set leaves the other as it was.
pub fn copy_set(s: &HashSet<i64>) -> (r: HashSet<i64>)
    ensures
        r@ == s@,
{
    let xs = elements(s);
    let mut r: HashSet<i64> = HashSet::new();
    let mut i: usize = 0;
    assert(r@ =~= xs@.take(0).to_set());
    while i < xs.len()
        invariant
            i <= xs@.len(),
            r@ == xs@.take(i as int).to_set(),
        decreases xs@.len() - i,
    {
        proof {
            lemma_take_step(xs@, i as int);
        }
        r.insert(xs[i]);
        i = i + 1;
    }
    assert(xs@.take(i as int) =~= xs@);
    r
}

/// The elements that are in `x` or in `y`.
pub fn union(x: &HashSet<i64>, y: &HashSet<i64>) -> (r: HashSet<i64>)
    ensures
        r@ == x@.union(y@),
{
    let ys = elements(y);
    let mut r = copy_set(x);
    let mut i: usize = 0;
    assert(r@ =~= x@.union(ys@.take(0).to_set()));
    while i < ys.len()
        invariant
            i <= ys@.len(),
            r@ == x@.union(ys@.take(i as int).to_set()),
        decreases ys@.len() - i,
    {
        proof {
            lemma_take_step(ys@, i as int);
        }
        r.insert(ys[i]);
        i = i + 1;
        assert(r@ =~= x@.union(ys@.take(i as int).to_set()));
    }
    assert(ys@.take(i as int) =~= ys@);
    r
}

/// The elements that are in `x` and not in `y`, as a new set.
pub fn difference(x: &HashSet<i64>, y: &HashSet<i64>) -> (r: HashSet<i64>)
    ensures
        r@ == spec_difference(x@, y@),
{
    let xs = elements(x);
    let mut r: HashSet<i64> = HashSet::new();
    let mut i: usize = 0;
    assert(r@ =~= spec_difference(xs@.take(0).to_set(), y@));
    while i < xs.len()
        invariant
            i <= xs@.len(),
            r@ == spec_difference(xs@.take(i as int).to_set(), y@),
        decreases xs@.len() - i,
    {
        proof {
            lemma_take_step(xs@, i as int);
        }
        if !y.contains(&xs[i]) {
            r.insert(xs[i]);
        }
        i = i + 1;
        assert(r@ =~= spec_difference(xs@.take(i as int).to_set(), y@));
    }
    assert(xs@.take(i as int) =~= xs@);
    r
}

/// The elements that are in both sets, as a new set.
pub fn intersection(x: &HashSet<i64>, y: &HashSet<i64>) -> (r: HashSet<i64>)
    ensures
        r@ == spec_intersection(x@, y@),
{
    let xs = elements(x);
    let mut r: HashSet<i64> = HashSet::new();
    let mut i: usize = 0;
    assert(r@ =~= spec_intersection(xs@.take(0).to_set(), y@));
    while i < xs.len()
        invariant
            i <= xs@.len(),
            r@ == spec_intersection(xs@.take(i as int).to_set(), y@),
        decreases xs@.len() - i,
    {
        proof {
            lemma_take_step(xs@, i as int);
        }
        if y.contains(&xs[i]) {
            r.insert(xs[i]);
        }
        i = i + 1;
        assert(r@ =~= spec_intersection(xs@.take(i as int).to_set(), y@));
    }
    assert(xs@.take(i as int) =~= xs@);
    r
}

/// The elements that are in exactly one of the two sets, as a new set.
pub fn symmetric_difference(x: &HashSet<i64>, y: &HashSet<i64>) -> (r: HashSet<i64>)
    ensures
        r@ == spec_symmetric_difference(x@, y@),
{
    let left = difference(x, y);
    let right = difference(y, x);
    let r = union(&left, &right);
    assert(r@ =~= spec_symmetric_difference(x@, y@));
    r
}

/// `difference_update`: takes out of `x` every element of `y`. No new set is made.
pub fn difference_update(x: &mut HashSet<i64>, y: &HashSet<i64>)
    ensures
        final(x)@ == spec_difference_update(old(x)@, y@),
{
    let ys = elements(y);
    let mut i: usize = 0;
    assert(x@ =~= old(x)@.difference(ys@.take(0).to_set()));
    while i < ys.len()
        invariant
            i <= ys@.len(),
            x@ == old(x)@.difference(ys@.take(i as int).to_set()),
        decreases ys@.len() - i,
    {
        proof {
            lemma_take_step(ys@, i as int);
        }
        x.remove(&ys[i]);
        i = i + 1;
        assert(x@ =~= old(x)@.difference(ys@.take(i as int).to_set()));
    }
    assert(ys@.take(i as int) =~= ys@);
}

/// `intersection_update`: keeps in `x` only the elements that `y` holds too.
/// No new set is made.
pub fn intersection_update(x: &mut HashSet<i64>, y: &HashSet<i64>)
    ensures
        final(x)@ == spec_intersection_update(old(x)@, y@),
{
    let xs = elements(x);
    let mut i: usize = 0;
    assert(x@ =~= old(x)@.difference(xs@.take(0).to_set().difference(y@)));
    while i < xs.len()
        invariant
            i <= xs@.len(),
            x@ == old(x)@.difference(xs@.take(i as int).to_set().difference(y@)),
        decreases xs@.len() - i,
    {
        proof {
            lemma_take_step(xs@, i as int);
        }
        if !y.contains(&xs[i]) {
            x.remove(&xs[i]);
        }
        i = i + 1;
        assert(x@ =~= old(x)@.difference(xs@.take(i as int).to_set().difference(y@)));
    }
    assert(xs@.take(i as int) =~= xs@);
    assert(x@ =~= old(x)@.intersect(y@));
}

/// `symmetric_difference_update`: leaves in `x` the elements that were in
/// exactly one of `x` and `y`. No new set is made.
pub fn symmetric_difference_update(x: &mut HashSet<i64>, y: &HashSet<i64>)
    ensures
        final(x)@ == spec_symmetric_difference_update(old(x)@, y@),
{
    let ys = elements(y);
    let mut i: usize = 0;
    assert(x@ =~= spec_symmetric_difference_update(old(x)@, ys@.take(0).to_set()));
    while i < ys.len()
        invariant
            i <= ys@.len(),
            ys@.no_duplicates(),
            x@ == spec_symmetric_difference_update(old(x)@, ys@.take(i as int).to_set()),
        decreases ys@.len() - i,
    {
        proof {
            lemma_take_step(ys@, i as int);
        }
        if x.contains(&ys[i]) {
            x.remove(&ys[i]);
        } else {
            x.insert(ys[i]);
        }
        i = i + 1;
        assert(x@ =~= spec_symmetric_difference_update(old(x)@, ys@.take(i as int).to_set()));
    }
    assert(ys@.take(i as int) =~= ys@);
}

/// Whether every element of `x` is in `y`.
pub fn is_subset(x: &HashSet<i64>, y: &HashSet<i64>) -> (b: bool)
    ensures
        b == x@.subset_of(y@),
{
    let xs = elements(x);
    let mut i: usize = 0;
    while i < xs.len()
        invariant
            i <= xs@.len(),
            xs@.to_set() == x@,
            xs@.take(i as int).to_set().subset_of(y@),
        decreases xs@.len() - i,
    {
        proof {
            lemma_take_step(xs@, i as int);
        }
        if !y.contains(&xs[i]) {
            assert(xs@.contains(xs@[i as int]));
            return false;
        }
        i = i + 1;
    }
    assert(xs@.take(i as int) =~= xs@);
    true
}

/// Whether every element of `y` is in `x`.
pub fn is_superset(x: &HashSet<i64>, y: &HashSet<i64>) -> (b: bool)
    ensures
        b == y@.subset_of(x@),
{
    is_subset(y, x)
}

/// Whether the two sets share no element.
pub fn is_disjoint(x: &HashSet<i64>, y: &HashSet<i64>) -> (b: bool)
    ensures
        b == x@.disjoint(y@),
{
    let xs = elements(x);
    let mut i: usize = 0;
    while i < xs.len()
        invariant
            i <= xs@.len(),
            xs@.to_set() == x@,
            xs@.take(i as int).to_set().disjoint(y@),
        decreases xs@.len() - i,
    {
        proof {
            lemma_take_step(xs@, i as int);
        }
        if y.contains(&xs[i]) {
            assert(xs@.contains(xs@[i as int]));
            return false;
        }
        i = i + 1;
    }
    assert(xs@.take(i as int) =~= xs@);
    true
}

/// Whether the two sets hold the same elements.
pub fn set_eq(x: &HashSet<i64>, y: &HashSet<i64>) -> (b: bool)
    ensures
        b == (x@ == y@),
{
    let b = is_subset(x, y) && is_subset(y, x);
    assert(b ==> x@ =~= y@);
    b
}

/// Adds `item` to the set and says whether it was there before, in one pass
/// over the set.
pub fn set_check_and_add(a: &mut StringHashSet, item: &str) -> (present: bool)
    ensures
        present == old(a)@.contains(item@),
        final(a)@ == old(a)@.insert(item@),
{
    !a.insert(String::from_str(item))
}

/// A fixed set of three strings.
pub fn create_static_set() -> (a: StringHashSet)
    ensures
        a@ == Set::<Seq<char>>::empty().insert("one"@).insert("two"@).insert("three"@),
{
    let mut a = StringHashSet::new();
    a.insert(String::from_str("one"));
    a.insert(String::from_str("two"));
    a.insert(String::from_str("three"));
    a
}

/// A check of the walk through the set methods.
#[derive(Clone, Copy, Debug, PartialEq, Eq, Structural)]
pub enum SetCheck {
    /// A fresh copy equals the set it was made from.
    CopyEqual,
    /// The difference of a set and its copy is empty.
    DifferenceEmpty,
    /// The emptied copy differs from the set.
    ClearedCopyDiffers,
    /// The difference, updated by the set, equals the set.
    DifferenceEqualsSource,
    /// The union of the set and the empty copy equals the copy.
    UnionEqualsCopy,
    /// The set, cut down to the intersection, differs from it.
    IntersectionDiffers,
    /// The set and the intersection share an element.
    NotDisjoint,
    /// The intersection is a subset of the set.
    IntersectionIsSubset,
    /// The set is a superset of the intersection.
    SourceIsSuperset,
}

/// Walks through the set methods on the set of the integers `0..a`, with `a`
/// added, and a set of `b` written nought to `a - 1` times, with `foo` added:
/// copy, difference, union, intersection and symmetric difference, each as a
/// new set and in place, the three comparisons of sets, and removal. Between
/// the steps it checks what should hold, and stops at the first check that
/// does not.
///
/// The difference of the set and its copy is empty and stays so when the set
/// is taken out of it, while the set holds `a`: the fourth check never holds,
/// and the walk always stops there.
pub fn set_methods(a: i64, b: &str) -> (r: Result<(), SetCheck>)
    ensures
        r == Err::<(), SetCheck>(SetCheck::DifferenceEqualsSource),
{
    let mut s_int = create_set(0, a);
    let mut s_str = StringHashSet::new();
    let mut x: i64 = 0;
    while x < a
        invariant
            0 <= x,
        decreases a - x,
    {
        let times: usize = #[verifier::truncate]
        (x as usize);
        s_str.insert(repeat(b, times));
        x = x + 1;
    }
    s_int.insert(a);
    s_str.insert(String::from_str("foo"));
    assert(s_int@.contains(a));
    // The copy is a value of its own: it shares no storage with the set.
    let mut copy_s_int = copy_set(&s_int);
    if !set_eq(&copy_s_int, &s_int) {
        return Err(SetCheck::CopyEqual);
    }
    let mut diff_s_int = difference(&s_int, &copy_s_int);
    assert(diff_s_int@ =~= Set::<i64>::empty());
    if diff_s_int.len() != 0 {
        return Err(SetCheck::DifferenceEmpty);
    }
    copy_s_int.clear();
    if set_eq(&copy_s_int, &s_int) {
        return Err(SetCheck::ClearedCopyDiffers);
    }
    difference_update(&mut diff_s_int, &s_int);
    assert(!diff_s_int@.contains(a));
    if !set_eq(&diff_s_int, &s_int) {
        return Err(SetCheck::DifferenceEqualsSource);
    }
    s_int.remove(&0);
    s_str.remove("baz");
    let union_s_int = union(&s_int, &copy_s_int);
    if !set_eq(&copy_s_int, &union_s_int) {
        return Err(SetCheck::UnionEqualsCopy);
    }
    let inter_s_int = intersection(&s_int, &copy_s_int);
    intersection_update(&mut s_int, &copy_s_int);
    intersection_update(&mut s_int, &inter_s_int);
    if set_eq(&s_int, &inter_s_int) {
        return Err(SetCheck::IntersectionDiffers);
    }
    if is_disjoint(&s_int, &inter_s_int) {
        return Err(SetCheck::NotDisjoint);
    }
    if !is_subset(&inter_s_int, &s_int) {
        return Err(SetCheck::IntersectionIsSubset);
    }
    if !is_superset(&s_int, &inter_s_int) {
        return Err(SetCheck::SourceIsSuperset);
    }
    let sd_s_int = symmetric_difference(&s_int, &copy_s_int);
    symmetric_difference_update(&mut s_int, &copy_s_int);
    symmetric_difference_update(&mut s_int, &sd_s_int);
    s_int.remove(&0);
    s_int.remove(&1);
    s_str.remove("foo");
    Ok(())
}

} // verus!
