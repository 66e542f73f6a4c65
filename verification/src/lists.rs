//! Lists of integers and of strings: building, pairing, searching, and a walk
//! through the list methods.
use crate::dict::texts;
use vstd::prelude::*;
use vstd::string::StringExecFns;

verus! {

broadcast use vstd::seq_lib::group_seq_properties;

/// The pairs made of the elements of `a` and `b` at the same position, as far
/// as the shorter of the two reaches.
pub open spec fn spec_zip<A, B>(a: Seq<A>, b: Seq<B>) -> Seq<(A, B)> {
    Seq::new(
        if a.len() <= b.len() {
            a.len()
        } else {
            b.len()
        },
        |i: int| (a[i], b[i]),
    )
}

/// The squares of the integers in `a..b`, in rising order of their roots.
pub open spec fn spec_squares(a: int, b: int) -> Seq<int> {
    Seq::new(
        if a < b {
            (b - a) as nat
        } else {
            0
        },
        |i: int| (a + i) * (a + i),
    )
}

/// The sum of the elements of a list.
pub open spec fn spec_sum(s: Seq<i64>) -> int
    decreases s.len(),
{
    if s.len() == 0 {
        0
    } else {
        spec_sum(s.drop_last()) + s.last()
    }
}

/// `s` written `n` times in a row.
pub open spec fn spec_repeat(s: Seq<char>, n: nat) -> Seq<char>
    decreases n,
{
    if n == 0 {
        Seq::empty()
    } else {
        spec_repeat(s, (n - 1) as nat) + s
    }
}

/// How often `x` occurs in `s`.
pub open spec fn spec_count(s: Seq<Seq<char>>, x: Seq<char>) -> nat
    decreases s.len(),
{
    if s.len() == 0 {
        0
    } else {
        spec_count(s.drop_last(), x) + if s.last() == x {
            1nat
        } else {
            0nat
        }
    }
}

/// Whether `a` comes before `b`, or is `b`, in the order of a dictionary
/// whose letters are ordered by their code points.
pub open spec fn spec_str_le(a: Seq<char>, b: Seq<char>) -> bool
    decreases a.len(),
{
    if a.len() == 0 {
        true
    } else if b.len() == 0 {
        false
    } else if a[0] != b[0] {
        (a[0] as u32) < (b[0] as u32)
    } else {
        spec_str_le(a.drop_first(), b.drop_first())
    }
}

/// The squares of the integers in `a..b`.
pub fn create_list(a: i64, b: i64) -> (r: Vec<i64>)
    requires
        forall|x: int| a <= x < b ==> #[trigger] (x * x) <= i64::MAX,
    ensures
        r@.map_values(|x: i64| x as int) == spec_squares(a as int, b as int),
{
    let mut r: Vec<i64> = Vec::new();
    let mut x: i64 = a;
    while x < b
        invariant
            a <= x <= b || (b < a && x == a),
            forall|y: int| a <= y < b ==> #[trigger] (y * y) <= i64::MAX,
            r@.len() == x - a,
            forall|i: int| 0 <= i < r@.len() ==> r@[i] == (a + i) * (a + i),
        decreases b - x,
    {
        assert(x * x <= i64::MAX);
        assert(x * x >= 0) by (nonlinear_arith);
        r.push(x * x);
        x = x + 1;
    }
    assert(r@.map_values(|x: i64| x as int) =~= spec_squares(a as int, b as int));
    r
}

/// Pairs the elements of two lists, as far as the shorter reaches.
pub fn process_list(a: &[i64], b: &[i64]) -> (r: Vec<(i64, i64)>)
    ensures
        r@ == spec_zip(a@, b@),
{
    let n = if a.len() <= b.len() {
        a.len()
    } else {
        b.len()
    };
    let mut r: Vec<(i64, i64)> = Vec::new();
    let mut i: usize = 0;
    while i < n
        invariant
            i <= n,
            n <= a@.len(),
            n <= b@.len(),
            r@.len() == i,
            forall|j: int| 0 <= j < i ==> r@[j] == (a@[j], b@[j]),
        decreases n - i,
    {
        r.push((a[i], b[i]));
        i = i + 1;
    }
    assert(r@ =~= spec_zip(a@, b@));
    r
}

/// The place of the first `x` in `v`.
pub fn position(v: &Vec<i64>, x: i64) -> (r: Option<usize>)
    ensures
        match r {
            Some(i) => i < v@.len() && v@[i as int] == x && forall|j: int| 0 <= j < i ==> v@[j] != x,
            None => !v@.contains(x),
        },
{
    let mut i: usize = 0;
    while i < v.len()
        invariant
            i <= v@.len(),
            forall|j: int| 0 <= j < i ==> v@[j] != x,
        decreases v@.len() - i,
    {
        if v[i] == x {
            return Some(i);
        }
        i = i + 1;
    }
    None
}

/// The place of the first string of `v` with the text of `x`.
pub fn position_str(v: &Vec<String>, x: &str) -> (r: Option<usize>)
    ensures
        match r {
            Some(i) => i < v@.len() && v@[i as int]@ == x@ && forall|j: int|
                0 <= j < i ==> v@[j]@ != x@,
            None => forall|j: int| 0 <= j < v@.len() ==> v@[j]@ != x@,
        },
{
    let needle = String::from_str(x);
    let mut i: usize = 0;
    while i < v.len()
        invariant
            i <= v@.len(),
            needle@ == x@,
            forall|j: int| 0 <= j < i ==> v@[j]@ != x@,
        decreases v@.len() - i,
    {
        if v[i] == needle {
            return Some(i);
        }
        i = i + 1;
    }
    None
}

/// How many strings of `v` have the text of `x`.
pub fn count_str(v: &Vec<String>, x: &str) -> (n: usize)
    ensures
        n == spec_count(texts(v@), x@),
{
    let needle = String::from_str(x);
    let mut n: usize = 0;
    let mut i: usize = 0;
    assert(texts(v@).take(0) =~= Seq::<Seq<char>>::empty());
    while i < v.len()
        invariant
            i <= v@.len(),
            needle@ == x@,
            n <= i,
            n == spec_count(texts(v@).take(i as int), x@),
        decreases v@.len() - i,
    {
        proof {
            let next = texts(v@).take(i + 1);
            assert(next.drop_last() =~= texts(v@).take(i as int));
            assert(next.last() == v@[i as int]@);
        }
        if v[i] == needle {
            n = n + 1;
        }
        i = i + 1;
    }
    assert(texts(v@).take(i as int) =~= texts(v@));
    n
}

/// Whether `a` is one of the first four odd numbers.
pub fn static_lists(a: i64) -> (r: bool)
    ensures
        r == (a == 1 || a == 3 || a == 5 || a == 7),
{
    let mut odd: Vec<i64> = Vec::new();
    odd.push(1);
    odd.push(3);
    odd.push(5);
    odd.push(7);
    let found = position(&odd, a);
    proof {
        if a == 1 {
            assert(odd@[0] == a);
        }
        if a == 3 {
            assert(odd@[1] == a);
        }
        if a == 5 {
            assert(odd@[2] == a);
        }
        if a == 7 {
            assert(odd@[3] == a);
        }
    }
    found.is_some()
}

/// `s` written `n` times in a row.
pub fn repeat(s: &str, n: usize) -> (r: String)
    ensures
        r@ == spec_repeat(s@, n as nat),
{
    let mut r = String::new();
    let mut i: usize = 0;
    while i < n
        invariant
            i <= n,
            r@ == spec_repeat(s@, i as nat),
        decreases n - i,
    {
        r.append(s);
        i = i + 1;
    }
    r
}

/// The sum of the elements of a list.
pub fn sum(v: &Vec<i64>) -> (total: i64)
    requires
        forall|k: int| 0 <= k <= v@.len() ==> i64::MIN <= #[trigger] spec_sum(v@.take(k)) <= i64::MAX,
    ensures
        total == spec_sum(v@),
{
    let mut total: i64 = 0;
    let mut i: usize = 0;
    assert(v@.take(0) =~= Seq::<i64>::empty());
    while i < v.len()
        invariant
            i <= v@.len(),
            total == spec_sum(v@.take(i as int)),
            forall|k: int|
                0 <= k <= v@.len() ==> i64::MIN <= #[trigger] spec_sum(v@.take(k)) <= i64::MAX,
        decreases v@.len() - i,
    {
        proof {
            let next = v@.take(i + 1);
            assert(next.drop_last() =~= v@.take(i as int));
            assert(next.last() == v@[i as int]);
            assert(spec_sum(next) == spec_sum(v@.take(i as int)) + v@[i as int]);
        }
        total = total + v[i];
        i = i + 1;
    }
    assert(v@.take(i as int) =~= v@);
    total
}

/// The least element of a list, where it has one.
pub fn min(v: &Vec<i64>) -> (r: Option<i64>)
    ensures
        v@.len() == 0 <==> r is None,
        r matches Some(m) ==> v@.contains(m) && forall|j: int| 0 <= j < v@.len() ==> m <= v@[j],
{
    if v.len() == 0 {
        return None;
    }
    let mut m: i64 = v[0];
    let mut i: usize = 1;
    while i < v.len()
        invariant
            1 <= i <= v@.len(),
            v@.contains(m),
            forall|j: int| 0 <= j < i ==> m <= v@[j],
        decreases v@.len() - i,
    {
        if v[i] < m {
            m = v[i];
        }
        i = i + 1;
    }
    Some(m)
}

/// The greatest element of a list, where it has one.
pub fn max(v: &Vec<i64>) -> (r: Option<i64>)
    ensures
        v@.len() == 0 <==> r is None,
        r matches Some(m) ==> v@.contains(m) && forall|j: int| 0 <= j < v@.len() ==> m >= v@[j],
{
    if v.len() == 0 {
        return None;
    }
    let mut m: i64 = v[0];
    let mut i: usize = 1;
    while i < v.len()
        invariant
            1 <= i <= v@.len(),
            v@.contains(m),
            forall|j: int| 0 <= j < i ==> m >= v@[j],
        decreases v@.len() - i,
    {
        if v[i] > m {
            m = v[i];
        }
        i = i + 1;
    }
    Some(m)
}

/// Turns a list round in place.
pub fn reverse(v: &mut Vec<i64>)
    ensures
        final(v)@ == old(v)@.reverse(),
{
    let n = v.len();
    let mut i: usize = 0;
    while i < n / 2
        invariant
            n == v@.len(),
            n == old(v)@.len(),
            i <= n / 2,
            forall|j: int| 0 <= j < i ==> v@[j] == old(v)@[n - 1 - j],
            forall|j: int| 0 <= j < i ==> v@[n - 1 - j] == old(v)@[j],
            forall|j: int| i <= j < n - i ==> v@[j] == old(v)@[j],
        decreases n / 2 - i,
    {
        let x = v[i];
        let y = v[n - 1 - i];
        v.set(i, y);
        v.set(n - 1 - i, x);
        i = i + 1;
    }
    assert(v@ =~= old(v)@.reverse());
}

/// `sort` of the standard library on a list of strings: the list is
/// rearranged, nothing added and nothing lost, so that each string comes
/// before or equals the next in dictionary order of the code points.
#[verifier::external_body]
fn sort_strings(v: &mut Vec<String>)
    ensures
        final(v)@.len() == old(v)@.len(),
        texts(final(v)@).to_multiset() == texts(old(v)@).to_multiset(),
        forall|i: int, j: int|
            0 <= i < j < final(v)@.len() ==> spec_str_le(
                #[trigger] final(v)@[i]@,
                #[trigger] final(v)@[j]@,
            ),
{
    v.sort();
}

/// Sorts a list of strings in place, into dictionary order of the code points.
pub fn sort(v: &mut Vec<String>)
    ensures
        final(v)@.len() == old(v)@.len(),
        texts(final(v)@).to_multiset() == texts(old(v)@).to_multiset(),
        forall|i: int, j: int|
            0 <= i < j < final(v)@.len() ==> spec_str_le(
                #[trigger] final(v)@[i]@,
                #[trigger] final(v)@[j]@,
            ),
{
    sort_strings(v);
}

/// A check of the walk through the list methods.
#[derive(Clone, Copy, Debug, PartialEq, Eq, Structural)]
pub enum ListCheck {
    /// The list of strings is long enough to take an element at its third place.
    InsertPosition,
    /// The integers add up to more than nothing.
    SumPositive,
    /// `foo` is among the strings.
    CountsFoo,
    /// The first `a` among the integers stands no earlier than the first `b`
    /// among the strings.
    FirstOccurrences,
    /// The least integer is no greater than the greatest.
    MinBelowMax,
    /// The integer taken from the end of the reversed list is not `a`.
    PoppedInteger,
    /// The string taken from the end of the sorted list is not `b`.
    PoppedString,
}

/// The integers of the walk: `a`, then `0..a`, then `a`, `a` and `a + 1`.
pub open spec fn spec_walk_ints(a: i64) -> Seq<i64> {
    Seq::new(
        (a + 4) as nat,
        |i: int|
            if i == 0 {
                a
            } else if i <= a {
                (i - 1) as i64
            } else if i <= a + 2 {
                a
            } else {
                (a + 1) as i64
            },
    )
}

proof fn lemma_sum_nonneg(s: Seq<i64>)
    requires
        forall|i: int| 0 <= i < s.len() ==> s[i] >= 0,
    ensures
        spec_sum(s) >= 0,
    decreases s.len(),
{
    if s.len() > 0 {
        lemma_sum_nonneg(s.drop_last());
    }
}

proof fn lemma_sum_monotone(s: Seq<i64>, k: int)
    requires
        forall|i: int| 0 <= i < s.len() ==> s[i] >= 0,
        0 <= k <= s.len(),
    ensures
        0 <= spec_sum(s.take(k)) <= spec_sum(s),
    decreases s.len(),
{
    if k == s.len() {
        assert(s.take(k) =~= s);
        lemma_sum_nonneg(s);
    } else {
        assert(s.take(k) =~= s.drop_last().take(k));
        lemma_sum_monotone(s.drop_last(), k);
    }
}

proof fn lemma_count_positive(s: Seq<Seq<char>>, x: Seq<char>, i: int)
    requires
        0 <= i < s.len(),
        s[i] == x,
    ensures
        spec_count(s, x) > 0,
    decreases s.len(),
{
    if i < s.len() - 1 {
        lemma_count_positive(s.drop_last(), x, i);
    }
}

/// Walks through the list methods on a list of the integers `0..a` and a
/// list of `b` written nought to `a - 1` times: append, insert, extend, sum,
/// count, search, least and greatest, reverse, sort, removal from the end and
/// from a place. Between the steps it checks what should hold, and stops at
/// the first check that does not.
///
/// With `a` below one the list of strings is too short for the insertion.
/// Otherwise the first `b` stands after the first `a` unless `b` is empty,
/// and with an empty `b` the integer taken from the end of the reversed list
/// is `a` itself. So the walk never reaches its end.
pub fn list_methods(a: i64, b: &str) -> (r: Result<(), ListCheck>)
    requires
        a >= 1 ==> a < i64::MAX && spec_sum(spec_walk_ints(a)) <= i64::MAX,
    ensures
        r == Err::<(), ListCheck>(
            if a < 1 {
                ListCheck::InsertPosition
            } else if b@.len() != 0 {
                ListCheck::FirstOccurrences
            } else {
                ListCheck::PoppedInteger
            },
        ),
{
    let mut l_int: Vec<i64> = Vec::new();
    let mut l_str: Vec<String> = Vec::new();
    let mut x: i64 = 0;
    while x < a
        invariant
            0 <= x,
            x <= a || a < 0,
            a <= 0 ==> x == 0,
            l_int@.len() == x,
            l_str@.len() == x,
            forall|i: int| 0 <= i < x ==> l_int@[i] == i,
            x >= 1 ==> l_str@[0]@ == spec_repeat(b@, 0),
        decreases a - x,
    {
        l_int.push(x);
        let times: usize = #[verifier::truncate]
        (x as usize);
        l_str.push(repeat(b, times));
        x = x + 1;
    }
    l_int.push(a);
    l_str.push(String::from_str("foo"));
    let ghost foo_at: int = if a >= 2 {
        a + 1
    } else {
        l_str@.len() - 1
    };
    l_int.insert(0, a);
    if l_str.len() < 2 {
        return Err(ListCheck::InsertPosition);
    }
    assert(a >= 1 && x == a);
    let ghost ints_before = l_int@;
    let ghost strs_before = l_str@;
    assert(strs_before[a as int]@ == "foo"@);
    l_str.insert(2, String::from_str(b));
    assert(l_str@[foo_at] == strs_before[a as int]);
    l_int.push(a);
    l_int.push(a + 1);
    l_str.push(String::from_str(b));
    assert forall|i: int| 0 <= i < l_int@.len() implies l_int@[i] == spec_walk_ints(a)[i] by {
        if 1 <= i <= a {
            assert(l_int@[i] == ints_before[i]);
        }
    }
    assert(l_int@ =~= spec_walk_ints(a));
    assert(l_str@[foo_at]@ == "foo"@);
    assert(l_str@[2]@ == b@);
    assert(l_str@[0]@ == Seq::<char>::empty());

    proof {
        assert forall|k: int| 0 <= k <= l_int@.len() implies i64::MIN <= #[trigger] spec_sum(
            l_int@.take(k),
        ) <= i64::MAX by {
            lemma_sum_monotone(l_int@, k);
        }
        lemma_sum_monotone(l_int@, 1);
        assert(l_int@.take(1).drop_last() =~= Seq::<i64>::empty());
        assert(spec_sum(l_int@.take(1)) == spec_sum(l_int@.take(1).drop_last()) + l_int@.take(
            1,
        ).last());
    }
    if !(sum(&l_int) > 0) {
        return Err(ListCheck::SumPositive);
    }
    proof {
        lemma_count_positive(texts(l_str@), "foo"@, foo_at);
    }
    if !(count_str(&l_str, "foo") > 0) {
        return Err(ListCheck::CountsFoo);
    }
    assert(l_int@.contains(l_int@[0]));
    let i = position(&l_int, a).unwrap();
    let j = position_str(&l_str, b).unwrap();
    if !(i >= j) {
        return Err(ListCheck::FirstOccurrences);
    }
    assert(b@ =~= Seq::<char>::empty());
    let least = min(&l_int).unwrap();
    let greatest = max(&l_int).unwrap();
    assert(least <= l_int@[0] <= greatest);
    if !(least <= greatest) {
        return Err(ListCheck::MinBelowMax);
    }
    reverse(&mut l_int);
    sort(&mut l_str);
    let x_int = l_int.pop().unwrap();
    let x_str = l_str.pop().unwrap();
    if !(x_int != a) {
        return Err(ListCheck::PoppedInteger);
    }
    if !(x_str != String::from_str(b)) {
        return Err(ListCheck::PoppedString);
    }
    l_int.remove(0);
    l_str.remove(1);
    Ok(())
}

} // verus!
