//! Compares what scenarios gave with what they should give, and reports
//! every scenario that differs.
use crate::dict::Dict;
use vstd::prelude::*;

verus! {

/// What one scenario gave: the value returned, where there is one, and the
/// map as it was left.
pub struct Outcome {
    pub returned: Option<String>,
    pub contents: Dict<String>,
}

/// A scenario gave something else than it should: its number, and what differs.
#[derive(Clone, Copy, Debug, PartialEq, Eq, Structural)]
pub struct VerificationMismatchError {
    pub scenario: usize,
    pub returned_differs: bool,
    pub contents_differ: bool,
}

/// Two returned values are the same: both absent, or both present with the same text.
pub open spec fn spec_same_returned(a: Option<String>, b: Option<String>) -> bool {
    match (a, b) {
        (Some(x), Some(y)) => x@ == y@,
        (None, None) => true,
        _ => false,
    }
}

/// Two outcomes are the same: the same returned value and the same entries,
/// in whatever order.
pub open spec fn spec_same_outcome(a: Outcome, b: Outcome) -> bool {
    spec_same_returned(a.returned, b.returned) && a.contents.text() == b.contents.text()
}

/// `r` reports exactly the scenarios whose outcomes differ, in rising order,
/// each with what differs.
pub open spec fn spec_is_report(
    expected: Seq<Outcome>,
    actual: Seq<Outcome>,
    r: Seq<VerificationMismatchError>,
) -> bool {
    &&& forall|k: int|
        0 <= k < r.len() ==> {
            let i = (#[trigger] r[k]).scenario as int;
            &&& 0 <= i < expected.len()
            &&& r[k].returned_differs == !spec_same_returned(expected[i].returned, actual[i].returned)
            &&& r[k].contents_differ == (expected[i].contents.text() != actual[i].contents.text())
            &&& !spec_same_outcome(expected[i], actual[i])
        }
    &&& forall|k: int, l: int| 0 <= k < l < r.len() ==> r[k].scenario < r[l].scenario
    &&& forall|i: int|
        0 <= i < expected.len() && !spec_same_outcome(#[trigger] expected[i], actual[i]) ==> exists|
            k: int,
        |
            0 <= k < r.len() && r[k].scenario == i
}

/// Whether two returned values are the same.
pub fn same_returned(a: &Option<String>, b: &Option<String>) -> (r: bool)
    ensures
        r == spec_same_returned(*a, *b),
{
    match a {
        Some(x) => match b {
            Some(y) => *x == *y,
            None => false,
        },
        None => match b {
            Some(_) => false,
            None => true,
        },
    }
}

/// Compares the outcome of one scenario with what it should be.
pub fn compare_outcome(expected: &Outcome, actual: &Outcome, scenario: usize) -> (r: Option<
    VerificationMismatchError,
>)
    requires
        expected.contents.wf(),
        actual.contents.wf(),
    ensures
        r is None <==> spec_same_outcome(*expected, *actual),
        r matches Some(e) ==> e.scenario == scenario && e.returned_differs == !spec_same_returned(
            expected.returned,
            actual.returned,
        ) && e.contents_differ == (expected.contents.text() != actual.contents.text()),
{
    let returned_differs = !same_returned(&expected.returned, &actual.returned);
    let contents_differ = !expected.contents.same_entries(&actual.contents);
    if returned_differs || contents_differ {
        Some(VerificationMismatchError { scenario, returned_differs, contents_differ })
    } else {
        None
    }
}

/// Compares the outcomes of all scenarios, each for itself: a scenario that
/// differs is reported and the others are still compared.
pub fn verify_scenarios(expected: &Vec<Outcome>, actual: &Vec<Outcome>) -> (r: Vec<
    VerificationMismatchError,
>)
    requires
        expected@.len() == actual@.len(),
        forall|i: int| 0 <= i < expected@.len() ==> (#[trigger] expected@[i]).contents.wf(),
        forall|i: int| 0 <= i < actual@.len() ==> (#[trigger] actual@[i]).contents.wf(),
    ensures
        spec_is_report(expected@, actual@, r@),
{
    let mut r: Vec<VerificationMismatchError> = Vec::new();
    let mut i: usize = 0;
    while i < expected.len()
        invariant
            i <= expected@.len(),
            expected@.len() == actual@.len(),
            forall|i: int| 0 <= i < expected@.len() ==> (#[trigger] expected@[i]).contents.wf(),
            forall|i: int| 0 <= i < actual@.len() ==> (#[trigger] actual@[i]).contents.wf(),
            spec_is_report(expected@.take(i as int), actual@.take(i as int), r@),
            forall|k: int| 0 <= k < r@.len() ==> (#[trigger] r@[k]).scenario < i,
        decreases expected@.len() - i,
    {
        let ghost before = r@;
        let found = compare_outcome(&expected[i], &actual[i], i);
        match found {
            Some(e) => {
                r.push(e);
                assert(r@[before.len() as int].scenario == i);
            },
            None => {},
        }
        proof {
            let e0 = expected@.take(i as int);
            let a0 = actual@.take(i as int);
            let e1 = expected@.take(i + 1);
            let a1 = actual@.take(i + 1);
            assert forall|k: int| 0 <= k < r@.len() implies {
                let s = (#[trigger] r@[k]).scenario as int;
                &&& 0 <= s < e1.len()
                &&& r@[k].returned_differs == !spec_same_returned(e1[s].returned, a1[s].returned)
                &&& r@[k].contents_differ == (e1[s].contents.text() != a1[s].contents.text())
                &&& !spec_same_outcome(e1[s], a1[s])
            } by {
                if k < before.len() {
                    assert(r@[k] == before[k]);
                    let s = before[k].scenario as int;
                    assert(e0[s] == e1[s] && a0[s] == a1[s]);
                }
            }
            assert forall|s: int|
                0 <= s < e1.len() && !spec_same_outcome(#[trigger] e1[s], a1[s]) implies exists|
                k: int,
            |
                0 <= k < r@.len() && r@[k].scenario == s by {
                if s < i {
                    assert(e0[s] == e1[s] && a0[s] == a1[s]);
                    let k = choose|k: int| 0 <= k < before.len() && before[k].scenario == s;
                    assert(r@[k] == before[k]);
                } else {
                    assert(r@[before.len() as int].scenario == s);
                }
            }
            assert forall|k: int, l: int| 0 <= k < l < r@.len() implies r@[k].scenario
                < r@[l].scenario by {
                if l < before.len() {
                    assert(r@[k] == before[k] && r@[l] == before[l]);
                } else {
                    assert(r@[k] == before[k]);
                }
            }
        }
        i = i + 1;
    }
    assert(expected@.take(i as int) =~= expected@);
    assert(actual@.take(i as int) =~= actual@);
    r
}

} // verus!
