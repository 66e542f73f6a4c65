//! Building, reading and extending string-keyed maps, and a walk through the
//! map methods that have no single counterpart: lookup with a default,
//! removal with a default, lookup-or-insert and removal of some entry.
use crate::dict::{from_pairs, pair_texts, texts, Dict};
use crate::lists::spec_zip;
use vstd::prelude::*;
use vstd::string::StringExecFns;

verus! {

/// The values that `m` holds for the keys of `keys`, in the order of `keys`;
/// a key without an entry contributes nothing.
pub open spec fn spec_access(keys: Seq<Seq<char>>, m: Map<Seq<char>, Seq<char>>) -> Seq<Seq<char>>
    decreases keys.len(),
{
    if keys.len() == 0 {
        Seq::empty()
    } else if m.contains_key(keys.last()) {
        spec_access(keys.drop_last(), m).push(m[keys.last()])
    } else {
        spec_access(keys.drop_last(), m)
    }
}

/// The line that shows one entry: key, a colon between blanks, value.
pub open spec fn spec_entry_line(k: Seq<char>, v: Seq<char>) -> Seq<char> {
    k + " "@ + ": "@ + " "@ + v
}

/// The map that binds each key to the value at the same position. Where a key
/// occurs more than once, its last value stays.
pub fn create_dict(keys: &[String], values: &[String]) -> (d: Dict<String>)
    ensures
        d.wf(),
        d.text() == from_pairs(spec_zip(texts(keys@), texts(values@))),
{
    let ghost pairs = spec_zip(texts(keys@), texts(values@));
    let n = if keys.len() <= values.len() {
        keys.len()
    } else {
        values.len()
    };
    let mut d: Dict<String> = Dict::new();
    let mut i: usize = 0;
    assert(d.text() =~= from_pairs(pairs.take(0)));
    while i < n
        invariant
            d.wf(),
            i <= n,
            n == pairs.len(),
            n <= keys@.len(),
            n <= values@.len(),
            pairs == spec_zip(texts(keys@), texts(values@)),
            d.text() == from_pairs(pairs.take(i as int)),
        decreases n - i,
    {
        proof {
            let next = pairs.take(i + 1);
            assert(next.drop_last() =~= pairs.take(i as int));
            assert(next.last() == (keys@[i as int]@, values@[i as int]@));
        }
        d.insert_text(keys[i].as_str(), values[i].as_str());
        i = i + 1;
    }
    assert(pairs.take(n as int) =~= pairs);
    d
}

/// Looks each key up in turn and collects the values found. The result
/// follows the order of `keys`; a key that the map lacks is passed over.
pub fn access_dict(keys: &[String], dictionary: Dict<String>) -> (result: Vec<String>)
    requires
        dictionary.wf(),
    ensures
        texts(result@) == spec_access(texts(keys@), dictionary.text()),
{
    let mut result: Vec<String> = Vec::new();
    let mut i: usize = 0;
    assert(texts(keys@).take(0) =~= Seq::<Seq<char>>::empty());
    assert(texts(result@) =~= Seq::<Seq<char>>::empty());
    while i < keys.len()
        invariant
            dictionary.wf(),
            i <= keys@.len(),
            texts(result@) == spec_access(texts(keys@).take(i as int), dictionary.text()),
        decreases keys@.len() - i,
    {
        let ghost before = texts(result@);
        proof {
            let next = texts(keys@).take(i + 1);
            assert(next.drop_last() =~= texts(keys@).take(i as int));
            assert(next.last() == keys@[i as int]@);
        }
        match dictionary.get(keys[i].as_str()) {
            Some(v) => {
                result.push(v.clone());
                assert(texts(result@) =~= before.push(dictionary.text()[keys@[i as int]@]));
            },
            None => {},
        }
        i = i + 1;
    }
    assert(texts(keys@).take(i as int) =~= texts(keys@));
    result
}

/// Binds `key` to `value`, replacing the value of an entry that is already there.
pub fn extend_dict(key: &str, value: &str, dictionary: &mut Dict<String>)
    requires
        old(dictionary).wf(),
    ensures
        final(dictionary).wf(),
        final(dictionary).text() == old(dictionary).text().insert(key@, value@),
{
    dictionary.insert_text(key, value);
}

/// A fixed map of three entries.
pub fn static_dict() -> (d: Dict<i64>)
    ensures
        d.wf(),
        d@ == Map::<Seq<char>, i64>::empty().insert("foo"@, 1i64).insert("bar"@, 2i64).insert(
            "wombat"@,
            3i64,
        ),
{
    let mut d: Dict<i64> = Dict::new();
    d.insert("foo", 1);
    d.insert("bar", 2);
    d.insert("wombat", 3);
    d
}

/// The line that shows one entry.
pub fn entry_line(k: &str, v: &str) -> (line: String)
    ensures
        line@ == spec_entry_line(k@, v@),
{
    String::from_str(k).concat(" ").concat(": ").concat(" ").concat(v)
}

/// Walks through the map methods on `dictionary`.
///
/// The map is emptied and left with the single entry `foo`, bound to the value
/// it had for `foo` before, or to `bar` where it had none. A copy of it is
/// then taken through removal with a default, `update`, lookup-or-insert and
/// removal of some entry. The lines that show the entries of `dictionary`
/// after the first step are returned.
///
/// The walk relies on `foo` ending up bound to `bar`, so a map that binds
/// `foo` to anything else is not accepted.
pub fn dict_methods(dictionary: &mut Dict<String>) -> (printed: Vec<String>)
    requires
        old(dictionary).wf(),
        old(dictionary).text().contains_key("foo"@) ==> old(dictionary).text()["foo"@] == "bar"@,
    ensures
        final(dictionary).wf(),
        final(dictionary).text() == Map::<Seq<char>, Seq<char>>::empty().insert("foo"@, "bar"@),
        texts(printed@) == seq![spec_entry_line("foo"@, "bar"@)],
{
    let foobar = dictionary.get_or("foo", "bar");
    dictionary.clear();
    assert(dictionary.text() =~= Map::<Seq<char>, Seq<char>>::empty());
    dictionary.insert_text("foo", foobar.as_str());
    let ghost single = Map::<Seq<char>, Seq<char>>::empty().insert("foo"@, "bar"@);
    assert(dictionary.text() == single);

    let snapshot = dictionary.items();
    proof {
        dictionary.lemma_finite();
        assert(dictionary@.dom() =~= dictionary.text().dom());
        assert(single.dom() =~= set!["foo"@]);
        assert(snapshot@.len() == 1);
        assert(single.contains_pair(pair_texts(snapshot@)[0].0, pair_texts(snapshot@)[0].1));
    }
    let mut printed: Vec<String> = Vec::new();
    let mut i: usize = 0;
    while i < snapshot.len()
        invariant
            i <= snapshot@.len(),
            printed@.len() == i,
            forall|j: int| 0 <= j < i ==> printed@[j]@ == spec_entry_line(snapshot@[j].0@, snapshot@[j].1@),
        decreases snapshot@.len() - i,
    {
        printed.push(entry_line(snapshot[i].0.as_str(), snapshot[i].1.as_str()));
        i = i + 1;
    }
    assert(texts(printed@) =~= seq![spec_entry_line("foo"@, "bar"@)]);

    let mut d = dictionary.copy();
    assert(d@.dom() =~= d.text().dom());
    assert(d.text()["foo"@] == "bar"@);
    let mut bar = d.pop("foo", String::from_str("bar"));
    assert(!d@.contains_key("foo"@));
    assert(bar@ == "bar"@);
    assert(d@ =~= Map::<Seq<char>, String>::empty());
    assert(d.text() =~= Map::<Seq<char>, Seq<char>>::empty());
    d.update(dictionary);
    assert(d.text() =~= single);
    assert(d@.dom() =~= d.text().dom());
    d.remove("foo");
    let l = d.len();
    assert(d@ =~= Map::<Seq<char>, String>::empty());
    assert(d.text() =~= Map::<Seq<char>, Seq<char>>::empty());
    assert(l == 0);
    bar = d.setdefault("foo", "bar");
    assert(bar@ == "bar"@);
    assert(d.text() == single);
    proof {
        d.lemma_finite();
        assert(d@.dom() =~= d.text().dom());
        assert(d@.len() == 1);
    }
    let last = d.popitem();
    assert(last is Some);
    let (k, v) = last.unwrap();
    assert(k@ == "foo"@ && v@ == "bar"@);
    printed
}

} // verus!
