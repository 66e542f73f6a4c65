//! An associative map keyed by strings, held as two parallel vectors in which
//! no key occurs twice. Its view is a mathematical map from key text to value.
use vstd::prelude::*;
use vstd::string::StringExecFns;

verus! {

broadcast use vstd::seq_lib::group_seq_properties;

/// The map that pairs each key of `ks` with the value at the same position of `vs`.
pub open spec fn assoc_map<T>(ks: Seq<Seq<char>>, vs: Seq<T>) -> Map<Seq<char>, T> {
    Map::new(|k: Seq<char>| ks.contains(k), |k: Seq<char>| vs[ks.index_of(k)])
}

/// The text of each string of a sequence.
pub open spec fn texts(v: Seq<String>) -> Seq<Seq<char>> {
    Seq::new(v.len(), |i: int| v[i]@)
}

proof fn lemma_assoc_at<T>(ks: Seq<Seq<char>>, vs: Seq<T>, i: int)
    requires
        ks.no_duplicates(),
        ks.len() == vs.len(),
        0 <= i < ks.len(),
    ensures
        ks.index_of(ks[i]) == i,
        assoc_map(ks, vs).contains_key(ks[i]),
        assoc_map(ks, vs)[ks[i]] == vs[i],
{
    assert(ks.contains(ks[i]));
    let j = ks.index_of(ks[i]);
    assert(0 <= j < ks.len() && ks[j] == ks[i]);
}

proof fn lemma_assoc_push<T>(ks: Seq<Seq<char>>, vs: Seq<T>, k: Seq<char>, v: T)
    requires
        ks.no_duplicates(),
        ks.len() == vs.len(),
        !ks.contains(k),
    ensures
        ks.push(k).no_duplicates(),
        assoc_map(ks.push(k), vs.push(v)) == assoc_map(ks, vs).insert(k, v),
{
    let ks2 = ks.push(k);
    let vs2 = vs.push(v);
    assert forall|i: int, j: int| 0 <= i < ks2.len() && 0 <= j < ks2.len() && i != j implies ks2[i]
        != ks2[j] by {
        if i < ks.len() {
            assert(ks.contains(ks[i]));
        }
        if j < ks.len() {
            assert(ks.contains(ks[j]));
        }
    }
    assert forall|q: Seq<char>| #[trigger] ks2.contains(q) <==> (ks.contains(q) || q == k) by {
        if ks.contains(q) {
            let i = ks.index_of(q);
            assert(ks2[i] == q);
        }
        if q == k {
            assert(ks2[ks.len() as int] == q);
        }
    }
    assert forall|q: Seq<char>| ks2.contains(q) implies #[trigger] assoc_map(ks2, vs2)[q]
        == assoc_map(ks, vs).insert(k, v)[q] by {
        let i = ks2.index_of(q);
        lemma_assoc_at(ks2, vs2, i);
        if i < ks.len() {
            lemma_assoc_at(ks, vs, i);
        }
    }
    assert(assoc_map(ks2, vs2) =~= assoc_map(ks, vs).insert(k, v));
}

proof fn lemma_assoc_update<T>(ks: Seq<Seq<char>>, vs: Seq<T>, i: int, v: T)
    requires
        ks.no_duplicates(),
        ks.len() == vs.len(),
        0 <= i < ks.len(),
    ensures
        assoc_map(ks, vs.update(i, v)) == assoc_map(ks, vs).insert(ks[i], v),
{
    let vs2 = vs.update(i, v);
    lemma_assoc_at(ks, vs, i);
    assert forall|q: Seq<char>| ks.contains(q) implies #[trigger] assoc_map(ks, vs2)[q]
        == assoc_map(ks, vs).insert(ks[i], v)[q] by {
        let j = ks.index_of(q);
        lemma_assoc_at(ks, vs, j);
    }
    assert(assoc_map(ks, vs2) =~= assoc_map(ks, vs).insert(ks[i], v));
}

proof fn lemma_assoc_remove<T>(ks: Seq<Seq<char>>, vs: Seq<T>, i: int)
    requires
        ks.no_duplicates(),
        ks.len() == vs.len(),
        0 <= i < ks.len(),
    ensures
        ks.remove(i).no_duplicates(),
        assoc_map(ks.remove(i), vs.remove(i)) == assoc_map(ks, vs).remove(ks[i]),
{
    let ks2 = ks.remove(i);
    let vs2 = vs.remove(i);
    assert forall|a: int, b: int| 0 <= a < ks2.len() && 0 <= b < ks2.len() && a != b implies ks2[a]
        != ks2[b] by {
        let a1 = if a < i { a } else { a + 1 };
        let b1 = if b < i { b } else { b + 1 };
        assert(ks2[a] == ks[a1] && ks2[b] == ks[b1]);
    }
    assert forall|q: Seq<char>| #[trigger] ks2.contains(q) <==> (ks.contains(q) && q != ks[i]) by {
        if ks2.contains(q) {
            let a = ks2.index_of(q);
            let a1 = if a < i { a } else { a + 1 };
            assert(ks[a1] == q);
        }
        if ks.contains(q) && q != ks[i] {
            let j = ks.index_of(q);
            let j2 = if j < i { j } else { j - 1 };
            assert(ks2[j2] == q);
        }
    }
    assert forall|q: Seq<char>| ks2.contains(q) implies #[trigger] assoc_map(ks2, vs2)[q]
        == assoc_map(ks, vs)[q] by {
        let a = ks2.index_of(q);
        let a1 = if a < i { a } else { a + 1 };
        lemma_assoc_at(ks2, vs2, a);
        lemma_assoc_at(ks, vs, a1);
    }
    assert(assoc_map(ks2, vs2) =~= assoc_map(ks, vs).remove(ks[i]));
}

proof fn lemma_assoc_len<T>(ks: Seq<Seq<char>>, vs: Seq<T>)
    requires
        ks.no_duplicates(),
        ks.len() == vs.len(),
    ensures
        assoc_map(ks, vs).dom().finite(),
        assoc_map(ks, vs).len() == ks.len(),
{
    assert(assoc_map(ks, vs).dom() =~= ks.to_set());
    ks.unique_seq_to_set();
}

/// A map from strings to values of type `T`.
pub struct Dict<T> {
    keys: Vec<String>,
    vals: Vec<T>,
}

impl<T> View for Dict<T> {
    type V = Map<Seq<char>, T>;

    closed spec fn view(&self) -> Map<Seq<char>, T> {
        assoc_map(texts(self.keys@), self.vals@)
    }
}

impl<T> Dict<T> {
    /// Every key stands once and has its value beside it.
    pub closed spec fn wf(&self) -> bool {
        &&& self.keys@.len() == self.vals@.len()
        &&& texts(self.keys@).no_duplicates()
    }

    /// A well-formed map has finitely many keys.
    pub proof fn lemma_finite(&self)
        requires
            self.wf(),
        ensures
            self@.dom().finite(),
    {
        lemma_assoc_len(texts(self.keys@), self.vals@);
    }

    /// The empty map.
    pub fn new() -> (d: Self)
        ensures
            d.wf(),
            d@ == Map::<Seq<char>, T>::empty(),
    {
        let d = Dict { keys: Vec::new(), vals: Vec::new() };
        assert(d@ =~= Map::<Seq<char>, T>::empty());
        d
    }

    fn find(&self, k: &str) -> (r: Option<usize>)
        requires
            self.wf(),
        ensures
            match r {
                Some(i) => i < self.keys@.len() && self.keys@[i as int]@ == k@,
                None => !texts(self.keys@).contains(k@),
            },
    {
        let needle = String::from_str(k);
        let mut i: usize = 0;
        while i < self.keys.len()
            invariant
                i <= self.keys@.len(),
                needle@ == k@,
                forall|j: int| 0 <= j < i ==> texts(self.keys@)[j] != k@,
            decreases self.keys@.len() - i,
        {
            if self.keys[i] == needle {
                return Some(i);
            }
            i = i + 1;
        }
        None
    }

    /// The number of entries.
    pub fn len(&self) -> (n: usize)
        requires
            self.wf(),
        ensures
            n == self@.len(),
    {
        proof {
            lemma_assoc_len(texts(self.keys@), self.vals@);
        }
        self.keys.len()
    }

    /// Whether `k` has an entry.
    pub fn contains_key(&self, k: &str) -> (b: bool)
        requires
            self.wf(),
        ensures
            b == self@.contains_key(k@),
    {
        match self.find(k) {
            Some(i) => {
                proof {
                    lemma_assoc_at(texts(self.keys@), self.vals@, i as int);
                }
                true
            },
            None => false,
        }
    }

    /// The value for `k`, if `k` has an entry.
    pub fn get(&self, k: &str) -> (r: Option<&T>)
        requires
            self.wf(),
        ensures
            match r {
                Some(v) => self@.contains_key(k@) && *v == self@[k@],
                None => !self@.contains_key(k@),
            },
    {
        match self.find(k) {
            Some(i) => {
                proof {
                    lemma_assoc_at(texts(self.keys@), self.vals@, i as int);
                }
                Some(&self.vals[i])
            },
            None => None,
        }
    }

    /// Binds `k` to `v`, replacing the value of an entry that is already there.
    pub fn insert(&mut self, k: &str, v: T)
        requires
            old(self).wf(),
        ensures
            final(self).wf(),
            final(self)@ == old(self)@.insert(k@, v),
    {
        match self.find(k) {
            Some(i) => {
                proof {
                    lemma_assoc_update(texts(self.keys@), self.vals@, i as int, v);
                }
                self.vals.set(i, v);
            },
            None => {
                proof {
                    lemma_assoc_push(texts(self.keys@), self.vals@, k@, v);
                }
                let owned = String::from_str(k);
                self.keys.push(owned);
                self.vals.push(v);
                assert(texts(self.keys@) =~= texts(old(self).keys@).push(k@));
            },
        }
    }

    /// Takes the entry of `k` out and returns its value; without such an entry
    /// the map stays as it is.
    pub fn remove(&mut self, k: &str) -> (r: Option<T>)
        requires
            old(self).wf(),
        ensures
            final(self).wf(),
            final(self)@ == old(self)@.remove(k@),
            match r {
                Some(v) => old(self)@.contains_key(k@) && v == old(self)@[k@],
                None => !old(self)@.contains_key(k@),
            },
    {
        match self.find(k) {
            Some(i) => {
                proof {
                    lemma_assoc_at(texts(self.keys@), self.vals@, i as int);
                    lemma_assoc_remove(texts(self.keys@), self.vals@, i as int);
                }
                self.keys.remove(i);
                let v = self.vals.remove(i);
                assert(texts(self.keys@) =~= texts(old(self).keys@).remove(i as int));
                Some(v)
            },
            None => {
                assert(self@ =~= self@.remove(k@));
                None
            },
        }
    }

    /// Removes every entry.
    pub fn clear(&mut self)
        ensures
            final(self).wf(),
            final(self)@ == Map::<Seq<char>, T>::empty(),
    {
        self.keys.clear();
        self.vals.clear();
        assert(self@ =~= Map::<Seq<char>, T>::empty());
    }

    /// Two-argument `pop`: removes the entry of `k` and returns its value, or
    /// returns `d` and leaves the map alone where `k` has no entry.
    pub fn pop(&mut self, k: &str, d: T) -> (r: T)
        requires
            old(self).wf(),
        ensures
            final(self).wf(),
            old(self)@.contains_key(k@) ==> r == old(self)@[k@] && final(self)@ == old(self)@.remove(k@),
            !old(self)@.contains_key(k@) ==> r == d && final(self)@ == old(self)@,
    {
        match self.remove(k) {
            Some(v) => v,
            None => {
                assert(self@ =~= old(self)@);
                d
            },
        }
    }

    /// Removes one entry and returns it. Which entry leaves is not fixed. On
    /// an empty map there is nothing to remove, and the result is `None`.
    pub fn popitem(&mut self) -> (r: Option<(String, T)>)
        requires
            old(self).wf(),
        ensures
            final(self).wf(),
            r is None <==> old(self)@.len() == 0,
            match r {
                Some((k, v)) => old(self)@.contains_pair(k@, v) && final(self)@ == old(self)@.remove(k@),
                None => final(self)@ == old(self)@,
            },
    {
        proof {
            lemma_assoc_len(texts(self.keys@), self.vals@);
        }
        if self.keys.len() == 0 {
            return None;
        }
        let last = self.keys.len() - 1;
        proof {
            lemma_assoc_at(texts(self.keys@), self.vals@, last as int);
            lemma_assoc_remove(texts(self.keys@), self.vals@, last as int);
        }
        let k = self.keys.remove(last);
        let v = self.vals.remove(last);
        assert(texts(self.keys@) =~= texts(old(self).keys@).remove(last as int));
        Some((k, v))
    }
}

/// The value texts of a map whose values are strings.
pub open spec fn value_texts(m: Map<Seq<char>, String>) -> Map<Seq<char>, Seq<char>> {
    m.map_values(|s: String| s@)
}

/// The key and value text of each pair of a sequence.
pub open spec fn pair_texts(items: Seq<(String, String)>) -> Seq<(Seq<char>, Seq<char>)> {
    Seq::new(items.len(), |i: int| (items[i].0@, items[i].1@))
}

/// `items` lists the entries of `m`: each key once, each with its value, none left out.
pub open spec fn is_listing(items: Seq<(Seq<char>, Seq<char>)>, m: Map<Seq<char>, Seq<char>>) -> bool {
    &&& forall|i: int, j: int| 0 <= i < j < items.len() ==> items[i].0 != items[j].0
    &&& forall|i: int| 0 <= i < items.len() ==> m.contains_pair(#[trigger] items[i].0, items[i].1)
    &&& forall|k: Seq<char>| #[trigger]
        m.contains_key(k) ==> exists|i: int| 0 <= i < items.len() && #[trigger] items[i].0 == k
}

/// The map built by binding the pairs of `items` one after the other, a later
/// pair replacing an earlier one with the same key.
pub open spec fn from_pairs(items: Seq<(Seq<char>, Seq<char>)>) -> Map<Seq<char>, Seq<char>>
    decreases items.len(),
{
    if items.len() == 0 {
        Map::empty()
    } else {
        from_pairs(items.drop_last()).insert(items.last().0, items.last().1)
    }
}

/// Folding the entries of a map, in any listing order, into a new map gives
/// the same map again.
pub proof fn lemma_fold_of_listing(items: Seq<(Seq<char>, Seq<char>)>, m: Map<Seq<char>, Seq<char>>)
    requires
        is_listing(items, m),
    ensures
        from_pairs(items) == m,
    decreases items.len(),
{
    if items.len() == 0 {
        assert(from_pairs(items) =~= m);
    } else {
        let rest = items.drop_last();
        let last = items.last();
        let m0 = m.remove(last.0);
        assert(m.contains_pair(items[items.len() - 1].0, items[items.len() - 1].1));
        assert forall|i: int| 0 <= i < rest.len() implies m0.contains_pair(
            #[trigger] rest[i].0,
            rest[i].1,
        ) by {
            assert(rest[i] == items[i]);
            assert(m.contains_pair(items[i].0, items[i].1));
        }
        assert forall|k: Seq<char>| #[trigger] m0.contains_key(k) implies exists|i: int|
            0 <= i < rest.len() && #[trigger] rest[i].0 == k by {
            assert(m.contains_key(k));
            let i = choose|i: int| 0 <= i < items.len() && #[trigger] items[i].0 == k;
            assert(rest[i] == items[i]);
        }
        assert forall|i: int, j: int| 0 <= i < j < rest.len() implies rest[i].0 != rest[j].0 by {
            assert(rest[i] == items[i] && rest[j] == items[j]);
        }
        lemma_fold_of_listing(rest, m0);
        assert(m0.insert(last.0, last.1) =~= m);
    }
}

impl Dict<String> {
    /// The map from key text to value text.
    pub open spec fn text(&self) -> Map<Seq<char>, Seq<char>> {
        value_texts(self@)
    }

    /// `setdefault`: where `k` has no entry, binds it to `d` and returns `d`;
    /// where it has one, returns its value and changes nothing.
    pub fn setdefault(&mut self, k: &str, d: &str) -> (r: String)
        requires
            old(self).wf(),
        ensures
            final(self).wf(),
            old(self)@.contains_key(k@) ==> r@ == old(self).text()[k@] && final(self)@ == old(self)@,
            !old(self)@.contains_key(k@) ==> r@ == d@ && final(self).text() == old(self).text().insert(
                k@,
                d@,
            ),
    {
        let found = match self.get(k) {
            Some(v) => Some(v.clone()),
            None => None,
        };
        match found {
            Some(v) => v,
            None => {
                let value = String::from_str(d);
                self.insert(k, value);
                assert(self.text() =~= old(self).text().insert(k@, d@));
                String::from_str(d)
            },
        }
    }

    /// The value of `k`, or `d` where `k` has no entry.
    pub fn get_or(&self, k: &str, d: &str) -> (r: String)
        requires
            self.wf(),
        ensures
            r@ == (if self.text().contains_key(k@) {
                self.text()[k@]
            } else {
                d@
            }),
    {
        match self.get(k) {
            Some(v) => v.clone(),
            None => String::from_str(d),
        }
    }

    /// Binds `k` to the text `v`.
    pub fn insert_text(&mut self, k: &str, v: &str)
        requires
            old(self).wf(),
        ensures
            final(self).wf(),
            final(self).text() == old(self).text().insert(k@, v@),
    {
        self.insert(k, String::from_str(v));
        assert(self.text() =~= old(self).text().insert(k@, v@));
    }

    /// A snapshot of the entries: every key and value copied, so that the
    /// listing stays valid whatever happens to the map afterwards.
    pub fn items(&self) -> (r: Vec<(String, String)>)
        requires
            self.wf(),
        ensures
            r@.len() == self@.len(),
            is_listing(pair_texts(r@), self.text()),
    {
        let mut r: Vec<(String, String)> = Vec::new();
        let mut i: usize = 0;
        while i < self.keys.len()
            invariant
                self.wf(),
                i <= self.keys@.len(),
                r@.len() == i,
                forall|j: int| 0 <= j < i ==> r@[j].0@ == self.keys@[j]@ && r@[j].1@ == self.vals@[j]@,
            decreases self.keys@.len() - i,
        {
            r.push((self.keys[i].clone(), self.vals[i].clone()));
            i = i + 1;
        }
        proof {
            let ks = texts(self.keys@);
            let items = pair_texts(r@);
            lemma_assoc_len(ks, self.vals@);
            assert forall|j: int| 0 <= j < items.len() implies self.text().contains_pair(
                #[trigger] items[j].0,
                items[j].1,
            ) by {
                lemma_assoc_at(ks, self.vals@, j);
                assert(items[j].0 == ks[j]);
            }
            assert forall|a: int, b: int| 0 <= a < b < items.len() implies items[a].0 != items[b].0 by {
                assert(items[a].0 == ks[a] && items[b].0 == ks[b]);
            }
            assert forall|k: Seq<char>| #[trigger] self.text().contains_key(k) implies exists|j: int|
                0 <= j < items.len() && #[trigger] items[j].0 == k by {
                let j = ks.index_of(k);
                assert(ks.contains(k));
                assert(items[j].0 == k);
            }
        }
        r
    }

    /// Builds a map by binding the pairs of `items` in order.
    pub fn from_items(items: &Vec<(String, String)>) -> (d: Dict<String>)
        ensures
            d.wf(),
            d.text() == from_pairs(pair_texts(items@)),
    {
        let mut d: Dict<String> = Dict::new();
        let mut i: usize = 0;
        assert(d.text() =~= from_pairs(pair_texts(items@).take(0)));
        while i < items.len()
            invariant
                d.wf(),
                i <= items@.len(),
                d.text() == from_pairs(pair_texts(items@).take(i as int)),
            decreases items@.len() - i,
        {
            proof {
                let next = pair_texts(items@).take(i + 1);
                assert(next.drop_last() =~= pair_texts(items@).take(i as int));
                assert(next.last() == (items@[i as int].0@, items@[i as int].1@));
            }
            d.insert_text(items[i].0.as_str(), items[i].1.as_str());
            i = i + 1;
        }
        assert(pair_texts(items@).take(i as int) =~= pair_texts(items@));
        d
    }

    /// Whether every entry of `self` is an entry of `other` too.
    pub fn included_in(&self, other: &Dict<String>) -> (b: bool)
        requires
            self.wf(),
            other.wf(),
        ensures
            b == self.text().submap_of(other.text()),
    {
        let mut i: usize = 0;
        while i < self.keys.len()
            invariant
                self.wf(),
                other.wf(),
                i <= self.keys@.len(),
                forall|j: int|
                    0 <= j < i ==> other.text().contains_pair(
                        #[trigger] texts(self.keys@)[j],
                        self.vals@[j]@,
                    ),
            decreases self.keys@.len() - i,
        {
            proof {
                lemma_assoc_at(texts(self.keys@), self.vals@, i as int);
            }
            let ghost k = texts(self.keys@)[i as int];
            assert(self.text().contains_key(k));
            assert(self.text()[k] == self.vals@[i as int]@);
            match other.get(self.keys[i].as_str()) {
                Some(v) => {
                    if !(*v == self.vals[i]) {
                        assert(other.text().contains_key(k));
                        assert(other.text()[k] == v@);
                        assert(self.text().dom().contains(k));
                        return false;
                    }
                },
                None => {
                    assert(!other.text().contains_key(k));
                    assert(self.text().dom().contains(k));
                    return false;
                },
            }
            i = i + 1;
        }
        proof {
            let ks = texts(self.keys@);
            assert forall|k: Seq<char>| #[trigger]
                self.text().dom().contains(k) implies other.text().dom().contains(k)
                && self.text()[k] == other.text()[k] by {
                let j = ks.index_of(k);
                assert(ks.contains(k));
                lemma_assoc_at(ks, self.vals@, j);
                assert(other.text().contains_pair(ks[j], self.vals@[j]@));
            }
        }
        true
    }

    /// Whether two maps hold the same entries, whatever the order in which
    /// they were put in.
    pub fn same_entries(&self, other: &Dict<String>) -> (b: bool)
        requires
            self.wf(),
            other.wf(),
        ensures
            b == (self.text() == other.text()),
    {
        let b = self.included_in(other) && other.included_in(self);
        assert(b ==> self.text() =~= other.text());
        b
    }

    /// An independent copy with the same entries, made by walking a snapshot
    /// of the entries and folding them into a new map. The map walked is left
    /// as it was.
    pub fn copy(&self) -> (d: Dict<String>)
        requires
            self.wf(),
        ensures
            d.wf(),
            d.text() == self.text(),
            d.text().len() == self.text().len(),
    {
        let snapshot = self.items();
        proof {
            lemma_fold_of_listing(pair_texts(snapshot@), self.text());
        }
        Dict::from_items(&snapshot)
    }

    /// `update`: binds in `self` every entry of `other`, the entries of
    /// `other` replacing those of `self` with the same key.
    pub fn update(&mut self, other: &Dict<String>)
        requires
            old(self).wf(),
            other.wf(),
        ensures
            final(self).wf(),
            final(self).text() == old(self).text().union_prefer_right(other.text()),
    {
        let snapshot = other.items();
        let mut i: usize = 0;
        proof {
            lemma_fold_of_listing(pair_texts(snapshot@), other.text());
            assert(self.text() =~= old(self).text().union_prefer_right(
                from_pairs(pair_texts(snapshot@).take(0)),
            ));
        }
        while i < snapshot.len()
            invariant
                self.wf(),
                i <= snapshot@.len(),
                self.text() == old(self).text().union_prefer_right(
                    from_pairs(pair_texts(snapshot@).take(i as int)),
                ),
            decreases snapshot@.len() - i,
        {
            proof {
                let next = pair_texts(snapshot@).take(i + 1);
                assert(next.drop_last() =~= pair_texts(snapshot@).take(i as int));
                assert(next.last() == (snapshot@[i as int].0@, snapshot@[i as int].1@));
            }
            self.insert_text(snapshot[i].0.as_str(), snapshot[i].1.as_str());
            assert(self.text() =~= old(self).text().union_prefer_right(
                from_pairs(pair_texts(snapshot@).take(i + 1)),
            ));
            i = i + 1;
        }
        assert(pair_texts(snapshot@).take(i as int) =~= pair_texts(snapshot@));
    }
}

} // verus!
