//! A small map keyed by strings that remembers the order in which keys came.
use vstd::prelude::*;

verus! {

/// A map from strings to values, kept as a list of entries with distinct
/// keys in insertion order.
#[derive(Clone, Debug)]
pub struct StrMap<V> {
    entries: Vec<(String, V)>,
}

/// The value stored under `k` in a list of keys and a list of values of the
/// same length, where `k` is one of the keys.
pub open spec fn keyed_map<V>(keys: Seq<Seq<char>>, vals: Seq<V>) -> Map<Seq<char>, V> {
    Map::new(|k: Seq<char>| keys.contains(k), |k: Seq<char>| vals[keys.index_of(k)])
}

/// In a list of distinct keys, the index of a key is where it stands.
pub proof fn lemma_index_of_distinct(keys: Seq<Seq<char>>, i: int)
    requires
        keys.no_duplicates(),
        0 <= i < keys.len(),
    ensures
        keys.index_of(keys[i]) == i,
        keys.contains(keys[i]),
{
    assert(keys.contains(keys[i]));
    let j = keys.index_of(keys[i]);
    assert(0 <= j < keys.len() && keys[j] == keys[i]);
}

impl<V> StrMap<V> {
    /// The keys, in insertion order.
    pub closed spec fn keys(&self) -> Seq<Seq<char>> {
        self.entries@.map_values(|e: (String, V)| e.0@)
    }

    /// The values, in the order of their keys.
    pub closed spec fn vals(&self) -> Seq<V> {
        self.entries@.map_values(|e: (String, V)| e.1)
    }

    /// Keys are distinct.
    pub open spec fn wf(&self) -> bool {
        self.keys().no_duplicates()
    }

    /// The map from each key to its value.
    pub open spec fn view(&self) -> Map<Seq<char>, V> {
        keyed_map(self.keys(), self.vals())
    }

    /// Facts every map obeys: keys and values line up and keys are distinct.
    pub proof fn lemma_shape(&self)
        requires
            self.wf(),
        ensures
            self.keys().len() == self.vals().len(),
            self.keys().no_duplicates(),
            self.view().dom() == self.keys().to_set(),
            forall|i: int|
                0 <= i < self.keys().len() ==> #[trigger] self.view()[self.keys()[i]] == self.vals()[i],
    {
        assert forall|i: int| 0 <= i < self.keys().len() implies #[trigger] self.view()[self.keys()[i]]
            == self.vals()[i] by {
            lemma_index_of_distinct(self.keys(), i);
        }
        assert(self.view().dom() =~= self.keys().to_set());
    }

    /// An empty map.
    pub fn new() -> (m: StrMap<V>)
        ensures
            m.wf(),
            m.keys() == Seq::<Seq<char>>::empty(),
            m.view() == Map::<Seq<char>, V>::empty(),
    {
        let m = StrMap { entries: Vec::new() };
        assert(m.keys() =~= Seq::<Seq<char>>::empty());
        assert(m.view() =~= Map::<Seq<char>, V>::empty());
        m
    }

    /// The number of keys.
    pub fn len(&self) -> (n: usize)
        ensures
            n == self.keys().len(),
    {
        self.entries.len()
    }

    /// The key at position `i`.
    pub fn key_at(&self, i: usize) -> (k: &String)
        requires
            i < self.keys().len(),
        ensures
            k@ == self.keys()[i as int],
    {
        &self.entries[i].0
    }

    /// The value at position `i`.
    pub fn value_at(&self, i: usize) -> (v: &V)
        requires
            i < self.keys().len(),
        ensures
            *v == self.vals()[i as int],
    {
        &self.entries[i].1
    }

    /// The position of `key`, if it is a key.
    pub fn find(&self, key: &str) -> (r: Option<usize>)
        ensures
            match r {
                Some(i) => i < self.keys().len() && self.keys()[i as int] == key@,
                None => !self.keys().contains(key@),
            },
    {
        let target = key.to_owned();
        let mut i: usize = 0;
        while i < self.entries.len()
            invariant
                target@ == key@,
                i <= self.entries@.len(),
                forall|k: int| 0 <= k < i ==> #[trigger] self.keys()[k] != key@,
            decreases self.entries@.len() - i,
        {
            if self.entries[i].0 == target {
                return Some(i);
            }
            i = i + 1;
        }
        None
    }

    /// The value under `key`, if it is a key.
    pub fn get(&self, key: &str) -> (r: Option<&V>)
        requires
            self.wf(),
        ensures
            match r {
                Some(v) => self.view().contains_key(key@) && *v == self.view()[key@],
                None => !self.view().contains_key(key@),
            },
    {
        proof {
            self.lemma_shape();
        }
        match self.find(key) {
            Some(i) => Some(&self.entries[i].1),
            None => None,
        }
    }

    /// Replaces the value at position `i`.
    pub fn set_at(&mut self, i: usize, v: V)
        requires
            old(self).wf(),
            i < old(self).keys().len(),
        ensures
            final(self).wf(),
            final(self).keys() == old(self).keys(),
            final(self).vals() == old(self).vals().update(i as int, v),
            final(self).view() == old(self).view().insert(old(self).keys()[i as int], v),
    {
        proof {
            self.lemma_shape();
        }
        let key = self.entries[i].0.clone();
        self.entries.set(i, (key, v));
        proof {
            assert(self.keys() =~= old(self).keys());
            assert(self.vals() =~= old(self).vals().update(i as int, v));
            self.lemma_shape();
            assert(self.view() =~= old(self).view().insert(old(self).keys()[i as int], v));
        }
    }

    /// Two maps with the same keys whose values differ at most at position `i`
    /// differ at most at that key.
    pub proof fn lemma_update_view(a: &StrMap<V>, b: &StrMap<V>, i: int, v: V)
        requires
            a.wf(),
            0 <= i < a.keys().len(),
            b.keys() == a.keys(),
            b.vals() == a.vals().update(i, v),
        ensures
            b.view() == a.view().insert(a.keys()[i], v),
    {
        a.lemma_shape();
        b.lemma_shape();
        lemma_index_of_distinct(a.keys(), i);
        assert forall|k: Seq<char>| #[trigger] b.keys().contains(k) implies b.view()[k] == a.view().insert(
            a.keys()[i],
            v,
        )[k] by {
            let j = b.keys().index_of(k);
            lemma_index_of_distinct(b.keys(), j);
        }
        assert(b.view() =~= a.view().insert(a.keys()[i], v));
    }

    /// Takes out the entry at position `i`.
    pub fn remove_at(&mut self, i: usize) -> (e: (String, V))
        requires
            old(self).wf(),
            i < old(self).keys().len(),
        ensures
            final(self).wf(),
            final(self).keys() == old(self).keys().remove(i as int),
            final(self).vals() == old(self).vals().remove(i as int),
            e.0@ == old(self).keys()[i as int],
            e.1 == old(self).vals()[i as int],
    {
        let e = self.entries.remove(i);
        proof {
            assert(self.keys() =~= old(self).keys().remove(i as int));
            assert(self.vals() =~= old(self).vals().remove(i as int));
            let ok = old(self).keys();
            let nk = self.keys();
            assert forall|a: int, b: int| 0 <= a < b < nk.len() implies nk[a] != nk[b] by {
                let oa = if a < i { a } else { a + 1 };
                let ob = if b < i { b } else { b + 1 };
                assert(nk[a] == ok[oa] && nk[b] == ok[ob]);
            }
        }
        e
    }

    /// Puts an entry whose key is new at position `i`.
    pub fn insert_at(&mut self, i: usize, key: String, v: V)
        requires
            old(self).wf(),
            i <= old(self).keys().len(),
            !old(self).keys().contains(key@),
        ensures
            final(self).wf(),
            final(self).keys() == old(self).keys().insert(i as int, key@),
            final(self).vals() == old(self).vals().insert(i as int, v),
    {
        let ghost k = key@;
        self.entries.insert(i, (key, v));
        proof {
            assert(self.keys() =~= old(self).keys().insert(i as int, k));
            assert(self.vals() =~= old(self).vals().insert(i as int, v));
            let ok = old(self).keys();
            let nk = self.keys();
            assert forall|a: int, b: int| 0 <= a < b < nk.len() implies nk[a] != nk[b] by {
                if a == i {
                    assert(nk[b] == ok[b - 1]);
                } else if b == i {
                    assert(nk[a] == ok[a]);
                } else {
                    let oa = if a < i { a } else { a - 1 };
                    let ob = if b < i { b } else { b - 1 };
                    assert(nk[a] == ok[oa] && nk[b] == ok[ob]);
                }
            }
        }
    }

    /// Maps `key` to `v`: replaces its value where it is a key, else adds it last.
    pub fn insert(&mut self, key: String, v: V)
        requires
            old(self).wf(),
        ensures
            final(self).wf(),
            final(self).view() == old(self).view().insert(key@, v),
            final(self).keys() == if old(self).keys().contains(key@) {
                old(self).keys()
            } else {
                old(self).keys().push(key@)
            },
            final(self).vals() == if old(self).keys().contains(key@) {
                old(self).vals().update(old(self).keys().index_of(key@), v)
            } else {
                old(self).vals().push(v)
            },
    {
        proof {
            self.lemma_shape();
        }
        match self.find(key.as_str()) {
            Some(i) => {
                proof {
                    lemma_index_of_distinct(self.keys(), i as int);
                }
                self.set_at(i, v);
            },
            None => {
                self.entries.push((key, v));
                proof {
                    assert(self.keys() =~= old(self).keys().push(key@));
                    assert(self.vals() =~= old(self).vals().push(v));
                    self.lemma_shape();
                    old(self).lemma_shape();
                    let nk = self.keys();
                    let ok = old(self).keys();
                    assert forall|k: Seq<char>| #[trigger] nk.contains(k) implies self.view()[k]
                        == old(self).view().insert(key@, v)[k] by {
                        let j = nk.index_of(k);
                        lemma_index_of_distinct(nk, j);
                        if j < ok.len() {
                            assert(ok[j] == k);
                            assert(self.view()[nk[j]] == self.vals()[j]);
                            assert(old(self).view()[ok[j]] == old(self).vals()[j]);
                        }
                    }
                    assert forall|k: Seq<char>| #[trigger] nk.contains(k) <==> (ok.contains(k) || k
                        == key@) by {
                        if ok.contains(k) {
                            let j = ok.index_of(k);
                            assert(nk[j] == k);
                        }
                        if k == key@ {
                            assert(nk[ok.len() as int] == k);
                        }
                        if nk.contains(k) {
                            let j = nk.index_of(k);
                            if j < ok.len() {
                                assert(ok[j] == k);
                            }
                        }
                    }
                    assert(self.view().dom() =~= old(self).view().insert(key@, v).dom());
                    assert(self.view() =~= old(self).view().insert(key@, v));
                }
            },
        }
    }
}

} // verus!
