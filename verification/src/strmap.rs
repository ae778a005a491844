//! A map from strings to values, kept as a vector of pairs in insertion order.
use vstd::prelude::*;

use crate::keyed::{
    has_key, key_position, lemma_pairs_map_at, lemma_pairs_map_empty, lemma_pairs_map_len,
    lemma_put_pair, pairs_map, put_pair, unique_keys,
};

verus! {

/// The pairs of `s`, each key taken by its view.
pub open spec fn string_pairs<V>(s: Seq<(String, V)>) -> Seq<(Seq<char>, V)> {
    s.map_values(|e: (String, V)| (e.0@, e.1))
}

/// A map with `String` keys. Each key occurs once; a new key goes to the end
/// and a key that is present keeps its place when its value is replaced.
pub struct StrMap<V> {
    entries: Vec<(String, V)>,
}

impl<V> StrMap<V> {
    /// The pairs of the map in their order.
    pub closed spec fn pairs(self) -> Seq<(Seq<char>, V)> {
        string_pairs(self.entries@)
    }

    #[verifier::type_invariant]
    closed spec fn keys_distinct(self) -> bool {
        unique_keys(self.pairs())
    }

    /// An empty map.
    pub fn new() -> (m: Self)
        ensures
            m.pairs() == Seq::<(Seq<char>, V)>::empty(),
            m@ == Map::<Seq<char>, V>::empty(),
    {
        let m = StrMap { entries: Vec::new() };
        proof {
            assert(m.pairs() =~= Seq::<(Seq<char>, V)>::empty());
            lemma_pairs_map_empty(m.pairs());
        }
        m
    }

    /// The position of `key`, if it is present.
    fn position(&self, key: &String) -> (r: Option<usize>)
        ensures
            match r {
                Some(i) => i < self.pairs().len() && self.pairs()[i as int].0 == key@,
                None => !has_key(self.pairs(), key@),
            },
    {
        let n = self.entries.len();
        let mut i: usize = 0;
        while i < n
            invariant
                n == self.entries@.len(),
                i <= n,
                forall|j: int| 0 <= j < i ==> self.pairs()[j].0 != key@,
            decreases n - i,
        {
            if self.entries[i].0 == *key {
                return Some(i);
            }
            i = i + 1;
        }
        proof {
            if has_key(self.pairs(), key@) {
                let j = key_position(self.pairs(), key@);
                assert(self.pairs()[j].0 == key@);
            }
        }
        None
    }

    /// Number of keys.
    pub fn len(&self) -> (n: usize)
        ensures
            n == self@.len(),
            n == self.pairs().len(),
            self@.dom().finite(),
    {
        proof {
            use_type_invariant(self);
            lemma_pairs_map_len(self.pairs());
        }
        self.entries.len()
    }

    /// Whether `key` is present.
    pub fn contains_key(&self, key: &String) -> (b: bool)
        ensures
            b == self@.contains_key(key@),
    {
        self.position(key).is_some()
    }

    /// The value of `key`, if it is present.
    pub fn get(&self, key: &String) -> (r: Option<&V>)
        ensures
            r.is_some() == self@.contains_key(key@),
            r.is_some() ==> *r.unwrap() == self@[key@],
    {
        proof {
            use_type_invariant(self);
        }
        match self.position(key) {
            Some(i) => {
                proof {
                    lemma_pairs_map_at(self.pairs(), i as int);
                }
                Some(&self.entries[i].1)
            },
            None => None,
        }
    }

    /// Sets the value of `key`: in place where the key is present, at the end
    /// where it is new.
    pub fn insert(&mut self, key: String, value: V)
        ensures
            final(self).pairs() == put_pair(old(self).pairs(), key@, value),
            final(self)@ == old(self)@.insert(key@, value),
    {
        proof {
            use_type_invariant(&*self);
        }
        let ghost old_pairs = self.pairs();
        let ghost k = key@;
        proof {
            lemma_put_pair(old_pairs, k, value);
        }
        let pos = self.position(&key);
        let mut entries: Vec<(String, V)> = Vec::new();
        std::mem::swap(&mut entries, &mut self.entries);
        match pos {
            Some(i) => {
                proof {
                    lemma_pairs_map_at(old_pairs, i as int);
                }
                entries.set(i, (key, value));
                proof {
                    assert(string_pairs(entries@) =~= old_pairs.update(i as int, (k, value)));
                }
            },
            None => {
                entries.push((key, value));
                proof {
                    assert(string_pairs(entries@) =~= old_pairs.push((k, value)));
                }
            },
        }
        self.entries = entries;
    }

    /// The pairs of the map, in their order.
    pub fn entries(&self) -> (r: &Vec<(String, V)>)
        ensures
            string_pairs(r@) == self.pairs(),
            unique_keys(self.pairs()),
            self@ == pairs_map(self.pairs()),
    {
        proof {
            use_type_invariant(self);
        }
        &self.entries
    }
}

impl StrMap<String> {
    /// A copy of the map, with its pairs in the same order.
    pub fn duplicate(&self) -> (r: Self)
        ensures
            r.pairs() == self.pairs(),
    {
        proof {
            use_type_invariant(self);
        }
        let n = self.entries.len();
        let mut out: Vec<(String, String)> = Vec::new();
        let mut i: usize = 0;
        while i < n
            invariant
                n == self.entries@.len(),
                i <= n,
                string_pairs(out@) == self.pairs().take(i as int),
            decreases n - i,
        {
            let k = self.entries[i].0.clone();
            let v = self.entries[i].1.clone();
            let ghost before = out@;
            out.push((k, v));
            proof {
                assert(out@ == before.push((k, v)));
                assert(string_pairs(before).len() == i);
                assert(before.len() == i);
                assert(k == self.entries@[i as int].0);
                assert(v == self.entries@[i as int].1);
                assert(self.pairs()[i as int] == (self.entries@[i as int].0@, self.entries@[i as int].1));
                assert forall|j: int| 0 <= j < i implies #[trigger] string_pairs(out@)[j] == self.pairs()[j] by {
                    assert(string_pairs(before)[j] == self.pairs().take(i as int)[j]);
                    assert(out@[j] == before[j]);
                }
                assert(string_pairs(out@) =~= self.pairs().take(i + 1));
            }
            i = i + 1;
        }
        proof {
            assert(self.pairs().take(n as int) =~= self.pairs());
        }
        StrMap { entries: out }
    }
}

impl<V> View for StrMap<V> {
    type V = Map<Seq<char>, V>;

    open spec fn view(&self) -> Map<Seq<char>, V> {
        pairs_map(self.pairs())
    }
}

} // verus!
