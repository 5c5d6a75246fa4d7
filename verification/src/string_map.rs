//! A small map from text to text that remembers the order of insertion.
//!
//! Header fields and query parameters are few, so the map is a vector of
//! entries with distinct keys. Inserting under a key that is present replaces
//! the value in place; a new key goes to the end. Walking the entries by
//! index therefore visits them in a fixed order.

use crate::assoc::{
    as_map, distinct_keys, key_index, lemma_distinct_len, lemma_distinct_lookup,
    lemma_key_index_unique, lemma_put, put,
};
use crate::text::same_text;
use vstd::prelude::*;
use vstd::string::*;

verus! {

/// The mathematical content of an entry list: keys and values as character
/// sequences, in order.
pub type Pairs = Seq<(Seq<char>, Seq<char>)>;

/// A map from text to text with insertion order.
#[derive(Debug)]
pub struct StringMap {
    entries: Vec<(String, String)>,
}

impl View for StringMap {
    type V = Map<Seq<char>, Seq<char>>;

    open spec fn view(&self) -> Map<Seq<char>, Seq<char>> {
        as_map(self.pairs())
    }
}

impl StringMap {
    /// The entries in order, as character sequences.
    pub closed spec fn pairs(&self) -> Pairs {
        self.entries@.map_values(|e: (String, String)| (e.0@, e.1@))
    }

    #[verifier::type_invariant]
    closed spec fn well_formed(&self) -> bool {
        distinct_keys(self.pairs())
    }

    /// An empty map.
    pub fn new() -> (m: StringMap)
        ensures
            m.pairs() == Pairs::empty(),
            m@ == Map::<Seq<char>, Seq<char>>::empty(),
    {
        StringMap { entries: Vec::new() }
    }

    /// The number of entries, which is the number of keys: no two entries
    /// share a key.
    pub fn len(&self) -> (n: usize)
        ensures
            n == self.pairs().len(),
            n == self@.len(),
            distinct_keys(self.pairs()),
    {
        proof {
            use_type_invariant(self);
            lemma_distinct_len(self.pairs());
        }
        self.entries.len()
    }

    /// Whether the map has no entry.
    pub fn is_empty(&self) -> (r: bool)
        ensures
            r == (self.pairs().len() == 0),
    {
        self.entries.len() == 0
    }

    /// Where the entry with key `key` stands, if there is one.
    fn position(&self, key: &str) -> (r: Option<usize>)
        ensures
            match r {
                Some(i) => i < self.pairs().len() && i == key_index(self.pairs(), key@),
                None => key_index(self.pairs(), key@) == self.pairs().len(),
            },
    {
        let mut i: usize = 0;
        while i < self.entries.len()
            invariant
                i <= self.entries.len(),
                forall|j: int| 0 <= j < i ==> self.pairs()[j].0 != key@,
            decreases self.entries.len() - i,
        {
            if same_text(self.entries[i].0.as_str(), key) {
                proof {
                    lemma_key_index_unique(self.pairs(), key@, i as int);
                }
                return Some(i);
            }
            i += 1;
        }
        proof {
            lemma_key_index_unique(self.pairs(), key@, self.pairs().len() as int);
        }
        None
    }

    /// Gives `key` the value `value`. A value already stored under `key` is
    /// replaced and keeps its place; a new key goes to the end.
    pub fn insert(&mut self, key: String, value: String)
        ensures
            final(self).pairs() == put(old(self).pairs(), key@, value@),
            final(self)@ == old(self)@.insert(key@, value@),
    {
        proof {
            use_type_invariant(&*self);
            lemma_put(self.pairs(), key@, value@);
        }
        let found = self.position(key.as_str());
        // The entries are taken out while they change, so that the keys of
        // whatever `self` holds are distinct at every moment.
        let mut entries: Vec<(String, String)> = Vec::new();
        core::mem::swap(&mut self.entries, &mut entries);
        match found {
            Some(i) => {
                entries.set(i, (key, value));
            },
            None => {
                entries.push((key, value));
            },
        }
        assert(entries@.map_values(|e: (String, String)| (e.0@, e.1@)) =~= put(
            old(self).pairs(),
            key@,
            value@,
        ));
        self.entries = entries;
    }

    /// The value stored under `key`.
    pub fn get(&self, key: &str) -> (r: Option<&String>)
        ensures
            match r {
                Some(v) => self@.contains_key(key@) && v@ == self@[key@],
                None => !self@.contains_key(key@),
            },
    {
        match self.position(key) {
            Some(i) => Some(&self.entries[i].1),
            None => None,
        }
    }

    /// Whether a value is stored under `key`.
    pub fn contains_key(&self, key: &str) -> (r: bool)
        ensures
            r == self@.contains_key(key@),
    {
        self.position(key).is_some()
    }

    /// The key and the value of the entry at `index`, counted in insertion
    /// order, or `None` past the last entry.
    pub fn entry(&self, index: usize) -> (r: Option<(&String, &String)>)
        ensures
            match r {
                Some((k, v)) => {
                    &&& index < self.pairs().len()
                    &&& (k@, v@) == self.pairs()[index as int]
                    &&& self@.contains_key(k@)
                    &&& self@[k@] == v@
                },
                None => index >= self.pairs().len(),
            },
    {
        proof {
            use_type_invariant(self);
            if index < self.pairs().len() {
                lemma_distinct_lookup(self.pairs(), index as int);
            }
        }
        if index < self.entries.len() {
            Some((&self.entries[index].0, &self.entries[index].1))
        } else {
            None
        }
    }
}

} // verus!
