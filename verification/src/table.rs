//! A map from string keys to values that keeps the order in which the keys
//! were first inserted.

use vstd::prelude::*;
use vstd::hash_map::StringHashMap;

verus! {

/// Values found by key in constant time and walked in insertion order.
///
/// The entries are stored in two vectors side by side; a hash map from key to
/// position finds them.
pub struct StringTable<V> {
    keys: Vec<String>,
    values: Vec<V>,
    index: StringHashMap<usize>,
}

/// No key stands at two places of `keys`.
pub open spec fn keys_distinct(keys: Seq<Seq<char>>) -> bool {
    forall|i: int, j: int| 0 <= i < keys.len() && 0 <= j < keys.len() && i != j ==> keys[i] != keys[j]
}

impl<V> StringTable<V> {
    /// The positions and the hash index agree.
    pub closed spec fn wf(&self) -> bool {
        &&& self.keys.len() == self.values.len()
        &&& forall|k: Seq<char>| #[trigger]
            self.index@.contains_key(k) ==> self.index@[k] < self.keys.len()
                && self.keys[self.index@[k] as int]@ == k
        &&& forall|i: int|
            0 <= i < self.keys.len() ==> self.index@.contains_key(#[trigger] self.keys[i]@)
                && self.index@[self.keys[i]@] == i
    }

    /// The table as a map from key to value.
    pub closed spec fn view(&self) -> Map<Seq<char>, V> {
        Map::new(
            |k: Seq<char>| self.index@.contains_key(k),
            |k: Seq<char>| self.values[self.index@[k] as int],
        )
    }

    /// The keys in the order of their first insertion.
    pub closed spec fn keys(&self) -> Seq<Seq<char>> {
        Seq::new(self.keys.len() as nat, |i: int| self.keys[i]@)
    }

    /// The keys are distinct and are exactly the domain of the map.
    pub proof fn lemma_keys(&self)
        requires
            self.wf(),
        ensures
            keys_distinct(self.keys()),
            forall|k: Seq<char>| self@.contains_key(k) <==> self.keys().contains(k),
            self@.dom().finite(),
            self@.dom().len() == self.keys().len(),
    {
        let keys = self.keys();
        assert forall|k: Seq<char>| self@.contains_key(k) implies keys.contains(k) by {
            assert(keys[self.index@[k] as int] == k);
        }
        assert forall|k: Seq<char>| keys.contains(k) implies self@.contains_key(k) by {
            let i = choose|i: int| 0 <= i < keys.len() && keys[i] == k;
            assert(self.keys[i]@ == k);
        }
        assert forall|i: int, j: int|
            0 <= i < keys.len() && 0 <= j < keys.len() && i != j implies keys[i] != keys[j] by {
            assert(self.index@[self.keys[i]@] == i);
            assert(self.index@[self.keys[j]@] == j);
        }
        keys.unique_seq_to_set();
        assert(keys.to_set() =~= self@.dom());
    }

    pub fn new() -> (r: Self)
        ensures
            r.wf(),
            r@ == Map::<Seq<char>, V>::empty(),
            r.keys() == Seq::<Seq<char>>::empty(),
    {
        let r = StringTable { keys: Vec::new(), values: Vec::new(), index: StringHashMap::new() };
        assert(r@ =~= Map::<Seq<char>, V>::empty());
        assert(r.keys() =~= Seq::<Seq<char>>::empty());
        r
    }

    pub fn len(&self) -> (n: usize)
        ensures
            n == self.keys().len(),
    {
        self.keys.len()
    }

    pub fn contains_key(&self, key: &str) -> (r: bool)
        ensures
            r == self@.contains_key(key@),
    {
        self.index.contains_key(key)
    }

    pub fn get(&self, key: &str) -> (r: Option<&V>)
        requires
            self.wf(),
        ensures
            r.is_some() == self@.contains_key(key@),
            r matches Some(v) ==> *v == self@[key@],
    {
        match self.index.get(key) {
            Some(i) => Some(&self.values[*i]),
            None => None,
        }
    }

    /// The value under `key`, to be changed in place.
    pub fn get_mut(&mut self, key: &str) -> (r: Option<&mut V>)
        requires
            old(self).wf(),
        ensures
            r.is_some() == old(self)@.contains_key(key@),
            r matches Some(v) ==> {
                &&& *v == old(self)@[key@]
                &&& final(self)@ == old(self)@.insert(key@, *final(v))
                &&& final(self).keys() == old(self).keys()
                &&& final(self).wf()
            },
            r.is_none() ==> *final(self) == *old(self),
    {
        match self.index.get(key) {
            Some(i) => {
                let i: usize = *i;
                Some(&mut self.values[i])
            },
            None => None,
        }
    }

    /// Puts `value` under `key`: in the place of the value that was there, or
    /// as a new last entry.
    pub fn insert(&mut self, key: String, value: V)
        requires
            old(self).wf(),
        ensures
            final(self).wf(),
            final(self)@ == old(self)@.insert(key@, value),
            final(self).keys() == if old(self)@.contains_key(key@) {
                old(self).keys()
            } else {
                old(self).keys().push(key@)
            },
    {
        match self.index.get(key.as_str()) {
            Some(i) => {
                let i: usize = *i;
                self.values[i] = value;
                assert(self@ =~= old(self)@.insert(key@, value));
                assert(self.keys() =~= old(self).keys());
            },
            None => {
                let n: usize = self.keys.len();
                self.index.insert(key.clone(), n);
                self.keys.push(key);
                self.values.push(value);
                assert(self@ =~= old(self)@.insert(key@, value));
                assert(self.keys() =~= old(self).keys().push(key@));
            },
        }
    }

    /// The key at position `i` of the insertion order.
    pub fn key_at(&self, i: usize) -> (k: &String)
        requires
            i < self.keys().len(),
        ensures
            k@ == self.keys()[i as int],
    {
        &self.keys[i]
    }

    /// The value at position `i` of the insertion order.
    pub fn value_at(&self, i: usize) -> (v: &V)
        requires
            self.wf(),
            i < self.keys().len(),
        ensures
            self@.contains_key(self.keys()[i as int]),
            *v == self@[self.keys()[i as int]],
    {
        &self.values[i]
    }
}

} // verus!
