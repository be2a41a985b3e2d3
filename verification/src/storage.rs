use vstd::prelude::*;

use crate::cache::stored;
use crate::entries::KeyedEntries;

verus! {

/// A key/value store that persists values for scripts, keyed by strings.
pub struct Storage<V> {
    entries: KeyedEntries<V>,
}

impl<V> View for Storage<V> {
    type V = Map<Seq<char>, V>;

    closed spec fn view(&self) -> Map<Seq<char>, V> {
        self.entries@
    }
}

impl<V> Storage<V> {
    /// An empty storage.
    pub fn new() -> (storage: Self)
        ensures
            storage@ == Map::<Seq<char>, V>::empty(),
    {
        Storage { entries: KeyedEntries::new() }
    }

    /// Stores `value` under `key`, replacing any earlier value.
    pub fn set(&mut self, key: &str, value: V)
        ensures
            final(self)@ == old(self)@.insert(key@, value),
    {
        self.entries.set(key, value);
    }

    /// The value stored under `key`, if any.
    pub fn get(&self, key: &str) -> (value: Option<&V>)
        ensures
            match value {
                Some(v) => stored(self@, key@) == Some(*v),
                None => stored(self@, key@) is None,
            },
    {
        self.entries.get(key)
    }

    /// Deletes the value stored under `key`; tells whether there was one.
    pub fn delete(&mut self, key: &str) -> (existed: bool)
        ensures
            existed == old(self)@.contains_key(key@),
            final(self)@ == old(self)@.remove(key@),
    {
        self.entries.remove(key)
    }

    /// Whether a value is stored under `key`.
    pub fn has(&self, key: &str) -> (present: bool)
        ensures
            present == self@.contains_key(key@),
    {
        self.entries.contains(key)
    }

    /// Deletes every value.
    pub fn clear(&mut self)
        ensures
            final(self)@ == Map::<Seq<char>, V>::empty(),
    {
        self.entries.clear();
    }

    /// Every key that has a value, each once, in no promised order.
    pub fn keys(&self) -> (keys: Vec<String>)
        ensures
            keys@.map_values(|k: String| k@).no_duplicates(),
            keys@.map_values(|k: String| k@).to_set() == self@.dom(),
            keys@.len() == self@.len(),
    {
        self.entries.keys()
    }

    /// The number of keys that have a value.
    pub fn len(&self) -> (n: usize)
        ensures
            n == self@.len(),
    {
        self.entries.len()
    }

    /// Whether no key has a value.
    pub fn is_empty(&self) -> (empty: bool)
        ensures
            empty == (self@.len() == 0),
            empty == (self@ == Map::<Seq<char>, V>::empty()),
    {
        let n = self.entries.len();
        proof {
            if n == 0 {
                self@.dom().lemma_len0_is_empty();
                assert(self@ =~= Map::<Seq<char>, V>::empty());
            }
        }
        n == 0
    }
}

} // verus!
