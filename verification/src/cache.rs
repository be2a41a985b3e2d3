use vstd::prelude::*;

use crate::entries::KeyedEntries;

verus! {

/// What a store whose contents are `m` answers when asked for `key`.
pub open spec fn stored<V>(m: Map<Seq<char>, V>, key: Seq<char>) -> Option<V> {
    if m.contains_key(key) {
        Some(m[key])
    } else {
        None
    }
}

/// A key/value store that keeps values between requests, keyed by strings.
pub struct Cache<V> {
    entries: KeyedEntries<V>,
}

impl<V> View for Cache<V> {
    type V = Map<Seq<char>, V>;

    closed spec fn view(&self) -> Map<Seq<char>, V> {
        self.entries@
    }
}

impl<V> Cache<V> {
    /// An empty cache.
    pub fn new() -> (cache: Self)
        ensures
            cache@ == Map::<Seq<char>, V>::empty(),
    {
        Cache { entries: KeyedEntries::new() }
    }

    /// Stores `value` under `key`, replacing any earlier value.
    pub fn set(&mut self, key: &str, value: V)
        ensures
            final(self)@ == old(self)@.insert(key@, value),
    {
        self.entries.set(key, value);
    }

    /// The value stored under `key`, if any.
    pub fn get(&self, key: &str) -> (value: Option<&V>)
        ensures
            match value {
                Some(v) => stored(self@, key@) == Some(*v),
                None => stored(self@, key@) is None,
            },
    {
        self.entries.get(key)
    }

    /// Deletes the value stored under `key`; tells whether there was one.
    pub fn delete(&mut self, key: &str) -> (existed: bool)
        ensures
            existed == old(self)@.contains_key(key@),
            final(self)@ == old(self)@.remove(key@),
    {
        self.entries.remove(key)
    }

    /// Whether a value is stored under `key`.
    pub fn has(&self, key: &str) -> (present: bool)
        ensures
            present == self@.contains_key(key@),
    {
        self.entries.contains(key)
    }

    /// Deletes every value.
    pub fn clear(&mut self)
        ensures
            final(self)@ == Map::<Seq<char>, V>::empty(),
    {
        self.entries.clear();
    }

    /// Every key that has a value, each once, in no promised order.
    pub fn keys(&self) -> (keys: Vec<String>)
        ensures
            keys@.map_values(|k: String| k@).no_duplicates(),
            keys@.map_values(|k: String| k@).to_set() == self@.dom(),
            keys@.len() == self@.len(),
    {
        self.entries.keys()
    }

    /// The number of keys that have a value.
    pub fn len(&self) -> (n: usize)
        ensures
            n == self@.len(),
    {
        self.entries.len()
    }

    /// Whether no key has a value.
    pub fn is_empty(&self) -> (empty: bool)
        ensures
            empty == (self@.len() == 0),
            empty == (self@ == Map::<Seq<char>, V>::empty()),
    {
        let n = self.entries.len();
        proof {
            if n == 0 {
                self@.dom().lemma_len0_is_empty();
                assert(self@ =~= Map::<Seq<char>, V>::empty());
            }
        }
        n == 0
    }
}

/// Reading a key right after storing a value under it gives that value back.
pub proof fn law_get_after_set<V>(m: Map<Seq<char>, V>, key: Seq<char>, value: V)
    ensures
        stored(m.insert(key, value), key) == Some(value),
{
}

/// Storing under one key leaves what every other key reads unchanged.
pub proof fn law_set_keeps_other_keys<V>(
    m: Map<Seq<char>, V>,
    key: Seq<char>,
    value: V,
    other: Seq<char>,
)
    requires
        other != key,
    ensures
        stored(m.insert(key, value), other) == stored(m, other),
{
}

/// The later of two writes to one key wins.
pub proof fn law_last_write_wins<V>(m: Map<Seq<char>, V>, key: Seq<char>, first: V, second: V)
    ensures
        m.insert(key, first).insert(key, second) == m.insert(key, second),
{
    assert(m.insert(key, first).insert(key, second) =~= m.insert(key, second));
}

/// After a delete the key reads as absent, and every other key is unchanged.
pub proof fn law_delete_removes_only_its_key<V>(
    m: Map<Seq<char>, V>,
    key: Seq<char>,
    other: Seq<char>,
)
    ensures
        stored(m.remove(key), key) is None,
        other != key ==> stored(m.remove(key), other) == stored(m, other),
{
}

/// A key is present exactly when reading it yields a value.
pub proof fn law_has_iff_get<V>(m: Map<Seq<char>, V>, key: Seq<char>)
    ensures
        m.contains_key(key) <==> stored(m, key) is Some,
{
}

/// After clearing, no key reads a value and the store is empty.
pub proof fn law_clear_forgets_everything<V>(key: Seq<char>)
    ensures
        stored(Map::<Seq<char>, V>::empty(), key) is None,
        Map::<Seq<char>, V>::empty().len() == 0,
{
}

/// Storing under a new key adds one to the count; storing under a present key keeps it.
pub proof fn law_set_count<V>(m: Map<Seq<char>, V>, key: Seq<char>, value: V)
    requires
        m.dom().finite(),
    ensures
        !m.contains_key(key) ==> m.insert(key, value).len() == m.len() + 1,
        m.contains_key(key) ==> m.insert(key, value).len() == m.len(),
{
    if m.contains_key(key) {
        assert(m.insert(key, value).dom() =~= m.dom());
    }
}

/// Deleting a present key takes one from the count.
pub proof fn law_delete_count<V>(m: Map<Seq<char>, V>, key: Seq<char>)
    requires
        m.dom().finite(),
        m.contains_key(key),
    ensures
        m.remove(key).len() == m.len() - 1,
{
}

} // verus!
