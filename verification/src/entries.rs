use vstd::prelude::*;

verus! {

/// `items[i]` is the entry for `key`.
pub open spec fn key_at<V>(items: Seq<(String, V)>, key: Seq<char>, i: int) -> bool {
    0 <= i < items.len() && items[i].0@ == key
}

/// No key occurs in two entries.
pub open spec fn distinct_keys<V>(items: Seq<(String, V)>) -> bool {
    forall|i: int, j: int|
        #![trigger items[i], items[j]]
        0 <= i < items.len() && 0 <= j < items.len() && items[i].0@ == items[j].0@ ==> i == j
}

/// The map that an association list denotes.
pub open spec fn entries_map<V>(items: Seq<(String, V)>) -> Map<Seq<char>, V> {
    Map::new(
        |k: Seq<char>| exists|i: int| key_at(items, k, i),
        |k: Seq<char>| items[choose|i: int| key_at(items, k, i)].1,
    )
}

/// The keys of an association list, in order.
pub open spec fn entry_keys<V>(items: Seq<(String, V)>) -> Seq<Seq<char>> {
    items.map_values(|e: (String, V)| e.0@)
}

/// With distinct keys, the entry at `i` is what the map holds for its key.
pub proof fn lemma_entry_in_map<V>(items: Seq<(String, V)>, i: int)
    requires
        distinct_keys(items),
        0 <= i < items.len(),
    ensures
        entries_map(items).contains_key(items[i].0@),
        entries_map(items)[items[i].0@] == items[i].1,
{
    assert(key_at(items, items[i].0@, i));
    let j = choose|j: int| key_at(items, items[i].0@, j);
    assert(items[j].0@ == items[i].0@);
}

/// The map's domain is the set of keys, and it has one key per entry.
pub proof fn lemma_map_domain<V>(items: Seq<(String, V)>)
    requires
        distinct_keys(items),
    ensures
        entries_map(items).dom() == entry_keys(items).to_set(),
        entry_keys(items).no_duplicates(),
        entries_map(items).dom().finite(),
        entries_map(items).len() == items.len(),
{
    let ks = entry_keys(items);
    assert forall|k: Seq<char>| entries_map(items).dom().contains(k) <==> ks.to_set().contains(k) by {
        if entries_map(items).dom().contains(k) {
            let i = choose|i: int| key_at(items, k, i);
            assert(ks[i] == k);
        }
        if ks.to_set().contains(k) {
            let i = choose|i: int| 0 <= i < ks.len() && ks[i] == k;
            assert(key_at(items, k, i));
        }
    }
    assert(entries_map(items).dom() =~= ks.to_set());
    assert forall|i: int, j: int| 0 <= i < ks.len() && 0 <= j < ks.len() && i != j implies ks[i]
        != ks[j] by {
        assert(items[i].0@ == ks[i]);
        assert(items[j].0@ == ks[j]);
    }
    ks.unique_seq_to_set();
}

/// An association list of string keys in which no key occurs twice.
pub struct KeyedEntries<V> {
    items: Vec<(String, V)>,
}

impl<V> View for KeyedEntries<V> {
    type V = Map<Seq<char>, V>;

    closed spec fn view(&self) -> Map<Seq<char>, V> {
        entries_map(self.items@)
    }
}

impl<V> KeyedEntries<V> {
    #[verifier::type_invariant]
    closed spec fn keys_are_distinct(&self) -> bool {
        distinct_keys(self.items@)
    }

    /// An empty list.
    pub fn new() -> (e: Self)
        ensures
            e@ == Map::<Seq<char>, V>::empty(),
    {
        let e = KeyedEntries { items: Vec::new() };
        assert(e@ =~= Map::<Seq<char>, V>::empty());
        e
    }

    /// The position of the entry for `key`, if there is one.
    fn position(&self, key: &str) -> (pos: Option<usize>)
        ensures
            match pos {
                Some(i) => i < self.items@.len() && self.items@[i as int].0@ == key@,
                None => !self@.contains_key(key@),
            },
    {
        proof {
            use_type_invariant(self);
        }
        let wanted = key.to_owned();
        let mut i: usize = 0;
        while i < self.items.len()
            invariant
                0 <= i <= self.items@.len(),
                wanted@ == key@,
                forall|j: int| 0 <= j < i ==> self.items@[j].0@ != key@,
            decreases self.items@.len() - i,
        {
            if self.items[i].0 == wanted {
                return Some(i);
            }
            i = i + 1;
        }
        proof {
            if self@.contains_key(key@) {
                let j = choose|j: int| key_at(self.items@, key@, j);
                assert(self.items@[j].0@ != key@);
            }
        }
        None
    }

    /// The value stored under `key`.
    pub fn get(&self, key: &str) -> (found: Option<&V>)
        ensures
            match found {
                Some(v) => self@.contains_key(key@) && *v == self@[key@],
                None => !self@.contains_key(key@),
            },
    {
        proof {
            use_type_invariant(self);
        }
        match self.position(key) {
            Some(i) => {
                proof {
                    lemma_entry_in_map(self.items@, i as int);
                }
                Some(&self.items[i].1)
            },
            None => None,
        }
    }

    /// Whether an entry for `key` exists.
    pub fn contains(&self, key: &str) -> (present: bool)
        ensures
            present == self@.contains_key(key@),
    {
        proof {
            use_type_invariant(self);
        }
        match self.position(key) {
            Some(i) => {
                proof {
                    lemma_entry_in_map(self.items@, i as int);
                }
                true
            },
            None => false,
        }
    }

    /// Stores `value` under `key`, replacing what was there.
    pub fn set(&mut self, key: &str, value: V)
        ensures
            final(self)@ == old(self)@.insert(key@, value),
    {
        proof {
            use_type_invariant(&*self);
        }
        let pos = self.position(key);
        let mut items: Vec<(String, V)> = Vec::new();
        std::mem::swap(&mut items, &mut self.items);
        let ghost before = items@;
        match pos {
            Some(i) => {
                items.set(i, (key.to_owned(), value));
                proof {
                    let after = items@;
                    assert forall|a: int, b: int|
                        0 <= a < after.len() && 0 <= b < after.len() && after[a].0@
                            == after[b].0@ implies a == b by {
                        if a != i && b != i {
                            assert(before[a].0@ == before[b].0@);
                        } else if a == i && b != i {
                            assert(before[b].0@ == before[a].0@);
                        } else if a != i && b == i {
                            assert(before[a].0@ == before[b].0@);
                        }
                    }
                    assert forall|k: Seq<char>| #[trigger]
                        entries_map(after).contains_key(k) <==> entries_map(before).insert(
                            key@,
                            value,
                        ).contains_key(k) by {
                        if k == key@ {
                            assert(key_at(after, k, i as int));
                        } else {
                            if entries_map(before).contains_key(k) {
                                let j = choose|j: int| key_at(before, k, j);
                                assert(key_at(after, k, j));
                            }
                            if entries_map(after).contains_key(k) {
                                let j = choose|j: int| key_at(after, k, j);
                                assert(key_at(before, k, j));
                            }
                        }
                    }
                    assert forall|k: Seq<char>| #[trigger]
                        entries_map(after).contains_key(k) implies entries_map(after)[k]
                        == entries_map(before).insert(key@, value)[k] by {
                        let j = choose|j: int| key_at(after, k, j);
                        if k == key@ {
                            assert(j == i);
                        } else {
                            assert(key_at(before, k, j));
                            lemma_entry_in_map(before, j);
                        }
                    }
                    assert(entries_map(after) =~= entries_map(before).insert(key@, value));
                }
            },
            None => {
                items.push((key.to_owned(), value));
                proof {
                    let after = items@;
                    let n = before.len() as int;
                    assert forall|a: int, b: int|
                        0 <= a < after.len() && 0 <= b < after.len() && after[a].0@
                            == after[b].0@ implies a == b by {
                        if a < n && b < n {
                            assert(before[a].0@ == before[b].0@);
                        } else if a < n {
                            assert(key_at(before, key@, a));
                        } else if b < n {
                            assert(key_at(before, key@, b));
                        }
                    }
                    assert forall|k: Seq<char>| #[trigger]
                        entries_map(after).contains_key(k) <==> entries_map(before).insert(
                            key@,
                            value,
                        ).contains_key(k) by {
                        if k == key@ {
                            assert(key_at(after, k, n));
                        } else {
                            if entries_map(before).contains_key(k) {
                                let j = choose|j: int| key_at(before, k, j);
                                assert(key_at(after, k, j));
                            }
                            if entries_map(after).contains_key(k) {
                                let j = choose|j: int| key_at(after, k, j);
                                assert(key_at(before, k, j));
                            }
                        }
                    }
                    assert forall|k: Seq<char>| #[trigger]
                        entries_map(after).contains_key(k) implies entries_map(after)[k]
                        == entries_map(before).insert(key@, value)[k] by {
                        let j = choose|j: int| key_at(after, k, j);
                        if k == key@ {
                            assert(j == n);
                        } else {
                            assert(key_at(before, k, j));
                            lemma_entry_in_map(before, j);
                        }
                    }
                    assert(entries_map(after) =~= entries_map(before).insert(key@, value));
                }
            },
        }
        self.items = items;
    }

    /// Removes the entry for `key`; tells whether there was one.
    pub fn remove(&mut self, key: &str) -> (was_present: bool)
        ensures
            was_present == old(self)@.contains_key(key@),
            final(self)@ == old(self)@.remove(key@),
    {
        proof {
            use_type_invariant(&*self);
        }
        let pos = self.position(key);
        match pos {
            None => {
                assert(self@ =~= old(self)@.remove(key@));
                false
            },
            Some(i) => {
                proof {
                    lemma_entry_in_map(self.items@, i as int);
                }
                let mut items: Vec<(String, V)> = Vec::new();
                std::mem::swap(&mut items, &mut self.items);
                let ghost before = items@;
                let _removed = items.remove(i);
                proof {
                    let after = items@;
                    assert forall|a: int| 0 <= a < after.len() implies #[trigger] after[a] == (
                    if a < i {
                        before[a]
                    } else {
                        before[a + 1]
                    }) by {}
                    assert forall|a: int, b: int|
                        0 <= a < after.len() && 0 <= b < after.len() && after[a].0@
                            == after[b].0@ implies a == b by {
                        let a2 = if a < i {
                            a
                        } else {
                            a + 1
                        };
                        let b2 = if b < i {
                            b
                        } else {
                            b + 1
                        };
                        assert(before[a2].0@ == before[b2].0@);
                    }
                    assert forall|k: Seq<char>| #[trigger]
                        entries_map(after).contains_key(k) <==> entries_map(before).remove(
                            key@,
                        ).contains_key(k) by {
                        if entries_map(after).contains_key(k) {
                            let j = choose|j: int| key_at(after, k, j);
                            let j2 = if j < i {
                                j
                            } else {
                                j + 1
                            };
                            assert(key_at(before, k, j2));
                            if k == key@ {
                                assert(before[j2].0@ == before[i as int].0@);
                            }
                        }
                        if entries_map(before).remove(key@).contains_key(k) {
                            let j = choose|j: int| key_at(before, k, j);
                            assert(j != i);
                            let j2 = if j < i {
                                j
                            } else {
                                j - 1
                            };
                            assert(key_at(after, k, j2));
                        }
                    }
                    assert forall|k: Seq<char>| #[trigger]
                        entries_map(after).contains_key(k) implies entries_map(after)[k]
                        == entries_map(before).remove(key@)[k] by {
                        let j = choose|j: int| key_at(after, k, j);
                        let j2 = if j < i {
                            j
                        } else {
                            j + 1
                        };
                        assert(key_at(before, k, j2));
                        lemma_entry_in_map(before, j2);
                    }
                    assert(entries_map(after) =~= entries_map(before).remove(key@));
                }
                self.items = items;
                true
            },
        }
    }

    /// Drops every entry.
    pub fn clear(&mut self)
        ensures
            final(self)@ == Map::<Seq<char>, V>::empty(),
    {
        self.items = Vec::new();
        assert(self@ =~= Map::<Seq<char>, V>::empty());
    }

    /// The number of entries.
    pub fn len(&self) -> (n: usize)
        ensures
            n == self@.len(),
            self@.dom().finite(),
    {
        proof {
            use_type_invariant(self);
            lemma_map_domain(self.items@);
        }
        self.items.len()
    }

    /// The keys, each once.
    pub fn keys(&self) -> (keys: Vec<String>)
        ensures
            keys@.map_values(|k: String| k@).no_duplicates(),
            keys@.map_values(|k: String| k@).to_set() == self@.dom(),
            keys@.len() == self@.len(),
    {
        proof {
            use_type_invariant(self);
            lemma_map_domain(self.items@);
        }
        let mut keys: Vec<String> = Vec::new();
        let mut i: usize = 0;
        while i < self.items.len()
            invariant
                0 <= i <= self.items@.len(),
                keys@.len() == i,
                keys@.map_values(|k: String| k@) == entry_keys(self.items@).take(i as int),
            decreases self.items@.len() - i,
        {
            let ghost prev = keys@;
            keys.push(self.items[i].0.clone());
            proof {
                assert(keys@ == prev.push(keys@[i as int]));
                assert(keys@[i as int]@ == entry_keys(self.items@)[i as int]);
                assert forall|j: int| 0 <= j < i implies #[trigger] keys@[j]@ == entry_keys(
                    self.items@,
                )[j] by {
                    assert(prev.map_values(|k: String| k@)[j] == entry_keys(self.items@).take(
                        i as int,
                    )[j]);
                }
                assert(keys@.map_values(|k: String| k@) =~= entry_keys(self.items@).take(
                    i + 1,
                ));
            }
            i = i + 1;
        }
        assert(entry_keys(self.items@).take(i as int) =~= entry_keys(self.items@));
        keys
    }

    /// The entries as pairs, in the order they are kept.
    pub fn into_pairs(self) -> (pairs: Vec<(String, V)>)
        ensures
            distinct_keys(pairs@),
            entries_map(pairs@) == self@,
    {
        proof {
            use_type_invariant(&self);
        }
        self.items
    }
}

} // verus!
