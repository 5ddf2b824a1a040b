//! A map keyed by strings, kept as a list of entries with distinct keys.

use vstd::prelude::*;

verus! {

/// One key with its value.
pub struct Entry<V> {
    pub key: String,
    pub value: V,
}

/// No two entries share a key.
pub open spec fn distinct_keys<V>(entries: Seq<Entry<V>>) -> bool {
    forall|i: int, j: int|
        0 <= i < j < entries.len() ==> (#[trigger] entries[i]).key@ != (#[trigger] entries[j]).key@
}

/// Whether some entry carries `key`.
pub open spec fn has_key<V>(entries: Seq<Entry<V>>, key: Seq<char>) -> bool {
    exists|i: int| 0 <= i < entries.len() && (#[trigger] entries[i]).key@ == key
}

/// The place of an entry that carries `key`.
pub open spec fn place_of<V>(entries: Seq<Entry<V>>, key: Seq<char>) -> int {
    choose|i: int| 0 <= i < entries.len() && (#[trigger] entries[i]).key@ == key
}

/// The map that a list of entries stands for.
pub open spec fn as_map<V>(entries: Seq<Entry<V>>) -> Map<Seq<char>, V> {
    Map::new(
        |key: Seq<char>| has_key(entries, key),
        |key: Seq<char>| entries[place_of(entries, key)].value,
    )
}

/// In a list with distinct keys, an entry is found at its own place.
pub proof fn lemma_entry_found<V>(entries: Seq<Entry<V>>, i: int)
    requires
        distinct_keys(entries),
        0 <= i < entries.len(),
    ensures
        has_key(entries, entries[i].key@),
        place_of(entries, entries[i].key@) == i,
        as_map(entries).contains_key(entries[i].key@),
        as_map(entries)[entries[i].key@] == entries[i].value,
{
    let key = entries[i].key@;
    assert(has_key(entries, key));
    let j = place_of(entries, key);
    assert(0 <= j < entries.len() && entries[j].key@ == key);
    if j < i {
        assert(entries[j].key@ != entries[i].key@);
    } else if i < j {
        assert(entries[i].key@ != entries[j].key@);
    }
}

/// Adding an entry with a fresh key adds that key to the map.
pub proof fn lemma_push_entry<V>(entries: Seq<Entry<V>>, entry: Entry<V>)
    requires
        distinct_keys(entries),
        !has_key(entries, entry.key@),
    ensures
        distinct_keys(entries.push(entry)),
        as_map(entries.push(entry)) == as_map(entries).insert(entry.key@, entry.value),
{
    let longer = entries.push(entry);
    assert forall|i: int, j: int| 0 <= i < j < longer.len() implies (#[trigger] longer[i]).key@ != (
    #[trigger] longer[j]).key@ by {
        if j < entries.len() {
            assert(entries[i].key@ != entries[j].key@);
        } else {
            assert(longer[i] == entries[i]);
        }
    }
    assert forall|key: Seq<char>| has_key(longer, key) <==> (has_key(entries, key) || key
        == entry.key@) by {
        if has_key(longer, key) {
            let i = place_of(longer, key);
            if i < entries.len() {
                assert(entries[i].key@ == key);
            }
        }
        if has_key(entries, key) {
            let i = place_of(entries, key);
            assert(longer[i].key@ == key);
        }
        if key == entry.key@ {
            assert(longer[entries.len() as int].key@ == key);
        }
    }
    assert forall|key: Seq<char>| has_key(longer, key) implies as_map(longer)[key] == as_map(
        entries,
    ).insert(entry.key@, entry.value)[key] by {
        if key == entry.key@ {
            lemma_entry_found(longer, entries.len() as int);
        } else {
            let i = place_of(entries, key);
            lemma_entry_found(entries, i);
            assert(longer[i] == entries[i]);
            lemma_entry_found(longer, i);
        }
    }
    assert(as_map(longer) =~= as_map(entries).insert(entry.key@, entry.value));
}

/// Taking an entry out takes its key out of the map.
pub proof fn lemma_remove_entry<V>(entries: Seq<Entry<V>>, i: int)
    requires
        distinct_keys(entries),
        0 <= i < entries.len(),
    ensures
        distinct_keys(entries.remove(i)),
        !has_key(entries.remove(i), entries[i].key@),
        as_map(entries.remove(i)) == as_map(entries).remove(entries[i].key@),
{
    let shorter = entries.remove(i);
    let gone = entries[i].key@;
    assert forall|a: int| 0 <= a < shorter.len() implies #[trigger] shorter[a] == entries[if a
        < i {
        a
    } else {
        a + 1
    }] by {}
    assert forall|a: int, b: int| 0 <= a < b < shorter.len() implies (#[trigger] shorter[a]).key@
        != (#[trigger] shorter[b]).key@ by {
        let a0 = if a < i { a } else { a + 1 };
        let b0 = if b < i { b } else { b + 1 };
        assert(entries[a0].key@ != entries[b0].key@);
    }
    assert forall|key: Seq<char>| has_key(shorter, key) <==> (has_key(entries, key) && key
        != gone) by {
        if has_key(shorter, key) {
            let a = place_of(shorter, key);
            let a0 = if a < i { a } else { a + 1 };
            assert(entries[a0].key@ == key);
            if a0 < i {
                assert(entries[a0].key@ != entries[i].key@);
            } else {
                assert(entries[i].key@ != entries[a0].key@);
            }
        }
        if has_key(entries, key) && key != gone {
            let a0 = place_of(entries, key);
            let a = if a0 < i { a0 } else { a0 - 1 };
            assert(shorter[a].key@ == key);
        }
    }
    assert forall|key: Seq<char>| has_key(shorter, key) implies as_map(shorter)[key] == as_map(
        entries,
    )[key] by {
        let a = place_of(shorter, key);
        let a0 = if a < i { a } else { a + 1 };
        lemma_entry_found(shorter, a);
        lemma_entry_found(entries, a0);
    }
    assert(as_map(shorter) =~= as_map(entries).remove(gone));
}

/// A list with distinct keys stands for a finite map with one key per entry.
pub proof fn lemma_map_size<V>(entries: Seq<Entry<V>>)
    requires
        distinct_keys(entries),
    ensures
        as_map(entries).dom().finite(),
        as_map(entries).dom().len() == entries.len(),
    decreases entries.len(),
{
    if entries.len() == 0 {
        assert(as_map(entries).dom() =~= Set::<Seq<char>>::empty());
    } else {
        let last = entries.last();
        let front = entries.drop_last();
        lemma_remove_entry(entries, entries.len() - 1);
        assert(front =~= entries.remove(entries.len() - 1));
        lemma_map_size(front);
        lemma_push_entry(front, last);
        assert(entries =~= front.push(last));
        assert(as_map(entries).dom() =~= as_map(front).dom().insert(last.key@));
        assert(!as_map(front).dom().contains(last.key@));
    }
}

/// A map from strings to values.
pub struct KeyedMap<V> {
    entries: Vec<Entry<V>>,
}

impl<V> View for KeyedMap<V> {
    type V = Map<Seq<char>, V>;

    closed spec fn view(&self) -> Map<Seq<char>, V> {
        as_map(self.entries@)
    }
}

impl<V> Default for KeyedMap<V> {
    /// The empty map.
    fn default() -> (m: Self)
        ensures
            m@ == Map::<Seq<char>, V>::empty(),
    {
        KeyedMap::new()
    }
}

impl<V> KeyedMap<V> {
    #[verifier::type_invariant]
    spec fn well_formed(self) -> bool {
        distinct_keys(self.entries@)
    }

    /// The empty map.
    pub fn new() -> (m: Self)
        ensures
            m@ == Map::<Seq<char>, V>::empty(),
    {
        let m = KeyedMap { entries: Vec::new() };
        assert(m@ =~= Map::<Seq<char>, V>::empty());
        m
    }

    /// The place of the entry with `key`, if there is one.
    fn find(&self, key: &str) -> (place: Option<usize>)
        ensures
            match place {
                Some(i) => i < self.entries.len() && self.entries[i as int].key@ == key@,
                None => !has_key(self.entries@, key@),
            },
    {
        let wanted = key.to_owned();
        let mut i: usize = 0;
        while i < self.entries.len()
            invariant
                i <= self.entries.len(),
                wanted@ == key@,
                forall|j: int| 0 <= j < i ==> (#[trigger] self.entries[j]).key@ != key@,
            decreases self.entries.len() - i,
        {
            if self.entries[i].key == wanted {
                return Some(i);
            }
            i += 1;
        }
        None
    }

    /// Whether `key` has a value.
    pub fn contains_key(&self, key: &str) -> (present: bool)
        ensures
            present == self@.contains_key(key@),
    {
        self.find(key).is_some()
    }

    /// The value of `key`, if it has one.
    pub fn get(&self, key: &str) -> (value: Option<&V>)
        ensures
            value == (if self@.contains_key(key@) {
                Some(&self@[key@])
            } else {
                None
            }),
    {
        proof {
            use_type_invariant(self);
        }
        match self.find(key) {
            Some(i) => {
                assert(has_key(self.entries@, key@));
                assert(place_of(self.entries@, key@) == i as int);
                Some(&self.entries[i].value)
            },
            None => None,
        }
    }
    /// The number of keys.
    pub fn len(&self) -> (n: usize)
        ensures
            self@.dom().finite(),
            n == self@.dom().len(),
    {
        proof {
            use_type_invariant(self);
            lemma_map_size(self.entries@);
        }
        self.entries.len()
    }

    /// Whether the map has no key.
    pub fn is_empty(&self) -> (empty: bool)
        ensures
            empty == (self@ == Map::<Seq<char>, V>::empty()),
    {
        proof {
            use_type_invariant(self);
            lemma_map_size(self.entries@);
            if self.entries.len() == 0 {
                assert(self@ =~= Map::<Seq<char>, V>::empty());
            }
        }
        self.entries.len() == 0
    }

    /// Gives `key` the value `value`, and hands back the value it had.
    pub fn insert(&mut self, key: String, value: V) -> (previous: Option<V>)
        ensures
            final(self)@ == old(self)@.insert(key@, value),
            previous == (if old(self)@.contains_key(key@) {
                Some(old(self)@[key@])
            } else {
                None
            }),
    {
        proof {
            use_type_invariant(&*self);
        }
        let place = self.find(key.as_str());
        let ghost before = self.entries@;
        let mut entries = Vec::new();
        std::mem::swap(&mut entries, &mut self.entries);
        let previous = match place {
            Some(i) => {
                proof {
                    lemma_entry_found(before, i as int);
                    lemma_remove_entry(before, i as int);
                }
                let entry = entries.remove(i);
                Some(entry.value)
            },
            None => None,
        };
        proof {
            lemma_push_entry(entries@, Entry { key, value });
            assert(as_map(before).remove(key@).insert(key@, value) =~= as_map(before).insert(
                key@,
                value,
            ));
        }
        entries.push(Entry { key, value });
        self.entries = entries;
        previous
    }

    /// Takes `key` out, and hands back the value it had.
    pub fn remove(&mut self, key: &str) -> (previous: Option<V>)
        ensures
            final(self)@ == old(self)@.remove(key@),
            previous == (if old(self)@.contains_key(key@) {
                Some(old(self)@[key@])
            } else {
                None
            }),
    {
        proof {
            use_type_invariant(&*self);
        }
        let place = self.find(key);
        let ghost before = self.entries@;
        match place {
            Some(i) => {
                proof {
                    lemma_entry_found(before, i as int);
                    lemma_remove_entry(before, i as int);
                }
                let mut entries = Vec::new();
                std::mem::swap(&mut entries, &mut self.entries);
                let entry = entries.remove(i);
                self.entries = entries;
                Some(entry.value)
            },
            None => {
                assert(as_map(before).remove(key@) =~= as_map(before));
                None
            },
        }
    }

    /// The keys, each once, in no order that callers may rely on.
    pub fn keys(&self) -> (keys: Vec<String>)
        ensures
            self@.dom().finite(),
            keys.len() == self@.dom().len(),
            forall|i: int| 0 <= i < keys.len() ==> self@.contains_key(#[trigger] keys[i]@),
            forall|key: Seq<char>|
                self@.contains_key(key) ==> exists|i: int|
                    0 <= i < keys.len() && #[trigger] keys[i]@ == key,
            forall|i: int, j: int| 0 <= i < j < keys.len() ==> keys[i]@ != keys[j]@,
    {
        proof {
            use_type_invariant(self);
            lemma_map_size(self.entries@);
        }
        let mut keys: Vec<String> = Vec::new();
        let mut i: usize = 0;
        while i < self.entries.len()
            invariant
                i <= self.entries.len(),
                keys.len() == i,
                forall|j: int| 0 <= j < i ==> (#[trigger] keys[j])@ == self.entries[j].key@,
            decreases self.entries.len() - i,
        {
            keys.push(self.entries[i].key.clone());
            i += 1;
        }
        proof {
            assert forall|j: int| 0 <= j < keys.len() implies self@.contains_key(
                #[trigger] keys[j]@,
            ) by {
                lemma_entry_found(self.entries@, j);
            }
            assert forall|key: Seq<char>| self@.contains_key(key) implies exists|j: int|
                0 <= j < keys.len() && #[trigger] keys[j]@ == key by {
                let j = place_of(self.entries@, key);
                assert(keys[j]@ == key);
            }
            assert forall|a: int, b: int| 0 <= a < b < keys.len() implies keys[a]@ != keys[b]@ by {
                assert(self.entries[a].key@ != self.entries[b].key@);
            }
        }
        keys
    }
}

impl KeyedMap<String> {
    /// The map with each value read as its text.
    pub open spec fn texts(&self) -> Map<Seq<char>, Seq<char>> {
        self@.map_values(|value: String| value@)
    }
}

impl<V: Clone> Clone for KeyedMap<V> {
    /// A second map with the same keys, each with a clone of its value.
    fn clone(&self) -> (copy: Self)
        ensures
            copy@.dom() == self@.dom(),
            forall|key: Seq<char>| #[trigger]
                copy@.contains_key(key) ==> cloned::<V>(self@[key], copy@[key]),
    {
        proof {
            use_type_invariant(self);
        }
        let mut entries: Vec<Entry<V>> = Vec::new();
        let mut i: usize = 0;
        while i < self.entries.len()
            invariant
                i <= self.entries.len(),
                entries.len() == i,
                forall|j: int|
                    0 <= j < i ==> (#[trigger] entries[j]).key@ == self.entries[j].key@
                        && cloned::<V>(self.entries[j].value, entries[j].value),
            decreases self.entries.len() - i,
        {
            let entry = &self.entries[i];
            entries.push(Entry { key: entry.key.clone(), value: entry.value.clone() });
            i += 1;
        }
        proof {
            assert forall|a: int, b: int| 0 <= a < b < entries.len() implies (
            #[trigger] entries[a]).key@ != (#[trigger] entries[b]).key@ by {
                assert(self.entries[a].key@ != self.entries[b].key@);
            }
            assert forall|key: Seq<char>| has_key(entries@, key) <==> has_key(
                self.entries@,
                key,
            ) by {
                if has_key(entries@, key) {
                    let j = place_of(entries@, key);
                    assert(self.entries[j].key@ == key);
                }
                if has_key(self.entries@, key) {
                    let j = place_of(self.entries@, key);
                    assert(entries[j].key@ == key);
                }
            }
            assert(as_map(entries@).dom() =~= as_map(self.entries@).dom());
            assert forall|key: Seq<char>| #[trigger]
                as_map(entries@).contains_key(key) implies cloned::<V>(
                as_map(self.entries@)[key],
                as_map(entries@)[key],
            ) by {
                let j = place_of(entries@, key);
                lemma_entry_found(entries@, j);
                lemma_entry_found(self.entries@, j);
            }
        }
        KeyedMap { entries }
    }
}

} // verus!
