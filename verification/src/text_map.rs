//! A map with string keys.
use vstd::prelude::*;

verus! {

/// A map from strings to values, kept as a list of entries with distinct keys.
pub struct TextMap<V> {
    entries: Vec<(String, V)>,
}

/// Whether some entry has the key.
spec fn has_key<V>(entries: Seq<(String, V)>, key: Seq<char>) -> bool {
    exists|i: int| 0 <= i < entries.len() && #[trigger] entries[i].0@ == key
}

/// The place of an entry with the key.
spec fn place<V>(entries: Seq<(String, V)>, key: Seq<char>) -> int {
    choose|i: int| 0 <= i < entries.len() && #[trigger] entries[i].0@ == key
}

/// No two entries have the same key.
spec fn distinct_keys<V>(entries: Seq<(String, V)>) -> bool {
    forall|i: int, j: int|
        0 <= i < j < entries.len() ==> #[trigger] entries[i].0@ != #[trigger] entries[j].0@
}

/// The map that the entries stand for.
spec fn as_map<V: View>(entries: Seq<(String, V)>) -> Map<Seq<char>, V::V> {
    Map::new(
        |key: Seq<char>| has_key(entries, key),
        |key: Seq<char>| entries[place(entries, key)].1@,
    )
}

/// The map holds every entry.
proof fn lemma_entry<V: View>(entries: Seq<(String, V)>, i: int)
    requires
        distinct_keys(entries),
        0 <= i < entries.len(),
    ensures
        as_map(entries).contains_key(entries[i].0@),
        as_map(entries)[entries[i].0@] == entries[i].1@,
        place(entries, entries[i].0@) == i,
{
    let key = entries[i].0@;
    assert(has_key(entries, key));
    let j = place(entries, key);
    assert(entries[j].0@ == key);
    if j < i {
        assert(entries[j].0@ != entries[i].0@);
    } else if i < j {
        assert(entries[i].0@ != entries[j].0@);
    }
}

impl<V: View> View for TextMap<V> {
    type V = Map<Seq<char>, V::V>;

    closed spec fn view(&self) -> Map<Seq<char>, V::V> {
        as_map(self.entries@)
    }
}

impl<V> TextMap<V> {
    #[verifier::type_invariant]
    closed spec fn well_formed(self) -> bool {
        distinct_keys(self.entries@)
    }
}

impl<V: View> TextMap<V> {
    /// An empty map.
    pub fn new() -> (map: Self)
        ensures
            map@ == Map::<Seq<char>, V::V>::empty(),
    {
        let map = TextMap { entries: Vec::new() };
        assert(map@ =~= Map::<Seq<char>, V::V>::empty());
        map
    }

    /// The place of the entry of `key`.
    fn find(&self, key: &str) -> (found: Option<usize>)
        ensures
            match found {
                Some(i) => i < self.entries@.len() && self.entries@[i as int].0@ == key@,
                None => !has_key(self.entries@, key@),
            },
    {
        let wanted: String = key.to_owned();
        let mut i: usize = 0;
        while i < self.entries.len()
            invariant
                wanted@ == key@,
                i <= self.entries@.len(),
                forall|j: int| 0 <= j < i ==> #[trigger] self.entries@[j].0@ != key@,
            decreases self.entries@.len() - i,
        {
            if self.entries[i].0 == wanted {
                return Some(i);
            }
            i += 1;
        }
        None
    }

    /// Whether the map is empty.
    pub fn is_empty(&self) -> (empty: bool)
        ensures
            empty == (self@ == Map::<Seq<char>, V::V>::empty()),
    {
        proof {
            use_type_invariant(self);
            if self.entries@.len() == 0 {
                assert(self@ =~= Map::<Seq<char>, V::V>::empty());
            } else {
                lemma_entry(self.entries@, 0);
            }
        }
        self.entries.len() == 0
    }

    /// The value of `key`.
    pub fn get(&self, key: &str) -> (value: Option<&V>)
        ensures
            match value {
                Some(v) => self@.contains_key(key@) && v@ == self@[key@],
                None => !self@.contains_key(key@),
            },
    {
        proof {
            use_type_invariant(self);
        }
        match self.find(key) {
            Some(i) => {
                proof {
                    lemma_entry(self.entries@, i as int);
                }
                Some(&self.entries[i].1)
            },
            None => None,
        }
    }

    /// Gives `key` the value `value`, in place of the one it had.
    pub fn insert(&mut self, key: String, value: V)
        ensures
            final(self)@ == old(self)@.insert(key@, value@),
    {
        proof {
            use_type_invariant(&*self);
        }
        let found = self.find(key.as_str());
        let mut entries: Vec<(String, V)> = Vec::new();
        core::mem::swap(&mut entries, &mut self.entries);
        let ghost before = entries@;
        let ghost entry: (String, V) = (key, value);
        match found {
            Some(i) => {
                entries[i].1 = value;
                proof {
                    lemma_replaced(before, entries@, i as int);
                }
            },
            None => {
                entries.push((key, value));
                proof {
                    lemma_added(before, entry);
                }
            },
        }
        self.entries = entries;
    }

    /// Takes the entry of `key` out of the map.
    pub fn remove(&mut self, key: &str) -> (value: Option<V>)
        ensures
            match value {
                Some(v) => old(self)@.contains_key(key@) && v@ == old(self)@[key@],
                None => !old(self)@.contains_key(key@),
            },
            final(self)@ == old(self)@.remove(key@),
    {
        proof {
            use_type_invariant(&*self);
        }
        let found = self.find(key);
        match found {
            Some(i) => {
                let mut entries: Vec<(String, V)> = Vec::new();
                core::mem::swap(&mut entries, &mut self.entries);
                let ghost before = entries@;
                proof {
                    lemma_entry(before, i as int);
                    lemma_removed(before, i as int);
                }
                let (_, value) = entries.remove(i);
                self.entries = entries;
                Some(value)
            },
            None => {
                assert(self@.remove(key@) =~= self@);
                None
            },
        }
    }

    /// Takes all entries out of the map.
    pub fn drain(&mut self) -> (entries: Vec<(String, V)>)
        ensures
            final(self)@ == Map::<Seq<char>, V::V>::empty(),
            forall|i: int, j: int|
                0 <= i < j < entries@.len() ==> #[trigger] entries@[i].0@
                    != #[trigger] entries@[j].0@,
            forall|i: int|
                0 <= i < entries@.len() ==> old(self)@.contains_key(#[trigger] entries@[i].0@)
                    && old(self)@[entries@[i].0@] == entries@[i].1@,
            forall|key: Seq<char>| #[trigger]
                old(self)@.contains_key(key) ==> exists|i: int|
                    0 <= i < entries@.len() && #[trigger] entries@[i].0@ == key,
    {
        proof {
            use_type_invariant(&*self);
        }
        let mut entries: Vec<(String, V)> = Vec::new();
        core::mem::swap(&mut entries, &mut self.entries);
        proof {
            assert(self@ =~= Map::<Seq<char>, V::V>::empty());
            assert forall|i: int| 0 <= i < entries@.len() implies old(self)@.contains_key(
                #[trigger] entries@[i].0@,
            ) && old(self)@[entries@[i].0@] == entries@[i].1@ by {
                lemma_entry(entries@, i);
            }
        }
        entries
    }
}

/// Changing the value of one entry changes the map at its key alone.
proof fn lemma_replaced<V: View>(before: Seq<(String, V)>, after: Seq<(String, V)>, i: int)
    requires
        distinct_keys(before),
        0 <= i < before.len(),
        after == before.update(i, (before[i].0, after[i].1)),
    ensures
        distinct_keys(after),
        as_map(after) == as_map(before).insert(before[i].0@, after[i].1@),
{
    let key = before[i].0@;
    assert(forall|j: int| 0 <= j < before.len() ==> after[j].0 == before[j].0);
    lemma_entry(after, i);
    assert forall|k: Seq<char>| has_key(after, k) == has_key(before, k) by {
        if has_key(before, k) {
            assert(after[place(before, k)].0@ == k);
        }
        if has_key(after, k) {
            assert(before[place(after, k)].0@ == k);
        }
    }
    assert forall|k: Seq<char>| has_key(before, k) && k != key implies as_map(after)[k] == as_map(
        before,
    )[k] by {
        let j = place(before, k);
        assert(before[j].0@ == k);
        lemma_entry(before, j);
        lemma_entry(after, j);
    }
    assert(has_key(before, key));
    assert(as_map(after) =~= as_map(before).insert(key, after[i].1@));
}

/// Appending an entry with a new key adds it to the map.
proof fn lemma_added<V: View>(before: Seq<(String, V)>, entry: (String, V))
    requires
        distinct_keys(before),
        !has_key(before, entry.0@),
    ensures
        distinct_keys(before.push(entry)),
        as_map(before.push(entry)) == as_map(before).insert(entry.0@, entry.1@),
{
    let after = before.push(entry);
    let last = before.len() as int;
    assert forall|i: int, j: int| 0 <= i < j < after.len() implies #[trigger] after[i].0@
        != #[trigger] after[j].0@ by {
        if j == last {
            assert(before[i].0@ != entry.0@);
        } else {
            assert(before[i].0@ != before[j].0@);
        }
    }
    lemma_entry(after, last);
    assert forall|k: Seq<char>|
        has_key(after, k) == (has_key(before, k) || k == entry.0@) by {
        if has_key(before, k) {
            assert(after[place(before, k)].0@ == k);
        }
        if has_key(after, k) && k != entry.0@ {
            assert(before[place(after, k)].0@ == k);
        }
        if k == entry.0@ {
            assert(after[last].0@ == k);
        }
    }
    assert forall|k: Seq<char>| has_key(before, k) implies as_map(after)[k] == as_map(
        before,
    )[k] by {
        let j = place(before, k);
        assert(before[j].0@ == k);
        lemma_entry(before, j);
        lemma_entry(after, j);
    }
    assert(as_map(after) =~= as_map(before).insert(entry.0@, entry.1@));
}

/// Taking an entry out takes its key out of the map.
proof fn lemma_removed<V: View>(before: Seq<(String, V)>, i: int)
    requires
        distinct_keys(before),
        0 <= i < before.len(),
    ensures
        distinct_keys(before.remove(i)),
        as_map(before.remove(i)) == as_map(before).remove(before[i].0@),
{
    let after = before.remove(i);
    let key = before[i].0@;
    assert forall|j: int, k: int| 0 <= j < k < after.len() implies #[trigger] after[j].0@
        != #[trigger] after[k].0@ by {
        let from_j = if j < i { j } else { j + 1 };
        let from_k = if k < i { k } else { k + 1 };
        assert(before[from_j].0@ != before[from_k].0@);
    }
    assert forall|k: Seq<char>| has_key(after, k) == (has_key(before, k) && k != key) by {
        if has_key(before, k) && k != key {
            let j = place(before, k);
            assert(before[j].0@ == k);
            let to = if j < i { j } else { j - 1 };
            assert(after[to].0@ == k);
        }
        if has_key(after, k) {
            let j = place(after, k);
            assert(after[j].0@ == k);
            let from = if j < i { j } else { j + 1 };
            assert(before[from].0@ == k);
            if from < i {
                assert(before[from].0@ != before[i].0@);
            } else {
                assert(before[i].0@ != before[from].0@);
            }
        }
    }
    assert forall|k: Seq<char>| has_key(after, k) implies as_map(after)[k] == as_map(before)[k] by {
        let j = place(after, k);
        assert(after[j].0@ == k);
        let from = if j < i { j } else { j + 1 };
        lemma_entry(before, from);
        lemma_entry(after, j);
    }
    assert(as_map(after) =~= as_map(before).remove(key));
}

} // verus!
