//! Maps from texts.

use vstd::prelude::*;

use crate::text::same;

verus! {

/// A map from texts to values.
#[derive(Debug)]
pub struct TextMap<V> {
    entries: Vec<(String, V)>,
}

spec fn distinct_keys<V>(entries: Seq<(String, V)>) -> bool {
    forall|i: int, j: int|
        0 <= i < j < entries.len() ==> (#[trigger] entries[i]).0@ != (#[trigger] entries[j]).0@
}

spec fn map_of<V>(entries: Seq<(String, V)>) -> Map<Seq<char>, V>
    decreases entries.len(),
{
    if entries.len() == 0 {
        Map::empty()
    } else {
        map_of(entries.drop_last()).insert(entries.last().0@, entries.last().1)
    }
}

proof fn lemma_map_of<V>(entries: Seq<(String, V)>)
    requires
        distinct_keys(entries),
    ensures
        forall|i: int|
            0 <= i < entries.len() ==> map_of(entries).contains_key((#[trigger] entries[i]).0@)
                && map_of(entries)[entries[i].0@] == entries[i].1,
        forall|key: Seq<char>| #[trigger]
            map_of(entries).contains_key(key) ==> exists|i: int|
                0 <= i < entries.len() && (#[trigger] entries[i]).0@ == key,
        map_of(entries).dom().finite(),
        map_of(entries).len() == entries.len(),
    decreases entries.len(),
{
    if entries.len() > 0 {
        let rest = entries.drop_last();
        lemma_map_of(rest);
        let last = entries.last();
        assert(!map_of(rest).contains_key(last.0@));
        assert forall|i: int| 0 <= i < entries.len() implies map_of(entries).contains_key(
            (#[trigger] entries[i]).0@,
        ) && map_of(entries)[entries[i].0@] == entries[i].1 by {
            if i < rest.len() {
                assert(rest[i] == entries[i]);
            }
        }
        assert forall|key: Seq<char>| #[trigger] map_of(entries).contains_key(key) implies exists|
            i: int,
        |
            0 <= i < entries.len() && (#[trigger] entries[i]).0@ == key by {
            if key == last.0@ {
                assert(entries[entries.len() - 1].0@ == key);
            } else {
                let i = choose|i: int| 0 <= i < rest.len() && (#[trigger] rest[i]).0@ == key;
                assert(entries[i].0@ == key);
            }
        }
    }
}

/// Changing one value changes the map at its key alone.
proof fn lemma_update<V>(entries: Seq<(String, V)>, at: int, entry: (String, V))
    requires
        distinct_keys(entries),
        0 <= at < entries.len(),
        entry.0@ == entries[at].0@,
    ensures
        distinct_keys(entries.update(at, entry)),
        map_of(entries.update(at, entry)) == map_of(entries).insert(entry.0@, entry.1),
{
    let after = entries.update(at, entry);
    assert forall|i: int, j: int| 0 <= i < j < after.len() implies (#[trigger] after[i]).0@ != (
    #[trigger] after[j]).0@ by {
        assert(entries[i].0@ != entries[j].0@);
    }
    lemma_map_of(entries);
    lemma_map_of(after);
    let wanted = map_of(entries).insert(entry.0@, entry.1);
    assert forall|key: Seq<char>| #[trigger] map_of(after).contains_key(key) == wanted.contains_key(
        key,
    ) by {
        if map_of(after).contains_key(key) {
            let i = choose|i: int| 0 <= i < after.len() && (#[trigger] after[i]).0@ == key;
            assert(entries[i].0@ == key);
        }
        if map_of(entries).contains_key(key) {
            let i = choose|i: int| 0 <= i < entries.len() && (#[trigger] entries[i]).0@ == key;
            assert(after[i].0@ == key);
        }
        assert(after[at].0@ == entry.0@);
    }
    assert forall|key: Seq<char>| #[trigger] map_of(after).contains_key(key) implies map_of(
        after,
    )[key] == wanted[key] by {
        let i = choose|i: int| 0 <= i < after.len() && (#[trigger] after[i]).0@ == key;
        if i != at {
            assert(after[i] == entries[i]);
            assert(entries[i].0@ != entry.0@) by {
                if i < at {
                    assert(entries[i].0@ != entries[at].0@);
                } else {
                    assert(entries[at].0@ != entries[i].0@);
                }
            }
        }
    }
    assert(map_of(after) =~= wanted);
}

proof fn lemma_push<V>(entries: Seq<(String, V)>, entry: (String, V))
    requires
        distinct_keys(entries),
        forall|i: int| 0 <= i < entries.len() ==> (#[trigger] entries[i]).0@ != entry.0@,
    ensures
        distinct_keys(entries.push(entry)),
        map_of(entries.push(entry)) == map_of(entries).insert(entry.0@, entry.1),
{
    assert(entries.push(entry).drop_last() =~= entries);
}

impl<V> View for TextMap<V> {
    type V = Map<Seq<char>, V>;

    closed spec fn view(&self) -> Map<Seq<char>, V> {
        map_of(self.entries@)
    }
}

impl<V> TextMap<V> {
    /// Whether every key is there once.
    pub closed spec fn well_formed(&self) -> bool {
        distinct_keys(self.entries@)
    }

    pub fn new() -> (map: Self)
        ensures
            map.well_formed(),
            map@ == Map::<Seq<char>, V>::empty(),
    {
        TextMap { entries: Vec::new() }
    }

    fn place_of(&self, key: &str) -> (at: Option<usize>)
        requires
            self.well_formed(),
        ensures
            match at {
                Some(at) => at < self.entries@.len() && self.entries@[at as int].0@ == key@
                    && self@.contains_key(key@) && self@[key@] == self.entries@[at as int].1,
                None => !self@.contains_key(key@) && forall|i: int|
                    0 <= i < self.entries@.len() ==> (#[trigger] self.entries@[i]).0@ != key@,
            },
    {
        proof {
            lemma_map_of(self.entries@);
        }
        let mut i: usize = 0;
        while i < self.entries.len()
            invariant
                i <= self.entries.len(),
                forall|j: int| 0 <= j < i ==> (#[trigger] self.entries@[j]).0@ != key@,
                forall|j: int|
                    0 <= j < self.entries@.len() ==> self@.contains_key(
                        (#[trigger] self.entries@[j]).0@,
                    ) && self@[self.entries@[j].0@] == self.entries@[j].1,
            decreases self.entries.len() - i,
        {
            if same(self.entries[i].0.as_str(), key) {
                return Some(i);
            }
            i += 1;
        }
        None
    }

    /// The value at a key.
    pub fn get(&self, key: &str) -> (value: Option<&V>)
        requires
            self.well_formed(),
        ensures
            match value {
                Some(value) => self@.contains_key(key@) && *value == self@[key@],
                None => !self@.contains_key(key@),
            },
    {
        match self.place_of(key) {
            Some(at) => Some(&self.entries[at].1),
            None => None,
        }
    }

    /// Sets the value at a key.
    pub fn insert(&mut self, key: String, value: V)
        requires
            old(self).well_formed(),
        ensures
            final(self).well_formed(),
            final(self)@ == old(self)@.insert(key@, value),
    {
        match self.place_of(key.as_str()) {
            Some(at) => {
                proof {
                    lemma_update(self.entries@, at as int, (key, value));
                }
                self.entries.set(at, (key, value));
            },
            None => {
                proof {
                    lemma_push(self.entries@, (key, value));
                }
                self.entries.push((key, value));
            },
        }
    }

    /// Takes the value at a key out.
    pub fn remove(&mut self, key: &str) -> (value: Option<V>)
        requires
            old(self).well_formed(),
        ensures
            final(self).well_formed(),
            final(self)@ == old(self)@.remove(key@),
            match value {
                Some(value) => old(self)@.contains_key(key@) && value == old(self)@[key@],
                None => !old(self)@.contains_key(key@),
            },
    {
        match self.place_of(key) {
            Some(at) => {
                let ghost before = self.entries@;
                let (_, value) = self.entries.remove(at);
                let ghost after = self.entries@;
                proof {
                    assert forall|i: int, j: int| 0 <= i < j < after.len() implies (
                    #[trigger] after[i]).0@ != (#[trigger] after[j]).0@ by {
                        let old_i = if i < at { i } else { i + 1 };
                        let old_j = if j < at { j } else { j + 1 };
                        assert(before[old_i].0@ != before[old_j].0@);
                    }
                    lemma_map_of(before);
                    lemma_map_of(after);
                    let wanted = map_of(before).remove(key@);
                    assert forall|k: Seq<char>| #[trigger]
                        map_of(after).contains_key(k) == wanted.contains_key(k) by {
                        if map_of(after).contains_key(k) {
                            let i = choose|i: int|
                                0 <= i < after.len() && (#[trigger] after[i]).0@ == k;
                            let was = if i < at { i } else { i + 1 };
                            assert(before[was].0@ == k);
                            if was < at {
                                assert(before[was].0@ != before[at as int].0@);
                            } else {
                                assert(before[at as int].0@ != before[was].0@);
                            }
                        }
                        if wanted.contains_key(k) {
                            let was = choose|was: int|
                                0 <= was < before.len() && (#[trigger] before[was]).0@ == k;
                            let i = if was < at { was } else { was - 1 };
                            assert(after[i].0@ == k);
                        }
                    }
                    assert forall|k: Seq<char>| #[trigger]
                        map_of(after).contains_key(k) implies map_of(after)[k] == wanted[k] by {
                        let i = choose|i: int|
                            0 <= i < after.len() && (#[trigger] after[i]).0@ == k;
                        let was = if i < at { i } else { i + 1 };
                        assert(before[was] == after[i]);
                    }
                    assert(map_of(after) =~= wanted);
                }
                Some(value)
            },
            None => {
                assert(old(self)@.remove(key@) =~= old(self)@);
                None
            },
        }
    }

    /// The value at a key, to be changed.
    pub fn get_mut(&mut self, key: &str) -> (value: Option<&mut V>)
        requires
            old(self).well_formed(),
        ensures
            match value {
                Some(value) => old(self)@.contains_key(key@) && *value == old(self)@[key@]
                    && final(self).well_formed() && final(self)@ == old(self)@.insert(
                    key@,
                    *final(value),
                ),
                None => !old(self)@.contains_key(key@) && *final(self) == *old(self),
            },
    {
        match self.place_of(key) {
            Some(at) => {
                proof {
                    assert forall|changed: (String, V)| changed.0 == self.entries@[at as int].0 implies
                        distinct_keys(#[trigger] self.entries@.update(at as int, changed)) && map_of(
                        self.entries@.update(at as int, changed),
                    ) == map_of(self.entries@).insert(key@, changed.1) by {
                        lemma_update(self.entries@, at as int, changed);
                    }
                }
                Some(&mut self.entries[at].1)
            },
            None => None,
        }
    }

    pub fn len(&self) -> (n: usize)
        requires
            self.well_formed(),
        ensures
            n == self@.len(),
    {
        proof {
            lemma_map_of(self.entries@);
        }
        self.entries.len()
    }

    /// The entry at a place; which one, is not said.
    pub fn entry(&self, at: usize) -> (entry: (&String, &V))
        requires
            self.well_formed(),
            at < self.count(),
        ensures
            entry.0@ == self.key_at(at as int),
            self@.contains_key(entry.0@),
            *entry.1 == self@[entry.0@],
    {
        proof {
            lemma_map_of(self.entries@);
        }
        (&self.entries[at].0, &self.entries[at].1)
    }

    /// How many entries there are.
    pub closed spec fn count(&self) -> nat {
        self.entries@.len()
    }

    /// The key at a place.
    pub closed spec fn key_at(&self, at: int) -> Seq<char> {
        self.entries@[at].0@
    }

    /// Every key stands at exactly one place.
    pub proof fn lemma_places(&self)
        requires
            self.well_formed(),
        ensures
            self.count() == self@.len(),
            self@.dom().finite(),
            forall|i: int, j: int|
                0 <= i < j < self.count() ==> #[trigger] self.key_at(i) != #[trigger] self.key_at(j),
            forall|i: int| 0 <= i < self.count() ==> self@.contains_key(#[trigger] self.key_at(i)),
            forall|key: Seq<char>| #[trigger]
                self@.contains_key(key) ==> exists|i: int|
                    0 <= i < self.count() && #[trigger] self.key_at(i) == key,
    {
        lemma_map_of(self.entries@);
        assert forall|key: Seq<char>| #[trigger] self@.contains_key(key) implies exists|i: int|
            0 <= i < self.count() && #[trigger] self.key_at(i) == key by {
            let i = choose|i: int|
                0 <= i < self.entries@.len() && (#[trigger] self.entries@[i]).0@ == key;
            assert(self.key_at(i) == key);
        }
    }
}

} // verus!
