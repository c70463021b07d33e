//! A small map from chunk ids to values, which keeps the order in which chunks were
//! first put in, and the facts about lists of pairs with distinct keys that it and
//! other such tables rest on.
use vstd::prelude::*;

verus! {

/// No key occurs twice among the entries.
pub open spec fn distinct_keys<K, V>(entries: Seq<(K, V)>) -> bool {
    forall|i: int, j: int|
        0 <= i < j < entries.len() ==> (#[trigger] entries[i]).0 != (#[trigger] entries[j]).0
}

/// Whether `key` occurs among the entries.
pub open spec fn has_key<K, V>(entries: Seq<(K, V)>, key: K) -> bool {
    exists|i: int| 0 <= i < entries.len() && (#[trigger] entries[i]).0 == key
}

/// Where `key` occurs among the entries.
pub open spec fn key_position<K, V>(entries: Seq<(K, V)>, key: K) -> int {
    choose|i: int| 0 <= i < entries.len() && (#[trigger] entries[i]).0 == key
}

/// The map that the entries spell.
pub open spec fn map_of<K, V>(entries: Seq<(K, V)>) -> Map<K, V> {
    Map::new(|key: K| has_key(entries, key), |key: K| entries[key_position(entries, key)].1)
}

/// Among entries with distinct keys, a key occurs at one place only.
pub proof fn lemma_position<K, V>(entries: Seq<(K, V)>, i: int)
    requires
        distinct_keys(entries),
        0 <= i < entries.len(),
    ensures
        has_key(entries, entries[i].0),
        key_position(entries, entries[i].0) == i,
        map_of(entries)[entries[i].0] == entries[i].1,
{
    let key = entries[i].0;
    assert(has_key(entries, key));
    let k = key_position(entries, key);
    if k < i {
        assert(entries[k].0 != entries[i].0);
    }
    if i < k {
        assert(entries[i].0 != entries[k].0);
    }
}

/// Putting an entry in the place of the one with its key, or at the end where there
/// is none, puts it into the map.
pub proof fn lemma_put<K, V>(entries: Seq<(K, V)>, after: Seq<(K, V)>, key: K, value: V)
    requires
        distinct_keys(entries),
        has_key(entries, key) ==> after == entries.update(key_position(entries, key), (key, value)),
        !has_key(entries, key) ==> after == entries.push((key, value)),
    ensures
        distinct_keys(after),
        map_of(after) == map_of(entries).insert(key, value),
{
    let at: int = if has_key(entries, key) {
        key_position(entries, key)
    } else {
        entries.len() as int
    };
    assert(after[at] == (key, value));
    assert forall|i: int| 0 <= i < after.len() && i != at implies #[trigger] after[i]
        == entries[i] && after[i].0 != key by {
        if has_key(entries, key) {
            assert(entries[at].0 == key);
        }
    }
    assert forall|i: int, j: int| 0 <= i < j < after.len() implies (#[trigger] after[i]).0 != (
    #[trigger] after[j]).0 by {
        if i != at && j != at {
            assert(entries[i].0 != entries[j].0);
        }
    }
    let want = map_of(entries).insert(key, value);
    assert forall|k: K| has_key(after, k) <==> want.dom().contains(k) by {
        if has_key(after, k) {
            let i = key_position(after, k);
            if i != at {
                assert(entries[i].0 == k);
            }
        }
        if has_key(entries, k) {
            let i = key_position(entries, k);
            assert(after[i].0 == k);
        }
        if k == key {
            assert(after[at].0 == k);
        }
    }
    assert forall|k: K| has_key(after, k) implies map_of(after)[k] == want[k] by {
        let i = key_position(after, k);
        lemma_position(after, i);
        if k != key {
            assert(i != at);
            lemma_position(entries, i);
        } else {
            lemma_position(after, at);
        }
    }
    assert(map_of(after).dom() =~= want.dom());
    assert(map_of(after) =~= want);
}

/// Taking the entry with a key out takes the key out of the map.
pub proof fn lemma_take<K, V>(entries: Seq<(K, V)>, at: int)
    requires
        distinct_keys(entries),
        0 <= at < entries.len(),
    ensures
        distinct_keys(entries.remove(at)),
        map_of(entries.remove(at)) == map_of(entries).remove(entries[at].0),
{
    let after = entries.remove(at);
    let key = entries[at].0;
    let want = map_of(entries).remove(key);
    assert forall|i: int| 0 <= i < after.len() implies #[trigger] after[i] == entries[if i < at {
        i
    } else {
        i + 1
    }] by {}
    assert forall|i: int, j: int| 0 <= i < j < after.len() implies (#[trigger] after[i]).0 != (
    #[trigger] after[j]).0 by {
        let a = if i < at {
            i
        } else {
            i + 1
        };
        let b = if j < at {
            j
        } else {
            j + 1
        };
        assert(entries[a].0 != entries[b].0);
    }
    assert forall|k: K| has_key(after, k) <==> want.dom().contains(k) by {
        if has_key(after, k) {
            let i = key_position(after, k);
            let a = if i < at {
                i
            } else {
                i + 1
            };
            assert(entries[a].0 == k);
            assert(entries[a].0 != entries[at].0) by {
                if a < at {
                    assert(entries[a].0 != entries[at].0);
                } else {
                    assert(entries[at].0 != entries[a].0);
                }
            }
        }
        if has_key(entries, k) && k != key {
            let a = key_position(entries, k);
            let i = if a < at {
                a
            } else {
                a - 1
            };
            assert(after[i].0 == k);
        }
    }
    assert forall|k: K| has_key(after, k) implies map_of(after)[k] == want[k] by {
        let i = key_position(after, k);
        let a = if i < at {
            i
        } else {
            i + 1
        };
        lemma_position(after, i);
        lemma_position(entries, a);
    }
    assert(map_of(after).dom() =~= want.dom());
    assert(map_of(after) =~= want);
}

/// A map from chunk ids to values.
#[derive(Debug)]
pub struct ChunkMap<V> {
    entries: Vec<(u32, V)>,
}

impl<V> View for ChunkMap<V> {
    type V = Map<u32, V>;

    closed spec fn view(&self) -> Map<u32, V> {
        map_of(self.entries@)
    }
}

impl<V> ChunkMap<V> {
    #[verifier::type_invariant]
    spec fn well_formed(&self) -> bool {
        distinct_keys(self.entries@)
    }

    /// The entries of the map, in the order in which their keys were first put in.
    pub closed spec fn entries(&self) -> Seq<(u32, V)> {
        self.entries@
    }

    /// An empty map.
    pub fn new() -> (map: Self)
        ensures
            map@ == Map::<u32, V>::empty(),
            map.entries().len() == 0,
    {
        let map = ChunkMap { entries: Vec::new() };
        assert(map@ =~= Map::<u32, V>::empty());
        map
    }

    /// What the entries have to do with the map: they are its pairs, each once.
    pub fn entries_are_the_map(&self)
        ensures
            distinct_keys(self.entries()),
            self@ == map_of(self.entries()),
    {
        proof {
            use_type_invariant(self);
        }
    }

    /// The number of entries.
    pub fn len(&self) -> (n: usize)
        ensures
            n == self.entries().len(),
    {
        self.entries.len()
    }

    /// Whether the map is empty.
    pub fn is_empty(&self) -> (b: bool)
        ensures
            b == (self.entries().len() == 0),
            b == (self@ == Map::<u32, V>::empty()),
    {
        proof {
            if self.entries@.len() > 0 {
                assert(has_key(self.entries@, self.entries@[0].0));
                assert(self@.dom().contains(self.entries@[0].0));
            } else {
                assert(self@ =~= Map::<u32, V>::empty());
            }
        }
        self.entries.len() == 0
    }

    /// The key of the `i`-th entry.
    pub fn key_at(&self, i: usize) -> (key: u32)
        requires
            i < self.entries().len(),
        ensures
            key == self.entries()[i as int].0,
            self@.dom().contains(key),
    {
        proof {
            use_type_invariant(self);
            lemma_position(self.entries@, i as int);
        }
        self.entries[i].0
    }

    /// The value of the `i`-th entry.
    pub fn value_at(&self, i: usize) -> (value: &V)
        requires
            i < self.entries().len(),
        ensures
            *value == self.entries()[i as int].1,
            *value == self@[self.entries()[i as int].0],
    {
        proof {
            use_type_invariant(self);
            lemma_position(self.entries@, i as int);
        }
        &self.entries[i].1
    }

    /// Where `key` is among the entries, if it is.
    fn find(&self, key: u32) -> (at: Option<usize>)
        ensures
            at is Some <==> has_key(self.entries@, key),
            at matches Some(i) ==> i < self.entries@.len() && i == key_position(
                self.entries@,
                key,
            ) && self.entries@[i as int].0 == key,
    {
        proof {
            use_type_invariant(self);
        }
        let mut i: usize = 0;
        while i < self.entries.len()
            invariant
                0 <= i <= self.entries@.len(),
                distinct_keys(self.entries@),
                forall|j: int| 0 <= j < i ==> (#[trigger] self.entries@[j]).0 != key,
            decreases self.entries@.len() - i,
        {
            if self.entries[i].0 == key {
                proof {
                    lemma_position(self.entries@, i as int);
                }
                return Some(i);
            }
            i = i + 1;
        }
        None
    }

    /// The value under `key`, if there is one.
    pub fn get(&self, key: u32) -> (value: Option<&V>)
        ensures
            value is Some <==> self@.dom().contains(key),
            value matches Some(v) ==> *v == self@[key],
    {
        match self.find(key) {
            Some(i) => Some(&self.entries[i].1),
            None => None,
        }
    }

    /// Takes the entries out of the map, which is left empty.
    fn take_entries(&mut self) -> (entries: Vec<(u32, V)>)
        ensures
            entries@ == old(self).entries@,
            distinct_keys(entries@),
            final(self).entries@.len() == 0,
    {
        proof {
            use_type_invariant(&*self);
        }
        let mut taken = ChunkMap { entries: Vec::new() };
        core::mem::swap(self, &mut taken);
        taken.entries
    }

    /// Puts `value` under `key`, in the place of the value that was there, if any.
    pub fn insert(&mut self, key: u32, value: V)
        ensures
            final(self)@ == old(self)@.insert(key, value),
    {
        let found = self.find(key);
        let mut entries = self.take_entries();
        let ghost before = entries@;
        match found {
            Some(i) => {
                proof {
                    lemma_put(before, before.update(i as int, (key, value)), key, value);
                }
                entries.set(i, (key, value));
            },
            None => {
                proof {
                    lemma_put(before, before.push((key, value)), key, value);
                }
                entries.push((key, value));
            },
        }
        *self = ChunkMap { entries };
    }

    /// Takes out the value under `key`, if there is one.
    pub fn remove(&mut self, key: u32) -> (value: Option<V>)
        ensures
            final(self)@ == old(self)@.remove(key),
            value is Some <==> old(self)@.dom().contains(key),
            value matches Some(v) ==> v == old(self)@[key],
    {
        let found = self.find(key);
        let mut entries = self.take_entries();
        let ghost before = entries@;
        match found {
            Some(i) => {
                proof {
                    lemma_take(before, i as int);
                    lemma_position(before, i as int);
                }
                let entry = entries.remove(i);
                *self = ChunkMap { entries };
                Some(entry.1)
            },
            None => {
                *self = ChunkMap { entries };
                assert(self@ =~= old(self)@.remove(key));
                None
            },
        }
    }
}

} // verus!
