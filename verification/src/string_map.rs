//! A map from strings to values that keeps its keys in the order in which they
//! were first inserted.
use crate::text::text_eq;
use vstd::prelude::*;

verus! {

/// Whether `key` is a key of `entries`.
pub open spec fn has_key<V>(entries: Seq<(Seq<char>, V)>, key: Seq<char>) -> bool {
    exists|i: int| 0 <= i < entries.len() && (#[trigger] entries[i]).0 == key
}

/// The position of `key` in `entries`.
pub open spec fn position<V>(entries: Seq<(Seq<char>, V)>, key: Seq<char>) -> int {
    choose|i: int| 0 <= i < entries.len() && (#[trigger] entries[i]).0 == key
}

/// Whether no key of `entries` occurs twice.
pub open spec fn distinct_keys<V>(entries: Seq<(Seq<char>, V)>) -> bool {
    forall|i: int, j: int|
        0 <= i < j < entries.len() ==> (#[trigger] entries[i]).0 != (#[trigger] entries[j]).0
}

/// The map that `entries` describe.
pub open spec fn map_of<V>(entries: Seq<(Seq<char>, V)>) -> Map<Seq<char>, V> {
    Map::new(
        |key: Seq<char>| has_key(entries, key),
        |key: Seq<char>| entries[position(entries, key)].1,
    )
}

/// `entries` after `key` got the value `value`: in place where the key is
/// there already, at the end where it is not.
pub open spec fn inserted<V>(
    entries: Seq<(Seq<char>, V)>,
    key: Seq<char>,
    value: V,
) -> Seq<(Seq<char>, V)> {
    if has_key(entries, key) {
        entries.update(position(entries, key), (key, value))
    } else {
        entries.push((key, value))
    }
}

/// Where keys are distinct, a key has one position.
pub proof fn lemma_position<V>(entries: Seq<(Seq<char>, V)>, i: int)
    requires
        distinct_keys(entries),
        0 <= i < entries.len(),
    ensures
        has_key(entries, entries[i].0),
        position(entries, entries[i].0) == i,
        map_of(entries).contains_key(entries[i].0),
        map_of(entries)[entries[i].0] == entries[i].1,
{
    let k = entries[i].0;
    assert(has_key(entries, k));
    let p = position(entries, k);
    assert(0 <= p < entries.len() && entries[p].0 == k);
    if p < i {
        assert(entries[p].0 != entries[i].0);
    } else if i < p {
        assert(entries[i].0 != entries[p].0);
    }
}

/// An insertion keeps keys distinct, and is the insertion into the map.
pub proof fn lemma_inserted<V>(entries: Seq<(Seq<char>, V)>, key: Seq<char>, value: V)
    requires
        distinct_keys(entries),
    ensures
        distinct_keys(inserted(entries, key, value)),
        map_of(inserted(entries, key, value)) == map_of(entries).insert(key, value),
{
    let after = inserted(entries, key, value);
    if has_key(entries, key) {
        let p = position(entries, key);
        assert(forall|i: int| 0 <= i < after.len() ==> (#[trigger] after[i]).0 == entries[i].0);
    }
    assert(distinct_keys(after));
    assert forall|k: Seq<char>| map_of(after).contains_key(k) == map_of(entries).insert(
        key,
        value,
    ).contains_key(k) by {
        if has_key(entries, k) {
            let i = position(entries, k);
            assert(after[i].0 == k);
        }
        if has_key(after, k) {
            let i = position(after, k);
            if i < entries.len() {
                assert(entries[i].0 == k);
            }
        }
        if k == key {
            if has_key(entries, key) {
                assert(after[position(entries, key)].0 == key);
            } else {
                assert(after[entries.len() as int].0 == key);
            }
        }
    }
    assert forall|k: Seq<char>| #[trigger] map_of(after).contains_key(k) implies map_of(after)[k]
        == map_of(entries).insert(key, value)[k] by {
        let i = position(after, k);
        lemma_position(after, i);
        if i < entries.len() {
            lemma_position(entries, i);
        }
    }
    assert(map_of(after) =~= map_of(entries).insert(key, value));
}

/// A map with string keys. No key occurs twice.
#[derive(Debug)]
pub struct StringMap<V> {
    entries: Vec<(String, V)>,
}

impl<V> StringMap<V> {
    /// The keys and values, in the order of the keys' first insertion.
    pub closed spec fn entries(&self) -> Seq<(Seq<char>, V)> {
        self.entries@.map_values(|e: (String, V)| (e.0@, e.1))
    }

    #[verifier::type_invariant]
    spec fn valid(&self) -> bool {
        distinct_keys(self.entries())
    }

    /// The map without entries.
    pub fn new() -> (res: Self)
        ensures
            res.entries() == Seq::<(Seq<char>, V)>::empty(),
            res@ == Map::<Seq<char>, V>::empty(),
    {
        let res = StringMap { entries: Vec::new() };
        proof {
            assert(res.entries() =~= Seq::<(Seq<char>, V)>::empty());
            assert(res@ =~= Map::<Seq<char>, V>::empty());
        }
        res
    }

    /// The number of keys.
    pub fn len(&self) -> (res: usize)
        ensures
            res == self.entries().len(),
            distinct_keys(self.entries()),
    {
        proof {
            use_type_invariant(self);
        }
        self.entries.len()
    }

    /// The key at position `i`.
    pub fn key_at(&self, i: usize) -> (res: &String)
        requires
            i < self.entries().len(),
        ensures
            res@ == self.entries()[i as int].0,
    {
        &self.entries[i].0
    }

    /// The value at position `i`.
    pub fn value_at(&self, i: usize) -> (res: &V)
        requires
            i < self.entries().len(),
        ensures
            *res == self.entries()[i as int].1,
    {
        &self.entries[i].1
    }

    /// The position of `key`, if it is there.
    fn find(&self, key: &str) -> (res: Option<usize>)
        ensures
            match res {
                Some(i) => i < self.entries().len() && self.entries()[i as int].0 == key@,
                None => !has_key(self.entries(), key@),
            },
    {
        let mut i: usize = 0;
        while i < self.entries.len()
            invariant
                i <= self.entries@.len(),
                forall|j: int| 0 <= j < i ==> (#[trigger] self.entries()[j]).0 != key@,
            decreases self.entries@.len() - i,
        {
            if text_eq(self.entries[i].0.as_str(), key) {
                return Some(i);
            }
            i += 1;
        }
        None
    }

    /// The value of `key`, if it is there.
    pub fn get(&self, key: &str) -> (res: Option<&V>)
        ensures
            match res {
                Some(v) => self@.contains_key(key@) && *v == self@[key@],
                None => !self@.contains_key(key@),
            },
    {
        match self.find(key) {
            Some(i) => {
                proof {
                    use_type_invariant(self);
                    lemma_position(self.entries(), i as int);
                }
                Some(&self.entries[i].1)
            },
            None => None,
        }
    }

    /// Whether `key` is there.
    pub fn contains_key(&self, key: &str) -> (res: bool)
        ensures
            res == self@.contains_key(key@),
    {
        self.get(key).is_some()
    }

    /// Gives `key` the value `value`. A key that is there already keeps its
    /// place, and its former value is dropped.
    pub fn insert(&mut self, key: String, value: V)
        ensures
            final(self).entries() == inserted(old(self).entries(), key@, value),
            final(self)@ == old(self)@.insert(key@, value),
            distinct_keys(final(self).entries()),
    {
        proof {
            use_type_invariant(&*self);
            lemma_inserted(self.entries(), key@, value);
        }
        let found = self.find(key.as_str());
        let mut entries: Vec<(String, V)> = Vec::new();
        std::mem::swap(&mut entries, &mut self.entries);
        match found {
            Some(i) => {
                proof {
                    lemma_position(old(self).entries(), i as int);
                }
                entries.set(i, (key, value));
            },
            None => {
                entries.push((key, value));
            },
        }
        proof {
            assert(entries@.map_values(|e: (String, V)| (e.0@, e.1)) =~= inserted(
                old(self).entries(),
                key@,
                value,
            ));
        }
        *self = StringMap { entries };
    }

    /// The map that results from inserting `list`'s pairs one after another.
    pub fn from_entries(list: Vec<(String, V)>) -> (res: Self)
        ensures
            res.entries() == all_inserted(list@),
            res@ == map_of(all_inserted(list@)),
            distinct_keys(res.entries()),
    {
        let ghost all = list@;
        let mut res = StringMap::new();
        for pair in it: list
            invariant
                it.seq() == all,
                res.entries() == all_inserted(all.take(it.index())),
                distinct_keys(res.entries()),
        {
            proof {
                let n = it.index();
                assert(all.take(n + 1).drop_last() =~= all.take(n));
            }
            res.insert(pair.0, pair.1);
        }
        proof {
            assert(all.take(all.len() as int) =~= all);
        }
        res
    }
}

/// The entries that result from inserting `list`'s pairs one after another.
pub open spec fn all_inserted<V>(list: Seq<(String, V)>) -> Seq<(Seq<char>, V)>
    decreases list.len(),
{
    if list.len() == 0 {
        Seq::empty()
    } else {
        inserted(all_inserted(list.drop_last()), list.last().0@, list.last().1)
    }
}

impl<V: Clone> Clone for StringMap<V> {
    fn clone(&self) -> (res: Self)
        ensures
            res.entries().len() == self.entries().len(),
            forall|i: int|
                0 <= i < self.entries().len() ==> {
                    &&& (#[trigger] res.entries()[i]).0 == self.entries()[i].0
                    &&& cloned::<V>(self.entries()[i].1, res.entries()[i].1)
                },
    {
        proof {
            use_type_invariant(self);
        }
        let mut entries: Vec<(String, V)> = Vec::new();
        let mut i: usize = 0;
        while i < self.entries.len()
            invariant
                distinct_keys(self.entries()),
                i <= self.entries@.len(),
                entries@.len() == i,
                forall|j: int|
                    0 <= j < i ==> {
                        &&& (#[trigger] entries@[j]).0@ == self.entries()[j].0
                        &&& cloned::<V>(self.entries()[j].1, entries@[j].1)
                    },
            decreases self.entries@.len() - i,
        {
            entries.push((self.entries[i].0.clone(), self.entries[i].1.clone()));
            i += 1;
        }
        proof {
            let after = entries@.map_values(|e: (String, V)| (e.0@, e.1));
            assert forall|a: int, b: int| 0 <= a < b < after.len() implies (#[trigger] after[a]).0
                != (#[trigger] after[b]).0 by {
                assert(after[a].0 == self.entries()[a].0);
                assert(after[b].0 == self.entries()[b].0);
            }
        }
        StringMap { entries }
    }
}

impl<V> View for StringMap<V> {
    type V = Map<Seq<char>, V>;

    open spec fn view(&self) -> Map<Seq<char>, V> {
        map_of(self.entries())
    }
}

} // verus!
