//! Laws on maps with string keys.
use crate::string_map::all_inserted;
use crate::string_map::distinct_keys;
use crate::string_map::inserted;
use crate::string_map::lemma_inserted;
use crate::string_map::lemma_position;
use crate::string_map::map_of;
use crate::string_map::StringMap;
use vstd::prelude::*;

verus! {

/// The entries that a list of pairs leaves.
proof fn lemma_all_inserted<V>(list: Seq<(String, V)>, key: Seq<char>)
    ensures
        distinct_keys(all_inserted(list)),
        map_of(all_inserted(list)).contains_key(key) <==> exists|i: int|
            0 <= i < list.len() && (#[trigger] list[i]).0@ == key,
    decreases list.len(),
{
    if list.len() > 0 {
        let front = list.drop_last();
        let n = list.len() - 1;
        let before = all_inserted(front);
        lemma_all_inserted(front, key);
        lemma_inserted(before, list.last().0@, list.last().1);
        assert(all_inserted(list) == inserted(before, list.last().0@, list.last().1));
        if map_of(before).contains_key(key) {
            let i = choose|i: int| 0 <= i < front.len() && (#[trigger] front[i]).0@ == key;
            assert(list[i] == front[i]);
        }
        if exists|i: int| 0 <= i < list.len() && (#[trigger] list[i]).0@ == key {
            let i = choose|i: int| 0 <= i < list.len() && (#[trigger] list[i]).0@ == key;
            if i < n {
                assert(front[i] == list[i]);
            }
        }
        assert(list[n].0@ == list.last().0@);
    }
}

/// The value that a list of pairs leaves under a key.
proof fn lemma_last_value<V>(list: Seq<(String, V)>, i: int)
    requires
        0 <= i < list.len(),
        forall|j: int| i < j < list.len() ==> (#[trigger] list[j]).0@ != list[i].0@,
    ensures
        map_of(all_inserted(list))[list[i].0@] == list[i].1,
    decreases list.len(),
{
    let front = list.drop_last();
    let n = list.len() - 1;
    lemma_all_inserted(front, list[i].0@);
    lemma_inserted(all_inserted(front), list.last().0@, list.last().1);
    if i < n {
        assert(front[i] == list[i]);
        assert forall|j: int| i < j < front.len() implies (#[trigger] front[j]).0@
            != front[i].0@ by {
            assert(list[j] == front[j]);
        }
        lemma_last_value(front, i);
        assert(list[n].0@ != list[i].0@);
    }
}

/// A map made of a list of pairs has the keys of the list and no others, and under
/// each key the last value that the list gives it.
pub proof fn law_maps_keep_the_last_value_of_each_key<V>(
    list: Vec<(String, V)>,
    res: StringMap<V>,
    key: Seq<char>,
    i: int,
)
    requires
        call_ensures(StringMap::<V>::from_entries, (list,), res),
    ensures
        res@.contains_key(key) <==> exists|j: int|
            0 <= j < list@.len() && (#[trigger] list@[j]).0@ == key,
        0 <= i < list@.len() && (forall|j: int|
            i < j < list@.len() ==> (#[trigger] list@[j]).0@ != list@[i].0@) ==> res@[list@[i].0@]
            == list@[i].1,
{
    lemma_all_inserted(list@, key);
    if 0 <= i < list@.len() && (forall|j: int|
        i < j < list@.len() ==> (#[trigger] list@[j]).0@ != list@[i].0@) {
        lemma_last_value(list@, i);
    }
}

/// The entries of a map are its keys, once each, with their values.
pub proof fn law_entries_are_the_map<V>(m: StringMap<V>, key: Seq<char>, i: int)
    requires
        forall|a: int, b: int|
            0 <= a < b < m.entries().len() ==> (#[trigger] m.entries()[a]).0 != (
            #[trigger] m.entries()[b]).0,
    ensures
        m@.contains_key(key) <==> exists|j: int|
            0 <= j < m.entries().len() && (#[trigger] m.entries()[j]).0 == key,
        0 <= i < m.entries().len() ==> m@.contains_key(m.entries()[i].0) && m@[m.entries()[i].0]
            == m.entries()[i].1,
{
    if 0 <= i < m.entries().len() {
        lemma_position(m.entries(), i);
    }
}

} // verus!
