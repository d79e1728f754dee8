//! Maps from text keys to values.

use crate::json;
use crate::json::{Json, JsonView};
use crate::string_map;
use crate::string_map::StringMap;
use vstd::prelude::*;

verus! {

/// The index is that of the first entry under the key, or the number of entries where there is
/// none.
pub open spec fn is_first<V>(entries: Seq<(Seq<char>, V)>, key: Seq<char>, i: int) -> bool {
    &&& 0 <= i <= entries.len()
    &&& forall|k: int| 0 <= k < i ==> (#[trigger] entries[k]).0 != key
    &&& i < entries.len() ==> entries[i].0 == key
}

/// What stands under a key is the value of the first entry under it.
pub proof fn law_lookup<V>(entries: Seq<(Seq<char>, V)>, key: Seq<char>, i: int)
    requires
        is_first(entries, key, i),
    ensures
        i < entries.len() ==> string_map::lookup(entries, key) == Some(entries[i].1),
        i == entries.len() ==> string_map::lookup(entries, key) is None,
{
    string_map::lemma_lookup(entries, key, i);
}

/// A value is set in the place of the first entry under its key, and at the end where there is
/// none; every other entry stays where it is.
pub proof fn law_put<V>(entries: Seq<(Seq<char>, V)>, key: Seq<char>, value: V, i: int)
    requires
        is_first(entries, key, i),
    ensures
        ({
            let after = string_map::put(entries, key, value);
            &&& after.len() == if i < entries.len() {
                entries.len()
            } else {
                entries.len() + 1
            }
            &&& after[i] == (key, value)
            &&& forall|k: int|
                0 <= k < entries.len() && k != i ==> #[trigger] after[k] == entries[k]
        }),
{
    string_map::lemma_put(entries, key, value, i);
}

/// A map gives the value of the first entry under a key, and nothing where there is none.
pub proof fn law_maps_are_looked_up(
    map: &StringMap<String>,
    key: &str,
    i: int,
    found: Option<&String>,
    has: bool,
    index: usize,
)
    requires
        call_ensures(StringMap::<String>::get, (map, key), found),
        call_ensures(StringMap::<String>::contains_key, (map, key), has),
        call_ensures(StringMap::<String>::index_of, (map, key), index),
        0 <= i <= map.entries@.len(),
        forall|k: int| 0 <= k < i ==> (#[trigger] map.entries@[k]).0@ != key@,
        i < map.entries@.len() ==> map.entries@[i].0@ == key@,
    ensures
        index == i,
        has <==> i < map.entries@.len(),
        i < map.entries@.len() ==> found == Some(&map.entries@[i].1),
        i == map.entries@.len() ==> found is None,
{
    let entries = map@;
    assert(entries.len() == map.entries@.len());
    assert forall|k: int| 0 <= k < i implies (#[trigger] entries[k]).0 != key@ by {
        assert(map.entries@[k].0@ != key@);
    }
    string_map::lemma_lookup(entries, key@, i);
    if index < i {
        assert(entries[index as int].0 != key@);
    }
    if i < index {
        assert(entries[i].0 != key@);
    }
}

/// A map has as many entries as it holds, and is empty if and only if it holds none; a new one
/// is.
pub proof fn law_maps_are_counted(
    map: &StringMap<String>,
    fresh: StringMap<String>,
    count: usize,
    empty: bool,
)
    requires
        call_ensures(StringMap::<String>::new, (), fresh),
        call_ensures(StringMap::<String>::len, (map,), count),
        call_ensures(StringMap::<String>::is_empty, (map,), empty),
    ensures
        count == map.entries@.len(),
        empty <==> map.entries@.len() == 0,
        fresh.entries@.len() == 0,
{
    assert(fresh@.len() == fresh.entries@.len());
}

/// A JSON value has something under a key only where it is an object, and then the value of its
/// first entry under the key.
pub proof fn law_members(value: &Json, key: &str, found: Option<&Json>, i: int)
    requires
        call_ensures(Json::get, (value, key), found),
        value@ matches JsonView::Object(entries) ==> is_first(entries, key@, i),
    ensures
        match value@ {
            JsonView::Object(entries) => if i < entries.len() {
                found matches Some(inner) && inner@ == entries[i].1
            } else {
                found is None
            },
            _ => found is None,
        },
{
    if let JsonView::Object(entries) = value@ {
        string_map::lemma_lookup(entries, key@, i);
    }
    assert(json::member(value@, key@) is Some <==> found is Some);
}

} // verus!
