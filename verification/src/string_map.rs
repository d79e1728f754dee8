//! A map from text keys to values that keeps its entries in the order in which
//! their keys came.

use crate::text;
use vstd::prelude::*;

verus! {

/// The value that the first entry under the key holds.
pub open spec fn lookup<V>(entries: Seq<(Seq<char>, V)>, key: Seq<char>) -> Option<V>
    decreases entries.len(),
{
    if entries.len() == 0 {
        None
    } else if entries.first().0 == key {
        Some(entries.first().1)
    } else {
        lookup(entries.drop_first(), key)
    }
}

/// The entries with the value under the key set: in the place of the first entry
/// under the key, or at the end where there is none.
pub open spec fn put<V>(entries: Seq<(Seq<char>, V)>, key: Seq<char>, value: V) -> Seq<
    (Seq<char>, V),
>
    decreases entries.len(),
{
    if entries.len() == 0 {
        seq![(key, value)]
    } else if entries.first().0 == key {
        entries.update(0, (key, value))
    } else {
        seq![entries.first()] + put(entries.drop_first(), key, value)
    }
}

/// No key stands in two entries.
pub open spec fn distinct<V>(entries: Seq<(Seq<char>, V)>) -> bool {
    forall|i: int, j: int|
        0 <= i < j < entries.len() ==> (#[trigger] entries[i]).0 != (#[trigger] entries[j]).0
}

/// What `lookup` gives where the key first stands at index `i`, or nowhere
/// (`i` the number of entries).
pub proof fn lemma_lookup<V>(entries: Seq<(Seq<char>, V)>, key: Seq<char>, i: int)
    requires
        0 <= i <= entries.len(),
        forall|k: int| 0 <= k < i ==> (#[trigger] entries[k]).0 != key,
        i < entries.len() ==> entries[i].0 == key,
    ensures
        lookup(entries, key) == if i < entries.len() {
            Some(entries[i].1)
        } else {
            None
        },
    decreases i,
{
    if i > 0 {
        let rest = entries.drop_first();
        assert(entries[0].0 != key);
        assert forall|k: int| 0 <= k < i - 1 implies (#[trigger] rest[k]).0 != key by {
            assert(rest[k] == entries[k + 1]);
        }
        lemma_lookup(rest, key, i - 1);
    }
}

/// What `put` gives where the key first stands at index `i`, or nowhere (`i` the
/// number of entries).
pub proof fn lemma_put<V>(entries: Seq<(Seq<char>, V)>, key: Seq<char>, value: V, i: int)
    requires
        0 <= i <= entries.len(),
        forall|k: int| 0 <= k < i ==> (#[trigger] entries[k]).0 != key,
        i < entries.len() ==> entries[i].0 == key,
    ensures
        put(entries, key, value) == if i < entries.len() {
            entries.update(i, (key, value))
        } else {
            entries.push((key, value))
        },
    decreases i,
{
    if i > 0 {
        let rest = entries.drop_first();
        assert(entries[0].0 != key);
        assert forall|k: int| 0 <= k < i - 1 implies (#[trigger] rest[k]).0 != key by {
            assert(rest[k] == entries[k + 1]);
        }
        lemma_put(rest, key, value, i - 1);
        if i < entries.len() {
            assert(seq![entries.first()] + rest.update(i - 1, (key, value)) =~= entries.update(
                i,
                (key, value),
            ));
        } else {
            assert(seq![entries.first()] + rest.push((key, value)) =~= entries.push((key, value)));
        }
    } else if entries.len() == 0 {
        assert(seq![(key, value)] =~= entries.push((key, value)));
    }
}

/// A map from text keys to values. Where it is well formed, no key occurs twice.
#[derive(Debug, PartialEq)]
pub struct StringMap<V> {
    pub entries: Vec<(String, V)>,
}

impl<V> View for StringMap<V> {
    type V = Seq<(Seq<char>, V)>;

    open spec fn view(&self) -> Seq<(Seq<char>, V)> {
        Seq::new(self.entries@.len(), |i: int| (self.entries@[i].0@, self.entries@[i].1))
    }
}

impl<V> StringMap<V> {
    /// No key occurs twice.
    pub open spec fn wf(self) -> bool {
        distinct(self@)
    }

    /// The map without entries.
    pub fn new() -> (r: Self)
        ensures
            r@ == Seq::<(Seq<char>, V)>::empty(),
            r.wf(),
    {
        let r = StringMap { entries: Vec::new() };
        assert(r@ =~= Seq::empty());
        r
    }

    /// The number of entries.
    pub fn len(&self) -> (r: usize)
        ensures
            r == self@.len(),
    {
        self.entries.len()
    }

    /// Whether there are no entries.
    pub fn is_empty(&self) -> (r: bool)
        ensures
            r == (self@.len() == 0),
    {
        self.entries.len() == 0
    }

    /// The index of the first entry under the key, or the number of entries where
    /// there is none.
    pub fn index_of(&self, key: &str) -> (r: usize)
        ensures
            r <= self@.len(),
            forall|k: int| 0 <= k < r ==> (#[trigger] self@[k]).0 != key@,
            r < self@.len() ==> self@[r as int].0 == key@,
    {
        let mut i: usize = 0;
        while i < self.entries.len()
            invariant
                i <= self@.len(),
                forall|k: int| 0 <= k < i ==> (#[trigger] self@[k]).0 != key@,
            decreases self@.len() - i,
        {
            if text::same(self.entries[i].0.as_str(), key) {
                return i;
            }
            i += 1;
        }
        i
    }

    /// The value under the key.
    pub fn get(&self, key: &str) -> (r: Option<&V>)
        ensures
            r == match lookup(self@, key@) {
                Some(value) => Some(&value),
                None => None,
            },
    {
        let i = self.index_of(key);
        proof {
            lemma_lookup(self@, key@, i as int);
        }
        if i < self.entries.len() {
            Some(&self.entries[i].1)
        } else {
            None
        }
    }

    /// Whether there is an entry under the key.
    pub fn contains_key(&self, key: &str) -> (r: bool)
        ensures
            r == (lookup(self@, key@) is Some),
    {
        self.get(key).is_some()
    }

    /// Sets the value under the key.
    pub fn insert(&mut self, key: String, value: V)
        ensures
            final(self)@ == put(old(self)@, key@, value),
            old(self).wf() ==> final(self).wf(),
    {
        let i = self.index_of(key.as_str());
        let ghost before = self@;
        let ghost entry = (key@, value);
        proof {
            lemma_put(before, key@, value, i as int);
        }
        if i < self.entries.len() {
            self.entries.set(i, (key, value));
            assert(self@ =~= before.update(i as int, entry));
        } else {
            self.entries.push((key, value));
            assert(self@ =~= before.push(entry));
        }
    }
}

/// Setting a value is seen under its own key and under no other, and keeps the
/// keys distinct.
pub proof fn law_put_then_lookup<V>(
    entries: Seq<(Seq<char>, V)>,
    key: Seq<char>,
    value: V,
    other: Seq<char>,
)
    ensures
        lookup(put(entries, key, value), key) == Some(value),
        other != key ==> lookup(put(entries, key, value), other) == lookup(entries, other),
        distinct(entries) ==> distinct(put(entries, key, value)),
    decreases entries.len(),
{
    let result = put(entries, key, value);
    if entries.len() == 0 {
        assert(result.drop_first() =~= Seq::empty());
        assert(lookup(result.drop_first(), other) is None);
    } else if entries.first().0 == key {
        assert(result.drop_first() =~= entries.drop_first());
    } else {
        let rest = entries.drop_first();
        law_put_then_lookup(rest, key, value, other);
        assert(result.drop_first() =~= put(rest, key, value));
    }
    let i = lemma_first_index(entries, key);
    lemma_put(entries, key, value, i);
}

/// The index at which the key first stands, or the number of entries.
pub proof fn lemma_first_index<V>(entries: Seq<(Seq<char>, V)>, key: Seq<char>) -> (i: int)
    ensures
        0 <= i <= entries.len(),
        forall|k: int| 0 <= k < i ==> (#[trigger] entries[k]).0 != key,
        i < entries.len() ==> entries[i].0 == key,
    decreases entries.len(),
{
    if entries.len() == 0 || entries.first().0 == key {
        0
    } else {
        let rest = entries.drop_first();
        let j = lemma_first_index(rest, key);
        assert forall|k: int| 0 <= k < j + 1 implies (#[trigger] entries[k]).0 != key by {
            if k > 0 {
                assert(entries[k] == rest[k - 1]);
            }
        }
        j + 1
    }
}

} // verus!
