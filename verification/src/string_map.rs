//! A map from texts to values that keeps its entries in the order in which their keys first came.
use vstd::prelude::*;

use crate::text;

verus! {

/// The entries of a map, each key with its value.
pub type Entries<T> = Seq<(Seq<char>, T)>;

/// The value of `key` among `entries`.
pub open spec fn lookup<T>(entries: Entries<T>, key: Seq<char>) -> Option<T>
    decreases entries.len(),
{
    if entries.len() == 0 {
        None
    } else if entries.last().0 == key {
        Some(entries.last().1)
    } else {
        lookup(entries.drop_last(), key)
    }
}

/// An entry with `value` in place of its own where its key is `key`.
pub open spec fn given<T>(key: Seq<char>, value: T) -> spec_fn((Seq<char>, T)) -> (Seq<char>, T) {
    |e: (Seq<char>, T)|
        if e.0 == key {
            (key, value)
        } else {
            e
        }
}

/// `entries` after `key` was given `value`: in place where the key is there already, at the end
/// where it is not.
pub open spec fn put<T>(entries: Entries<T>, key: Seq<char>, value: T) -> Entries<T> {
    if lookup(entries, key) is Some {
        entries.map_values(given(key, value))
    } else {
        entries.push((key, value))
    }
}

/// No key occurs twice.
pub open spec fn distinct_keys<T>(entries: Entries<T>) -> bool {
    forall|i: int, j: int|
        0 <= i < j < entries.len() ==> (#[trigger] entries[i]).0 != (#[trigger] entries[j]).0
}

/// A key has a value exactly where an entry holds it, and then it is that entry's value.
pub proof fn lemma_lookup<T>(entries: Entries<T>, key: Seq<char>)
    ensures
        lookup(entries, key) is Some ==> exists|i: int|
            0 <= i < entries.len() && (#[trigger] entries[i]).0 == key && entries[i].1 == lookup(
                entries,
                key,
            )->0,
        forall|i: int|
            0 <= i < entries.len() && (#[trigger] entries[i]).0 == key ==> lookup(entries, key) is Some,
        distinct_keys(entries) ==> forall|i: int|
            0 <= i < entries.len() && (#[trigger] entries[i]).0 == key ==> lookup(entries, key)
                == Some(entries[i].1),
    decreases entries.len(),
{
    if entries.len() > 0 {
        let rest = entries.drop_last();
        lemma_lookup(rest, key);
        if entries.last().0 == key {
            assert(entries[entries.len() - 1].0 == key);
        } else if lookup(entries, key) is Some {
            let i = choose|i: int|
                0 <= i < rest.len() && (#[trigger] rest[i]).0 == key && rest[i].1 == lookup(
                    rest,
                    key,
                )->0;
            assert(entries[i] == rest[i]);
        }
        assert forall|i: int|
            0 <= i < entries.len() && (#[trigger] entries[i]).0 == key implies lookup(
            entries,
            key,
        ) is Some by {
            if i < rest.len() {
                assert(rest[i] == entries[i]);
            }
        }
        if distinct_keys(entries) {
            assert(distinct_keys(rest)) by {
                assert forall|i: int, j: int| 0 <= i < j < rest.len() implies (
                #[trigger] rest[i]).0 != (#[trigger] rest[j]).0 by {
                    assert(rest[i] == entries[i] && rest[j] == entries[j]);
                }
            }
            assert forall|i: int|
                0 <= i < entries.len() && (#[trigger] entries[i]).0 == key implies lookup(
                entries,
                key,
            ) == Some(entries[i].1) by {
                if i < rest.len() {
                    assert(rest[i] == entries[i]);
                    assert(entries[i].0 != entries[entries.len() - 1].0);
                }
            }
        }
    }
}

/// What a key has after a `put`: the new value for the key put, and for every other key what it
/// had before.
pub proof fn lemma_put<T>(entries: Entries<T>, key: Seq<char>, value: T)
    ensures
        lookup(put(entries, key, value), key) == Some(value),
        forall|other: Seq<char>| #![auto]
            other != key ==> lookup(put(entries, key, value), other) == lookup(entries, other),
{
    if lookup(entries, key) is Some {
        lemma_put_mapped(entries, key, value);
    } else {
        assert(entries.push((key, value)).drop_last() == entries);
    }
}

/// To give a key two values one after the other is to give it the second.
pub proof fn lemma_put_twice<T>(entries: Entries<T>, key: Seq<char>, first: T, second: T)
    ensures
        put(put(entries, key, first), key, second) == put(entries, key, second),
{
    let once = put(entries, key, first);
    lemma_put(entries, key, first);
    lemma_lookup(entries, key);
    assert(put(once, key, second) == once.map_values(given(key, second)));
    if lookup(entries, key) is None {
        assert forall|i: int| 0 <= i < once.len() implies given(key, second)(once[i])
            == entries.push((key, second))[i] by {
            if i < entries.len() {
                assert(entries[i].0 != key);
            }
        }
    }
    assert(put(once, key, second) =~= put(entries, key, second));
}

proof fn lemma_put_mapped<T>(entries: Entries<T>, key: Seq<char>, value: T)
    ensures
        lookup(entries, key) is Some ==> lookup(entries.map_values(given(key, value)), key)
            == Some(value),
        forall|other: Seq<char>| #![auto]
            other != key ==> lookup(entries.map_values(given(key, value)), other) == lookup(
                entries,
                other,
            ),
    decreases entries.len(),
{
    if entries.len() > 0 {
        lemma_put_mapped(entries.drop_last(), key, value);
        let mapped = entries.map_values(given(key, value));
        assert(mapped.drop_last() == entries.drop_last().map_values(given(key, value)));
        assert forall|other: Seq<char>| #![auto] other != key implies lookup(mapped, other)
            == lookup(entries, other) by {
            assert(lookup(mapped.drop_last(), other) == lookup(entries.drop_last(), other));
            assert(mapped.last() == given(key, value)(entries.last()));
        }
    } else {
        assert(entries.map_values(given(key, value)) == entries);
    }
}

/// A map from texts to values.
#[derive(Debug, PartialEq)]
pub struct StringMap<V> {
    entries: Vec<(String, V)>,
}

impl<V> StringMap<V> {
    #[verifier::type_invariant]
    spec fn keys_are_distinct(&self) -> bool {
        forall|i: int, j: int|
            0 <= i < j < self.entries@.len() ==> (#[trigger] self.entries@[i]).0@ != (
            #[trigger] self.entries@[j]).0@
    }
}

impl<V: DeepView> StringMap<V> {
    proof fn lemma_distinct(&self)
        requires
            self.keys_are_distinct(),
        ensures
            distinct_keys(self.pairs()),
    {
        assert forall|i: int, j: int| 0 <= i < j < self.pairs().len() implies (
        #[trigger] self.pairs()[i]).0 != (#[trigger] self.pairs()[j]).0 by {
            assert(self.pairs()[i].0 == self.entries@[i].0@);
            assert(self.pairs()[j].0 == self.entries@[j].0@);
        }
    }

    /// The entries, each key with its value, in the order in which the keys first came.
    pub closed spec fn pairs(&self) -> Entries<V::V> {
        self.entries.deep_view()
    }

    /// A map without entries.
    pub fn new() -> (r: Self)
        ensures
            r.pairs() == Seq::<(Seq<char>, V::V)>::empty(),
    {
        let entries: Vec<(String, V)> = Vec::new();
        assert(entries.deep_view() == Seq::<(Seq<char>, V::V)>::empty());
        StringMap { entries }
    }

    /// The number of entries.
    pub fn len(&self) -> (n: usize)
        ensures
            n == self.pairs().len(),
            distinct_keys(self.pairs()),
    {
        proof {
            use_type_invariant(self);
            self.lemma_distinct();
        }
        self.entries.len()
    }

    /// Whether there is no entry.
    pub fn is_empty(&self) -> (r: bool)
        ensures
            r == (self.pairs().len() == 0),
    {
        self.entries.len() == 0
    }

    /// The key of the entry at `i`.
    pub fn key_at(&self, i: usize) -> (r: &str)
        requires
            i < self.pairs().len(),
        ensures
            r@ == self.pairs()[i as int].0,
    {
        self.entries[i].0.as_str()
    }

    /// The value of the entry at `i`.
    pub fn value_at(&self, i: usize) -> (r: &V)
        requires
            i < self.pairs().len(),
        ensures
            r.deep_view() == self.pairs()[i as int].1,
    {
        &self.entries[i].1
    }

    fn position(&self, key: &str) -> (r: Option<usize>)
        ensures
            match r {
                Some(i) => i < self.entries.len() && self.pairs()[i as int].0 == key@ && lookup(
                    self.pairs(),
                    key@,
                ) == Some(self.pairs()[i as int].1),
                None => lookup(self.pairs(), key@) is None,
            },
    {
        proof {
            use_type_invariant(self);
            self.lemma_distinct();
            lemma_lookup(self.pairs(), key@);
        }
        let mut i: usize = 0;
        while i < self.entries.len()
            invariant
                i <= self.entries.len(),
                forall|j: int| 0 <= j < i ==> (#[trigger] self.pairs()[j]).0 != key@,
                forall|j: int|
                    0 <= j < self.pairs().len() && (#[trigger] self.pairs()[j]).0 == key@ ==> lookup(
                        self.pairs(),
                        key@,
                    ) == Some(self.pairs()[j].1),
            decreases self.entries.len() - i,
        {
            assert(self.pairs()[i as int].0 == self.entries@[i as int].0@);
            if text::same(self.entries[i].0.as_str(), key) {
                return Some(i);
            }
            i = i + 1;
        }
        None
    }

    /// The value of `key`.
    pub fn get(&self, key: &str) -> (r: Option<&V>)
        ensures
            r.deep_view() == lookup(self.pairs(), key@),
    {
        match self.position(key) {
            Some(i) => Some(&self.entries[i].1),
            None => None,
        }
    }

    /// Whether `key` has a value.
    pub fn contains_key(&self, key: &str) -> (r: bool)
        ensures
            r == (lookup(self.pairs(), key@) is Some),
    {
        self.position(key).is_some()
    }

    /// Gives `key` the value `value`.
    pub fn insert(&mut self, key: String, value: V)
        ensures
            final(self).pairs() == put(old(self).pairs(), key@, value.deep_view()),
    {
        let ghost before = self.pairs();
        let ghost k = key@;
        let ghost v = value.deep_view();
        let at = self.position(key.as_str());
        proof {
            use_type_invariant(&*self);
            self.lemma_distinct();
            lemma_lookup(before, k);
        }
        let mut entries: Vec<(String, V)> = Vec::new();
        std::mem::swap(&mut entries, &mut self.entries);
        match at {
            Some(i) => {
                entries.set(i, (key, value));
                assert(entries.deep_view() == put(before, k, v)) by {
                    assert forall|j: int| 0 <= j < before.len() implies entries.deep_view()[j]
                        == put(before, k, v)[j] by {
                        if j < i {
                            assert(before[j].0 != before[i as int].0);
                        } else if i < j {
                            assert(before[i as int].0 != before[j].0);
                        }
                    }
                }
                assert forall|a: int, b: int| 0 <= a < b < entries@.len() implies (
                #[trigger] entries@[a]).0@ != (#[trigger] entries@[b]).0@ by {
                    assert(before[a].0 != before[b].0);
                }
            },
            None => {
                entries.push((key, value));
                assert(entries.deep_view() == before.push((k, v)));
                assert forall|a: int, b: int| 0 <= a < b < entries@.len() implies (
                #[trigger] entries@[a]).0@ != (#[trigger] entries@[b]).0@ by {
                    assert(before[a].0 != k);
                    if b < before.len() {
                        assert(before[a].0 != before[b].0);
                    }
                }
            },
        }
        self.entries = entries;
    }

    /// Gives `key`, which has a value, the value `value`, and hands out the one that it had.
    pub fn replace(&mut self, key: &str, value: V) -> (r: V)
        requires
            lookup(old(self).pairs(), key@) is Some,
        ensures
            Some(r.deep_view()) == lookup(old(self).pairs(), key@),
            final(self).pairs() == put(old(self).pairs(), key@, value.deep_view()),
    {
        let ghost before = self.pairs();
        let ghost v = value.deep_view();
        let at = self.position(key);
        proof {
            use_type_invariant(&*self);
            self.lemma_distinct();
        }
        match at {
            Some(i) => {
                let mut entries: Vec<(String, V)> = Vec::new();
                std::mem::swap(&mut entries, &mut self.entries);
                let ghost all = entries@;
                let (own, old_value) = entries.remove(i);
                entries.insert(i, (own, value));
                assert(entries@ == all.update(i as int, (own, value)));
                assert(entries.deep_view() == put(before, key@, v)) by {
                    assert forall|j: int| 0 <= j < before.len() implies entries.deep_view()[j]
                        == put(before, key@, v)[j] by {
                        if j < i {
                            assert(before[j].0 != before[i as int].0);
                        } else if i < j {
                            assert(before[i as int].0 != before[j].0);
                        }
                    }
                }
                assert forall|a: int, b: int| 0 <= a < b < entries@.len() implies (
                #[trigger] entries@[a]).0@ != (#[trigger] entries@[b]).0@ by {
                    assert(before[a].0 != before[b].0);
                }
                self.entries = entries;
                old_value
            },
            None => value,
        }
    }
}

impl Clone for StringMap<String> {
    fn clone(&self) -> (r: Self)
        ensures
            r.pairs() == self.pairs(),
    {
        proof {
            use_type_invariant(self);
        }
        let mut entries: Vec<(String, String)> = Vec::new();
        let mut i: usize = 0;
        while i < self.entries.len()
            invariant
                i <= self.entries.len(),
                entries.deep_view() == self.entries.deep_view().take(i as int),
            decreases self.entries.len() - i,
        {
            let ghost done = entries.deep_view();
            entries.push((self.entries[i].0.clone(), self.entries[i].1.clone()));
            i = i + 1;
            assert(entries.deep_view() == done.push(self.entries.deep_view()[i - 1]));
            assert(self.entries.deep_view().take(i as int) == done.push(
                self.entries.deep_view()[i - 1],
            ));
        }
        assert(self.entries.deep_view().take(i as int) == self.entries.deep_view());
        assert forall|a: int, b: int| 0 <= a < b < entries@.len() implies (
        #[trigger] entries@[a]).0@ != (#[trigger] entries@[b]).0@ by {
            assert(entries.deep_view()[a] == self.entries.deep_view()[a]);
            assert(entries.deep_view()[b] == self.entries.deep_view()[b]);
            assert(self.entries@[a].0@ != self.entries@[b].0@);
        }
        StringMap { entries }
    }
}

impl<V: DeepView> DeepView for StringMap<V> {
    type V = Entries<V::V>;

    open spec fn deep_view(&self) -> Entries<V::V> {
        self.pairs()
    }
}

} // verus!
