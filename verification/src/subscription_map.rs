//! Per-subscription state, found by the routing key of a message.

use crate::subscription::SubscriptionId;
use vstd::prelude::*;

verus! {

/// Some entry of `entries` is kept under `key`.
pub open spec fn has_key<T>(entries: Seq<(SubscriptionId, T)>, key: Seq<char>) -> bool {
    exists|i: int| 0 <= i < entries.len() && (#[trigger] entries[i]).0@ == key
}

/// No two entries share a key.
pub open spec fn distinct_keys<T>(entries: Seq<(SubscriptionId, T)>) -> bool {
    forall|i: int, j: int|
        0 <= i < j < entries.len() ==> (#[trigger] entries[i]).0@ != (#[trigger] entries[j]).0@
}

/// The value kept under each key.
pub open spec fn keyed<T>(entries: Seq<(SubscriptionId, T)>) -> Map<Seq<char>, T> {
    Map::new(
        |key: Seq<char>| has_key(entries, key),
        |key: Seq<char>|
            entries[choose|i: int| 0 <= i < entries.len() && (#[trigger] entries[i]).0@ == key].1,
    )
}

/// With distinct keys each entry is the one found under its key.
pub proof fn lemma_keyed_entry<T>(entries: Seq<(SubscriptionId, T)>, i: int)
    requires
        distinct_keys(entries),
        0 <= i < entries.len(),
    ensures
        keyed(entries).contains_key(entries[i].0@),
        keyed(entries)[entries[i].0@] == entries[i].1,
{
    let key = entries[i].0@;
    let j = choose|j: int| 0 <= j < entries.len() && (#[trigger] entries[j]).0@ == key;
    if j < i {
        assert(entries[j].0@ != entries[i].0@);
    } else if i < j {
        assert(entries[i].0@ != entries[j].0@);
    }
}

/// Entries with distinct keys are keyed as `map` when they are exactly its pairs.
pub proof fn lemma_keyed_is<T>(entries: Seq<(SubscriptionId, T)>, map: Map<Seq<char>, T>)
    requires
        distinct_keys(entries),
        forall|i: int|
            0 <= i < entries.len() ==> map.contains_key((#[trigger] entries[i]).0@)
                && map[entries[i].0@] == entries[i].1,
        forall|key: Seq<char>| #[trigger] map.contains_key(key) ==> has_key(entries, key),
    ensures
        keyed(entries) == map,
{
    assert forall|key: Seq<char>| #[trigger] keyed(entries).contains_key(key) implies map.contains_key(
        key,
    ) && map[key] == keyed(entries)[key] by {
        let i = choose|i: int| 0 <= i < entries.len() && (#[trigger] entries[i]).0@ == key;
        lemma_keyed_entry(entries, i);
    }
    assert(keyed(entries) =~= map);
}

/// State kept per subscription: at most one value under each routing key.
#[derive(Debug)]
pub struct SubscriptionMap<T> {
    entries: Vec<(SubscriptionId, T)>,
}

impl<T> View for SubscriptionMap<T> {
    type V = Map<Seq<char>, T>;

    open spec fn view(&self) -> Map<Seq<char>, T> {
        keyed(self.spec_entries())
    }
}

impl<T> SubscriptionMap<T> {
    pub closed spec fn spec_entries(&self) -> Seq<(SubscriptionId, T)> {
        self.entries@
    }

    /// No routing key is kept twice.
    pub open spec fn wf(&self) -> bool {
        distinct_keys(self.spec_entries())
    }

    pub fn new() -> (r: Self)
        ensures
            r.wf(),
            r@ == Map::<Seq<char>, T>::empty(),
    {
        let r = SubscriptionMap { entries: Vec::new() };
        assert(r@ =~= Map::<Seq<char>, T>::empty());
        r
    }

    /// Number of subscriptions kept.
    pub fn len(&self) -> (r: usize)
        requires
            self.wf(),
        ensures
            r == self@.len(),
            self@.dom().finite(),
    {
        proof {
            let entries = self.entries@;
            let keys = entries.map_values(|e: (SubscriptionId, T)| e.0@);
            assert(keys.no_duplicates()) by {
                assert forall|i: int, j: int|
                    0 <= i < keys.len() && 0 <= j < keys.len() && i != j implies keys[i]
                    != keys[j] by {
                    if i < j {
                        assert(entries[i].0@ != entries[j].0@);
                    } else {
                        assert(entries[j].0@ != entries[i].0@);
                    }
                }
            }
            keys.unique_seq_to_set();
            assert(self@.dom() =~= keys.to_set()) by {
                assert forall|key: Seq<char>| self@.dom().contains(key) implies keys.to_set().contains(
                    key,
                ) by {
                    let i = choose|i: int|
                        0 <= i < entries.len() && (#[trigger] entries[i]).0@ == key;
                    assert(keys[i] == key);
                }
                assert forall|key: Seq<char>| keys.to_set().contains(key) implies self@.dom().contains(
                    key,
                ) by {
                    let i = choose|i: int| 0 <= i < keys.len() && keys[i] == key;
                    assert(entries[i].0@ == key);
                }
            }
            vstd::seq_lib::seq_to_set_is_finite(keys);
        }
        self.entries.len()
    }

    /// Where `id` is kept, if it is.
    fn position(&self, id: &SubscriptionId) -> (r: Option<usize>)
        ensures
            match r {
                Some(i) => i < self.spec_entries().len() && self.spec_entries()[i as int].0@ == id@,
                None => !has_key(self.spec_entries(), id@),
            },
    {
        let mut i: usize = 0;
        while i < self.entries.len()
            invariant
                i <= self.entries.len(),
                forall|j: int| 0 <= j < i ==> (#[trigger] self.entries@[j]).0@ != id@,
            decreases self.entries.len() - i,
        {
            if self.entries[i].0.same(id) {
                return Some(i);
            }
            i += 1;
        }
        None
    }

    /// Whether something is kept under `id`.
    pub fn contains(&self, id: &SubscriptionId) -> (r: bool)
        ensures
            r == self@.contains_key(id@),
    {
        self.position(id).is_some()
    }

    /// What is kept under `id`.
    pub fn get(&self, id: &SubscriptionId) -> (r: Option<&T>)
        requires
            self.wf(),
        ensures
            r is Some <==> self@.contains_key(id@),
            r matches Some(value) ==> *value == self@[id@],
    {
        match self.position(id) {
            Some(i) => {
                proof {
                    lemma_keyed_entry(self.entries@, i as int);
                }
                Some(&self.entries[i].1)
            },
            None => None,
        }
    }

    /// Takes out what is kept under `id` and returns it.
    pub fn remove(&mut self, id: &SubscriptionId) -> (r: Option<T>)
        requires
            old(self).wf(),
        ensures
            final(self).wf(),
            final(self)@ == old(self)@.remove(id@),
            r is Some <==> old(self)@.contains_key(id@),
            r matches Some(value) ==> value == old(self)@[id@],
    {
        match self.position(id) {
            Some(k) => {
                let ghost before = self.entries@;
                proof {
                    lemma_keyed_entry(before, k as int);
                }
                let entry = self.entries.remove(k);
                proof {
                    let after = self.entries@;
                    let map = keyed(before).remove(id@);
                    assert forall|i: int, j: int| 0 <= i < j < after.len() implies (
                    #[trigger] after[i]).0@ != (#[trigger] after[j]).0@ by {
                        let bi = if i < k { i } else { i + 1 };
                        let bj = if j < k { j } else { j + 1 };
                        assert(after[i] == before[bi] && after[j] == before[bj]);
                    }
                    assert forall|i: int| 0 <= i < after.len() implies map.contains_key(
                        (#[trigger] after[i]).0@,
                    ) && map[after[i].0@] == after[i].1 by {
                        let bi = if i < k { i } else { i + 1 };
                        assert(after[i] == before[bi]);
                        lemma_keyed_entry(before, bi);
                        if bi < k {
                            assert(before[bi].0@ != before[k as int].0@);
                        } else {
                            assert(before[k as int].0@ != before[bi].0@);
                        }
                    }
                    assert forall|key: Seq<char>| #[trigger] map.contains_key(key) implies has_key(
                        after,
                        key,
                    ) by {
                        let bi = choose|i: int|
                            0 <= i < before.len() && (#[trigger] before[i]).0@ == key;
                        let i = if bi < k { bi } else { bi - 1 };
                        assert(after[i] == before[bi]);
                    }
                    lemma_keyed_is(after, map);
                }
                Some(entry.1)
            },
            None => {
                assert(self@.remove(id@) =~= self@);
                None
            },
        }
    }

    /// Keeps `value` under `id` and returns what was kept there before.
    pub fn insert(&mut self, id: SubscriptionId, value: T) -> (r: Option<T>)
        requires
            old(self).wf(),
        ensures
            final(self).wf(),
            final(self)@ == old(self)@.insert(id@, value),
            r is Some <==> old(self)@.contains_key(id@),
            r matches Some(previous) ==> previous == old(self)@[id@],
    {
        let ghost key = id@;
        let previous = self.remove(&id);
        let ghost before = self.entries@;
        self.entries.push((id, value));
        proof {
            let after = self.entries@;
            let map = keyed(before).insert(key, value);
            let n = before.len() as int;
            assert(after[n].0@ == key && after[n].1 == value);
            assert forall|i: int, j: int| 0 <= i < j < after.len() implies (#[trigger] after[i]).0@
                != (#[trigger] after[j]).0@ by {
                assert(after[i] == before[i]);
                if j < n {
                    assert(after[j] == before[j]);
                } else {
                    lemma_keyed_entry(before, i);
                }
            }
            assert forall|i: int| 0 <= i < after.len() implies map.contains_key(
                (#[trigger] after[i]).0@,
            ) && map[after[i].0@] == after[i].1 by {
                if i < n {
                    assert(after[i] == before[i]);
                    lemma_keyed_entry(before, i);
                }
            }
            assert forall|k: Seq<char>| #[trigger] map.contains_key(k) implies has_key(after, k) by {
                if k == key {
                    assert(after[n].0@ == k);
                } else {
                    let bi = choose|i: int| 0 <= i < before.len() && (#[trigger] before[i]).0@ == k;
                    assert(after[bi] == before[bi]);
                }
            }
            lemma_keyed_is(after, map);
            assert(old(self)@.remove(key).insert(key, value) =~= old(self)@.insert(key, value));
        }
        previous
    }
}

} // verus!
