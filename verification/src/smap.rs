//! A verified string-keyed map backed by an association list, viewed as
//! a mathematical `Map<Seq<char>, T>`. It backs the slug registry and
//! the per-session table of in-flight correlation ids; a single mutex
//! around a value of it gives the linearizable insert/remove/get the
//! design asks of those tables.

use vstd::prelude::*;
use crate::strutil::str_eq;

verus! {

/// The map denoted by an association list; later entries win.
pub open spec fn map_of<T>(entries: Seq<(String, T)>) -> Map<Seq<char>, T>
    decreases entries.len(),
{
    if entries.len() == 0 {
        Map::empty()
    } else {
        map_of(entries.drop_last()).insert(entries.last().0@, entries.last().1)
    }
}

/// No two entries share a key.
pub open spec fn unique_keys<T>(entries: Seq<(String, T)>) -> bool {
    forall|i: int, j: int| 0 <= i < j < entries.len() ==> entries[i].0@ != entries[j].0@
}

/// A key is in the map exactly when some entry holds it.
pub proof fn lemma_map_of_contains<T>(entries: Seq<(String, T)>, k: Seq<char>)
    ensures
        map_of(entries).contains_key(k) <==> exists|i: int|
            0 <= i < entries.len() && entries[i].0@ == k,
    decreases entries.len(),
{
    if entries.len() > 0 {
        lemma_map_of_contains(entries.drop_last(), k);
        if entries.last().0@ == k {
            assert(entries[entries.len() - 1].0@ == k);
        } else if map_of(entries).contains_key(k) {
            let i = choose|i: int| 0 <= i < entries.drop_last().len() && entries.drop_last()[i].0@
                == k;
            assert(entries[i].0@ == k);
        } else {
            if exists|i: int| 0 <= i < entries.len() && entries[i].0@ == k {
                let i = choose|i: int| 0 <= i < entries.len() && entries[i].0@ == k;
                assert(i < entries.len() - 1);
                assert(entries.drop_last()[i].0@ == k);
            }
        }
    }
}

/// With unique keys, the entry holding a key gives its map value.
pub proof fn lemma_map_of_get<T>(entries: Seq<(String, T)>, i: int)
    requires
        unique_keys(entries),
        0 <= i < entries.len(),
    ensures
        map_of(entries).contains_key(entries[i].0@),
        map_of(entries)[entries[i].0@] == entries[i].1,
    decreases entries.len(),
{
    if i == entries.len() - 1 {
    } else {
        assert(unique_keys(entries.drop_last())) by {
            assert(forall|a: int, b: int|
                0 <= a < b < entries.drop_last().len() ==> entries.drop_last()[a].0@
                    != entries.drop_last()[b].0@) by {
                assert(forall|a: int, b: int|
                    0 <= a < b < entries.len() - 1 ==> entries[a].0@ != entries[b].0@);
            }
        }
        lemma_map_of_get(entries.drop_last(), i);
        assert(entries.drop_last()[i] == entries[i]);
        assert(entries[i].0@ != entries.last().0@);
    }
}

/// Dropping the last entry keeps keys unique.
pub proof fn lemma_unique_drop_last<T>(entries: Seq<(String, T)>)
    requires
        unique_keys(entries),
        entries.len() > 0,
    ensures
        unique_keys(entries.drop_last()),
{
    assert(forall|a: int, b: int|
        0 <= a < b < entries.drop_last().len() ==> entries.drop_last()[a].0@
            != entries.drop_last()[b].0@) by {
        assert(forall|a: int, b: int|
            0 <= a < b < entries.len() - 1 ==> entries[a].0@ != entries[b].0@);
    }
}

/// With unique keys, removing the entry at `i` removes exactly its key
/// from the map.
pub proof fn lemma_map_of_remove_idx<T>(entries: Seq<(String, T)>, i: int)
    requires
        unique_keys(entries),
        0 <= i < entries.len(),
    ensures
        unique_keys(entries.remove(i)),
        map_of(entries.remove(i)) == map_of(entries).remove(entries[i].0@),
    decreases entries.len(),
{
    let k = entries[i].0@;
    assert(unique_keys(entries.remove(i))) by {
        assert(forall|a: int, b: int|
            0 <= a < b < entries.remove(i).len() ==> entries.remove(i)[a].0@
                != entries.remove(i)[b].0@) by {
            assert(forall|a: int, b: int|
                0 <= a < b < entries.len() ==> entries[a].0@ != entries[b].0@);
        }
    }
    if i == entries.len() - 1 {
        assert(entries.remove(i) =~= entries.drop_last());
        lemma_unique_drop_last(entries);
        lemma_map_of_contains(entries.drop_last(), k);
        if map_of(entries.drop_last()).contains_key(k) {
            let j = choose|j: int| 0 <= j < entries.drop_last().len() && entries.drop_last()[j].0@
                == k;
            assert(entries[j].0@ == k);
            assert(false);
        }
        assert(map_of(entries).remove(k) =~= map_of(entries.drop_last()));
    } else {
        let lastp = entries.last();
        lemma_unique_drop_last(entries);
        lemma_map_of_remove_idx(entries.drop_last(), i);
        assert(entries.remove(i).len() == entries.len() - 1);
        assert(entries.remove(i).drop_last() =~= entries.drop_last().remove(i));
        assert(entries.remove(i).last() == lastp);
        assert(map_of(entries.remove(i)) == map_of(entries.drop_last().remove(i)).insert(
            lastp.0@,
            lastp.1,
        ));
        assert(entries.drop_last()[i] == entries[i]);
        assert(k != lastp.0@);
        assert(map_of(entries.drop_last()).remove(k).insert(lastp.0@, lastp.1) =~= map_of(
            entries.drop_last(),
        ).insert(lastp.0@, lastp.1).remove(k));
    }
}


/// How many entries hold key `k`.
pub open spec fn key_count<T>(entries: Seq<(String, T)>, k: Seq<char>) -> nat
    decreases entries.len(),
{
    if entries.len() == 0 {
        0
    } else {
        key_count(entries.drop_last(), k) + (if entries.last().0@ == k {
            1nat
        } else {
            0nat
        })
    }
}

/// A positive count names an entry.
proof fn lemma_key_count_pos<T>(entries: Seq<(String, T)>, k: Seq<char>)
    requires
        key_count(entries, k) > 0,
    ensures
        exists|i: int| 0 <= i < entries.len() && entries[i].0@ == k,
    decreases entries.len(),
{
    if entries.last().0@ == k {
        assert(entries[entries.len() - 1].0@ == k);
    } else {
        lemma_key_count_pos(entries.drop_last(), k);
        let i = choose|i: int| 0 <= i < entries.drop_last().len() && entries.drop_last()[i].0@
            == k;
        assert(entries[i].0@ == k);
    }
}

/// With unique keys, no key is held by more than one entry.
pub proof fn lemma_key_count_at_most_one<T>(entries: Seq<(String, T)>, k: Seq<char>)
    requires
        unique_keys(entries),
    ensures
        key_count(entries, k) <= 1,
    decreases entries.len(),
{
    if entries.len() > 0 {
        lemma_unique_drop_last(entries);
        lemma_key_count_at_most_one(entries.drop_last(), k);
        if entries.last().0@ == k && key_count(entries.drop_last(), k) > 0 {
            lemma_key_count_pos(entries.drop_last(), k);
            let i = choose|i: int| 0 <= i < entries.drop_last().len()
                && entries.drop_last()[i].0@ == k;
            assert(entries[i].0@ == k);
            assert(entries[entries.len() - 1].0@ == k);
            assert(false);
        }
    }
}

/// A string-keyed map with atomic-feeling insert, remove and get; the
/// view is the mathematical map it denotes.
pub struct StrMap<T> {
    entries: Vec<(String, T)>,
}

impl<T> View for StrMap<T> {
    type V = Map<Seq<char>, T>;

    closed spec fn view(&self) -> Map<Seq<char>, T> {
        map_of(self.entries@)
    }
}

impl<T: Copy> StrMap<T> {
    /// Internal invariant: one entry per key.
    pub closed spec fn wf(&self) -> bool {
        unique_keys(self.entries@)
    }

    /// The number of entries.
    pub closed spec fn spec_len(&self) -> nat {
        self.entries@.len()
    }

    /// An empty map.
    pub fn new() -> (r: StrMap<T>)
        ensures
            r@ == Map::<Seq<char>, T>::empty(),
            r.wf(),
            r.spec_len() == 0,
    {
        StrMap { entries: Vec::new() }
    }

    /// The index of the entry holding `key`, if any.
    fn find(&self, key: &str) -> (r: Option<usize>)
        ensures
            match r {
                Some(i) => i < self.entries@.len() && self.entries@[i as int].0@ == key@,
                None => forall|t: int|
                    0 <= t < self.entries@.len() ==> self.entries@[t].0@ != key@,
            },
    {
        let mut i: usize = 0;
        while i < self.entries.len()
            invariant
                i <= self.entries@.len(),
                forall|t: int| 0 <= t < i ==> self.entries@[t].0@ != key@,
            decreases self.entries@.len() - i,
        {
            if str_eq(self.entries[i].0.as_str(), key) {
                return Some(i);
            }
            i = i + 1;
        }
        None
    }

    /// Binds `key` to `value`, replacing any prior binding.
    pub fn insert(&mut self, key: String, value: T)
        requires
            old(self).wf(),
        ensures
            final(self).wf(),
            final(self)@ == old(self)@.insert(key@, value),
            final(self).spec_len() <= old(self).spec_len() + 1,
    {
        let ghost pre = self.entries@;
        match self.find(key.as_str()) {
            Some(i) => {
                proof {
                    lemma_map_of_remove_idx(pre, i as int);
                }
                self.entries.remove(i);
                let ghost mid = self.entries@;
                self.entries.push((key, value));
                proof {
                    assert(self.entries@.drop_last() =~= mid);
                    assert(map_of(self.entries@) == map_of(mid).insert(key@, value));
                    assert(map_of(pre).remove(key@).insert(key@, value) =~= map_of(pre).insert(
                        key@,
                        value,
                    ));
                    assert(unique_keys(self.entries@)) by {
                        assert(forall|t: int| 0 <= t < mid.len() ==> mid[t] == pre.remove(i as int)[t]);
                        lemma_map_of_contains(mid, key@);
                        if exists|t: int| 0 <= t < mid.len() && mid[t].0@ == key@ {
                            let t = choose|t: int| 0 <= t < mid.len() && mid[t].0@ == key@;
                            assert(pre.remove(i as int)[t].0@ == key@);
                            if t < i {
                                assert(pre[t].0@ == key@);
                                assert(false);
                            } else {
                                assert(pre[t + 1].0@ == key@);
                                assert(false);
                            }
                        }
                    }
                }
            },
            None => {
                self.entries.push((key, value));
                proof {
                    assert(self.entries@.drop_last() =~= pre);
                    assert(map_of(self.entries@) == map_of(pre).insert(key@, value));
                    assert(unique_keys(self.entries@));
                }
            },
        }
    }

    /// Removes the binding of `key`, if any; idempotent.
    pub fn remove(&mut self, key: &str)
        requires
            old(self).wf(),
        ensures
            final(self).wf(),
            final(self)@ == old(self)@.remove(key@),
            final(self).spec_len() <= old(self).spec_len(),
    {
        let ghost pre = self.entries@;
        match self.find(key) {
            Some(i) => {
                proof {
                    lemma_map_of_remove_idx(pre, i as int);
                }
                self.entries.remove(i);
            },
            None => {
                proof {
                    lemma_map_of_contains(pre, key@);
                    assert(!map_of(pre).contains_key(key@));
                    assert(map_of(pre).remove(key@) =~= map_of(pre));
                }
            },
        }
    }

    /// The value bound to `key`, if any.
    pub fn get(&self, key: &str) -> (r: Option<T>)
        requires
            self.wf(),
        ensures
            r == if self@.contains_key(key@) {
                Some(self@[key@])
            } else {
                None::<T>
            },
    {
        match self.find(key) {
            Some(i) => {
                proof {
                    lemma_map_of_get(self.entries@, i as int);
                }
                Some(self.entries[i].1)
            },
            None => {
                proof {
                    lemma_map_of_contains(self.entries@, key@);
                }
                None
            },
        }
    }

    /// Whether `key` is bound.
    pub fn contains(&self, key: &str) -> (r: bool)
        requires
            self.wf(),
        ensures
            r == self@.contains_key(key@),
    {
        match self.find(key) {
            Some(i) => {
                proof {
                    lemma_map_of_get(self.entries@, i as int);
                }
                true
            },
            None => {
                proof {
                    lemma_map_of_contains(self.entries@, key@);
                }
                false
            },
        }
    }

    /// Empties the map, handing back all bound values.
    pub fn drain_values(&mut self) -> (r: Vec<T>)
        requires
            old(self).wf(),
        ensures
            final(self).wf(),
            final(self)@ == Map::<Seq<char>, T>::empty(),
            r@.len() == old(self).spec_len(),
            forall|t: int|
                0 <= t < r@.len() ==> old(self)@.contains_key(#[trigger] old(
                    self,
                ).entry_key(t)) && old(self)@[old(self).entry_key(t)] == r@[t],
    {
        let ghost pre = self.entries@;
        let mut out: Vec<T> = Vec::new();
        let mut i: usize = 0;
        while i < self.entries.len()
            invariant
                i <= self.entries@.len(),
                self.entries@ == pre,
                unique_keys(pre),
                out@.len() == i,
                forall|t: int| 0 <= t < i ==> out@[t] == pre[t].1,
            decreases self.entries@.len() - i,
        {
            out.push(self.entries[i].1);
            i = i + 1;
        }
        self.entries = Vec::new();
        proof {
            assert(map_of(self.entries@) =~= Map::<Seq<char>, T>::empty());
            assert forall|t: int| 0 <= t < out@.len() implies old(self)@.contains_key(
                #[trigger] old(self).entry_key(t),
            ) && old(self)@[old(self).entry_key(t)] == out@[t] by {
                lemma_map_of_get(pre, t);
            }
        }
        out
    }

    /// The key of the entry at position `t` before a drain.
    pub closed spec fn entry_key(&self, t: int) -> Seq<char> {
        self.entries@[t].0@
    }

    /// How many entries of the backing store hold `k`.
    pub closed spec fn spec_key_count(&self, k: Seq<char>) -> nat {
        key_count(self.entries@, k)
    }

    /// At any instant a well-formed map holds at most one entry per
    /// key: a second binding replaces the first, never joins it.
    pub proof fn lemma_at_most_one_entry(&self, k: Seq<char>)
        requires
            self.wf(),
        ensures
            self.spec_key_count(k) <= 1,
    {
        lemma_key_count_at_most_one(self.entries@, k);
    }
}

} // verus!
