//! Maps whose keys are compared by their mathematical value.
use vstd::prelude::*;

verus! {

/// A key that can be compared by its mathematical value.
pub trait MapKey: View {
    /// Whether two keys have the same value.
    fn same_key_as(&self, other: &Self) -> (same: bool)
        ensures
            same == (self@ == other@),
    ;
}

/// A map from keys, taken by their value, to values. The entries stand in the
/// order in which their keys were first inserted.
pub struct AssocList<K: MapKey, V> {
    entries: Vec<(K, V)>,
}

impl<K: MapKey, V> View for AssocList<K, V> {
    type V = Map<<K as View>::V, V>;

    closed spec fn view(&self) -> Map<<K as View>::V, V> {
        entries_map(self.entries@)
    }
}

/// Whether some entry has the key `k`.
spec fn has_key<K: MapKey, V>(entries: Seq<(K, V)>, k: <K as View>::V) -> bool {
    exists|i: int| 0 <= i < entries.len() && (#[trigger] entries[i]).0@ == k
}

/// The place of the entry with the key `k`.
spec fn place<K: MapKey, V>(entries: Seq<(K, V)>, k: <K as View>::V) -> int {
    choose|i: int| 0 <= i < entries.len() && (#[trigger] entries[i]).0@ == k
}

spec fn entries_map<K: MapKey, V>(entries: Seq<(K, V)>) -> Map<<K as View>::V, V> {
    Map::new(
        |k: <K as View>::V| has_key(entries, k),
        |k: <K as View>::V| entries[place(entries, k)].1,
    )
}

/// Whether no two entries have the same key.
spec fn keys_distinct<K: MapKey, V>(entries: Seq<(K, V)>) -> bool {
    forall|i: int, j: int|
        0 <= i < j < entries.len() ==> (#[trigger] entries[i]).0@ != (#[trigger] entries[j]).0@
}

proof fn lemma_place<K: MapKey, V>(entries: Seq<(K, V)>, i: int)
    requires
        keys_distinct(entries),
        0 <= i < entries.len(),
    ensures
        has_key(entries, entries[i].0@),
        place(entries, entries[i].0@) == i,
        entries_map(entries).contains_key(entries[i].0@),
        entries_map(entries)[entries[i].0@] == entries[i].1,
{
    let k = entries[i].0@;
    assert(entries[i].0@ == k);
    let j = place(entries, k);
    assert(0 <= j < entries.len() && entries[j].0@ == k);
    if j < i {
        assert(entries[j].0@ != entries[i].0@);
    }
    if i < j {
        assert(entries[i].0@ != entries[j].0@);
    }
}

impl<K: MapKey, V> AssocList<K, V> {
    /// Whether no two entries have the same key.
    pub closed spec fn wf(&self) -> bool {
        keys_distinct(self.entries@)
    }

    /// The empty map.
    pub fn new() -> (m: Self)
        ensures
            m.wf(),
            m@ == Map::<<K as View>::V, V>::empty(),
    {
        let m = AssocList { entries: Vec::new() };
        assert(m@ =~= Map::<<K as View>::V, V>::empty());
        m
    }

    /// The number of entries.
    pub fn len(&self) -> (n: usize)
        requires
            self.wf(),
        ensures
            n == self@.dom().len(),
            self@.dom().finite(),
    {
        proof {
            lemma_entries_count(self.entries@);
        }
        self.entries.len()
    }

    /// The place of a key, or the number of entries where it is missing.
    fn find(&self, key: &K) -> (at: usize)
        requires
            self.wf(),
        ensures
            at <= self.entries@.len(),
            at < self.entries@.len() ==> self.entries@[at as int].0@ == key@
                && self@.contains_key(key@) && self@[key@] == self.entries@[at as int].1,
            at == self.entries@.len() ==> !self@.contains_key(key@),
    {
        let mut i: usize = 0;
        while i < self.entries.len()
            invariant
                self.wf(),
                i <= self.entries@.len(),
                forall|j: int| 0 <= j < i ==> (#[trigger] self.entries@[j]).0@ != key@,
            decreases self.entries@.len() - i,
        {
            if self.entries[i].0.same_key_as(key) {
                proof {
                    lemma_place(self.entries@, i as int);
                }
                return i;
            }
            i = i + 1;
        }
        i
    }

    /// The value of a key.
    pub fn get(&self, key: &K) -> (v: Option<&V>)
        requires
            self.wf(),
        ensures
            match v {
                Some(v) => self@.contains_key(key@) && *v == self@[key@],
                None => !self@.contains_key(key@),
            },
    {
        let at: usize = self.find(key);
        if at < self.entries.len() {
            Some(&self.entries[at].1)
        } else {
            None
        }
    }

    /// Removes a key and gives back its value.
    pub fn remove(&mut self, key: &K) -> (v: Option<V>)
        requires
            old(self).wf(),
        ensures
            final(self).wf(),
            final(self)@ == old(self)@.remove(key@),
            match v {
                Some(v) => old(self)@.contains_key(key@) && v == old(self)@[key@],
                None => !old(self)@.contains_key(key@),
            },
    {
        let at: usize = self.find(key);
        if at < self.entries.len() {
            let ghost before = self.entries@;
            let entry = self.entries.remove(at);
            proof {
                lemma_remove(before, at as int);
            }
            Some(entry.1)
        } else {
            assert(self@ =~= old(self)@.remove(key@));
            None
        }
    }

    /// Gives a key a value, in place of the one that it had.
    pub fn insert(&mut self, key: K, value: V)
        requires
            old(self).wf(),
        ensures
            final(self).wf(),
            final(self)@ == old(self)@.insert(key@, value),
    {
        let gone = self.remove(&key);
        let ghost before = self.entries@;
        assert(!self@.contains_key(key@));
        self.entries.push((key, value));
        proof {
            lemma_push(before, key, value);
            assert(old(self)@.remove(key@).insert(key@, value) =~= old(self)@.insert(key@, value));
        }
    }

    /// Removes the entries that `keep` does not accept.
    pub fn retain<F: Fn(&K, &V) -> bool>(
        &mut self,
        keep: F,
        Ghost(kept): Ghost<spec_fn(<K as View>::V, V) -> bool>,
    )
        requires
            old(self).wf(),
            forall|k: &K, v: &V| call_requires(keep, (k, v)),
            forall|k: &K, v: &V, b: bool|
                #[trigger] call_ensures(keep, (k, v), b) ==> b == kept(k@, *v),
        ensures
            final(self).wf(),
            final(self)@ == only(old(self)@, kept),
    {
        let ghost before = self@;
        let mut i: usize = 0;
        while i < self.entries.len()
            invariant
                self.wf(),
                i <= self.entries@.len(),
                before == old(self)@,
                forall|k: &K, v: &V| call_requires(keep, (k, v)),
                forall|k: &K, v: &V, b: bool|
                    #[trigger] call_ensures(keep, (k, v), b) ==> b == kept(k@, *v),
                forall|j: int|
                    0 <= j < i ==> kept(
                        (#[trigger] self.entries@[j]).0@,
                        self.entries@[j].1,
                    ),
                forall|k: <K as View>::V| #[trigger]
                    self@.contains_key(k) ==> before.contains_key(k) && self@[k] == before[k],
                forall|k: <K as View>::V|
                    before.contains_key(k) && kept(k, before[k]) ==> #[trigger] self@.contains_key(
                        k,
                    ),
            decreases self.entries@.len() - i,
        {
            let entry = &self.entries[i];
            let stays: bool = keep(&entry.0, &entry.1);
            let ghost now = self.entries@;
            let ghost prev = self@;
            proof {
                lemma_place(now, i as int);
                assert(stays == kept(now[i as int].0@, now[i as int].1));
            }
            if stays {
                i = i + 1;
            } else {
                let gone = self.entries.remove(i);
                proof {
                    lemma_remove(now, i as int);
                    let key = now[i as int].0@;
                    assert(self@ == prev.remove(key));
                    assert forall|k: <K as View>::V| #[trigger]
                        self@.contains_key(k) implies before.contains_key(k) && self@[k]
                        == before[k] by {
                        assert(prev.contains_key(k));
                    }
                    assert forall|k: <K as View>::V|
                        before.contains_key(k) && kept(k, before[k]) implies #[trigger]
                    self@.contains_key(k) by {
                        assert(prev.contains_key(k));
                        assert(k != key);
                    }
                }
            }
        }
        proof {
            let after = only(before, kept);
            assert forall|k: <K as View>::V|
                #![trigger self@.dom().contains(k)]
                #![trigger after.dom().contains(k)]
                self@.dom().contains(k) == after.dom().contains(k) && (self@.dom().contains(k)
                    ==> self@[k] == after[k]) by {
                if self@.contains_key(k) {
                    let j = place(self.entries@, k);
                    lemma_place(self.entries@, j);
                    assert(kept(self.entries@[j].0@, self.entries@[j].1));
                }
                if before.contains_key(k) && kept(k, before[k]) {
                    assert(self@.contains_key(k));
                }
            }
            assert(self@ =~= after);
        }
    }
}

/// The entries of a map that `kept` accepts.
pub open spec fn only<A, V>(m: Map<A, V>, kept: spec_fn(A, V) -> bool) -> Map<A, V> {
    Map::new(|k: A| m.contains_key(k) && kept(k, m[k]), |k: A| m[k])
}

proof fn lemma_remove<K: MapKey, V>(entries: Seq<(K, V)>, at: int)
    requires
        keys_distinct(entries),
        0 <= at < entries.len(),
    ensures
        keys_distinct(entries.remove(at)),
        entries_map(entries.remove(at)) == entries_map(entries).remove(entries[at].0@),
{
    let rest = entries.remove(at);
    let key = entries[at].0@;
    assert forall|i: int, j: int| 0 <= i < j < rest.len() implies (#[trigger] rest[i]).0@ != (
    #[trigger] rest[j]).0@ by {
        let p = if i < at {
            i
        } else {
            i + 1
        };
        let q = if j < at {
            j
        } else {
            j + 1
        };
        assert(rest[i] == entries[p] && rest[j] == entries[q]);
    }
    let left = entries_map(rest);
    let right = entries_map(entries).remove(key);
    assert forall|k: <K as View>::V|
        #![trigger left.dom().contains(k)]
        #![trigger right.dom().contains(k)]
        left.dom().contains(k) == right.dom().contains(k) && (left.dom().contains(k) ==> left[k]
            == right[k]) by {
        if has_key(rest, k) {
            let i = place(rest, k);
            let p = if i < at {
                i
            } else {
                i + 1
            };
            assert(rest[i] == entries[p]);
            lemma_place(entries, p);
            lemma_place(rest, i);
            lemma_place(entries, at);
            if p < at {
                assert(entries[p].0@ != entries[at].0@);
            } else {
                assert(entries[at].0@ != entries[p].0@);
            }
        }
        if has_key(entries, k) && k != key {
            let p = place(entries, k);
            let i = if p < at {
                p
            } else {
                p - 1
            };
            assert(p != at);
            assert(rest[i] == entries[p]);
            lemma_place(rest, i);
        }
    }
    assert(left =~= right);
}

proof fn lemma_push<K: MapKey, V>(entries: Seq<(K, V)>, key: K, value: V)
    requires
        keys_distinct(entries),
        !has_key(entries, key@),
    ensures
        keys_distinct(entries.push((key, value))),
        entries_map(entries.push((key, value))) == entries_map(entries).insert(key@, value),
{
    let longer = entries.push((key, value));
    let n = entries.len() as int;
    assert forall|i: int, j: int| 0 <= i < j < longer.len() implies (#[trigger] longer[i]).0@ != (
    #[trigger] longer[j]).0@ by {
        assert(longer[i] == entries[i]);
        if j < n {
            assert(longer[j] == entries[j]);
        }
    }
    assert(longer[n].0@ == key@);
    lemma_place(longer, n);
    let left = entries_map(longer);
    let right = entries_map(entries).insert(key@, value);
    assert forall|k: <K as View>::V|
        #![trigger left.dom().contains(k)]
        #![trigger right.dom().contains(k)]
        left.dom().contains(k) == right.dom().contains(k) && (left.dom().contains(k) ==> left[k]
            == right[k]) by {
        if has_key(longer, k) {
            let i = place(longer, k);
            lemma_place(longer, i);
            if i < n {
                assert(longer[i] == entries[i]);
                lemma_place(entries, i);
            }
        }
        if has_key(entries, k) {
            let i = place(entries, k);
            assert(longer[i] == entries[i]);
            lemma_place(longer, i);
        }
    }
    assert(left =~= right);
}

proof fn lemma_entries_count<K: MapKey, V>(entries: Seq<(K, V)>)
    requires
        keys_distinct(entries),
    ensures
        entries_map(entries).dom().finite(),
        entries_map(entries).dom().len() == entries.len(),
    decreases entries.len(),
{
    if entries.len() == 0 {
        assert(entries_map(entries).dom() =~= Set::empty());
    } else {
        let at = entries.len() - 1;
        lemma_remove(entries, at);
        lemma_entries_count(entries.remove(at));
        lemma_place(entries, at);
        let all = entries_map(entries).dom();
        assert(entries_map(entries.remove(at)).dom() =~= all.remove(entries[at].0@));
        assert(all.contains(entries[at].0@));
        assert(all =~= all.remove(entries[at].0@).insert(entries[at].0@));
    }
}

} // verus!
