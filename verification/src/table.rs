//! Association tables from opaque integer identities to component values.
//!
//! The store keeps one record per entity in such a table.  Each key is held at
//! most once; the view of a table is the finite map it represents, and every
//! operation is specified against that map.

use vstd::prelude::*;

verus! {

/// A table of `(key, value)` entries with pairwise distinct keys.
pub struct Table<V> {
    pub entries: Vec<(u64, V)>,
}

/// The map that a sequence of entries denotes (later entries would win,
/// though well-formed tables never repeat a key).
pub open spec fn entries_map<V>(s: Seq<(u64, V)>) -> Map<u64, V>
    decreases s.len(),
{
    if s.len() == 0 {
        Map::empty()
    } else {
        entries_map(s.drop_last()).insert(s.last().0, s.last().1)
    }
}

/// Some entry of `s` carries the key `k`.
pub open spec fn has_key<V>(s: Seq<(u64, V)>, k: u64) -> bool {
    exists|i: int| 0 <= i < s.len() && (#[trigger] s[i]).0 == k
}

/// No two entries of `s` carry the same key.
pub open spec fn unique_keys<V>(s: Seq<(u64, V)>) -> bool {
    forall|i: int, j: int| 0 <= i < j < s.len() ==> (#[trigger] s[i]).0 != (#[trigger] s[j]).0
}

/// If no entry carries `k`, the key does not occur.
pub proof fn lemma_not_has_key<V>(s: Seq<(u64, V)>, k: u64)
    requires
        forall|j: int| 0 <= j < s.len() ==> (#[trigger] s[j]).0 != k,
    ensures
        !has_key(s, k),
{
    if has_key(s, k) {
        let j = choose|j: int| 0 <= j < s.len() && (#[trigger] s[j]).0 == k;
        assert(s[j].0 != k);
    }
}

impl<V> View for Table<V> {
    type V = Map<u64, V>;

    open spec fn view(&self) -> Map<u64, V> {
        entries_map(self.entries@)
    }
}

/// The domain of the denoted map is exactly the set of keys that occur.
pub proof fn lemma_entries_dom<V>(s: Seq<(u64, V)>)
    ensures
        forall|k: u64| #[trigger] entries_map(s).dom().contains(k) <==> has_key(s, k),
    decreases s.len(),
{
    if s.len() > 0 {
        lemma_entries_dom(s.drop_last());
        assert forall|k: u64| #[trigger] entries_map(s).dom().contains(k) implies has_key(s, k) by {
            if k == s.last().0 {
                assert((s[s.len() - 1]).0 == k);
            } else {
                assert(entries_map(s.drop_last()).dom().contains(k));
                assert(has_key(s.drop_last(), k));
                let i = choose|i: int|
                    0 <= i < s.drop_last().len() && (#[trigger] s.drop_last()[i]).0 == k;
                assert(s.drop_last()[i] == s[i]);
                assert((s[i]).0 == k);
            }
        }
        assert forall|k: u64| has_key(s, k) implies #[trigger] entries_map(s).dom().contains(k) by {
            let i = choose|i: int| 0 <= i < s.len() && (#[trigger] s[i]).0 == k;
            if i < s.len() - 1 {
                assert(s.drop_last()[i] == s[i]);
                assert(has_key(s.drop_last(), k));
                assert(entries_map(s.drop_last()).dom().contains(k));
            } else {
                assert(s.last() == s[s.len() - 1]);
            }
        }
    }
}

/// Under distinct keys, the entry at index `i` gives the map's value at its key.
pub proof fn lemma_entries_index<V>(s: Seq<(u64, V)>, i: int)
    requires
        unique_keys(s),
        0 <= i < s.len(),
    ensures
        entries_map(s).dom().contains(s[i].0),
        entries_map(s)[s[i].0] == s[i].1,
    decreases s.len(),
{
    if i < s.len() - 1 {
        lemma_entries_index(s.drop_last(), i);
        assert((s.drop_last()[i]) == s[i]);
        assert(s[i].0 != s.last().0);
    }
}

/// Updating the value at index `i` updates the map at that entry's key.
pub proof fn lemma_entries_update<V>(s: Seq<(u64, V)>, i: int, v: V)
    requires
        unique_keys(s),
        0 <= i < s.len(),
    ensures
        entries_map(s.update(i, (s[i].0, v))) == entries_map(s).insert(s[i].0, v),
        unique_keys(s.update(i, (s[i].0, v))),
    decreases s.len(),
{
    let k = s[i].0;
    let t = s.update(i, (k, v));
    if i == s.len() - 1 {
        assert(t.drop_last() =~= s.drop_last());
        assert(t.last() == (k, v));
        assert(entries_map(s.drop_last()).insert(k, s[i].1).insert(k, v)
            =~= entries_map(s.drop_last()).insert(k, v));
    } else {
        lemma_entries_update(s.drop_last(), i, v);
        assert((s.drop_last()[i]) == s[i]);
        assert(t.drop_last() =~= s.drop_last().update(i, (k, v)));
        assert(t.last() == s.last());
        let l = s.last();
        assert(k != l.0);
        assert(entries_map(s.drop_last()).insert(k, v).insert(l.0, l.1)
            =~= entries_map(s.drop_last()).insert(l.0, l.1).insert(k, v));
    }
}

/// Removing the entry at index `i` removes the map binding at its key.
pub proof fn lemma_entries_remove<V>(s: Seq<(u64, V)>, i: int)
    requires
        unique_keys(s),
        0 <= i < s.len(),
    ensures
        entries_map(s.remove(i)) == entries_map(s).remove(s[i].0),
        unique_keys(s.remove(i)),
    decreases s.len(),
{
    let k = s[i].0;
    if i == s.len() - 1 {
        assert(s.remove(i) =~= s.drop_last());
        lemma_entries_dom(s.drop_last());
        assert(!has_key(s.drop_last(), k)) by {
            if has_key(s.drop_last(), k) {
                let j = choose|j: int|
                    0 <= j < s.drop_last().len() && (#[trigger] s.drop_last()[j]).0 == k;
                assert((s[j]).0 == (s[i]).0);
            }
        }
        assert(entries_map(s.drop_last()).insert(k, s[i].1).remove(k)
            =~= entries_map(s.drop_last()));
    } else {
        lemma_entries_remove(s.drop_last(), i);
        assert((s.drop_last()[i]) == s[i]);
        assert(s.remove(i).drop_last() =~= s.drop_last().remove(i));
        assert(s.remove(i).last() == s.last());
        let l = s.last();
        assert(k != l.0);
        assert(entries_map(s.drop_last()).remove(k).insert(l.0, l.1)
            =~= entries_map(s.drop_last()).insert(l.0, l.1).remove(k));
        assert(entries_map(s.remove(i))
            == entries_map(s.drop_last().remove(i)).insert(l.0, l.1));
    }
}

/// Inserting an entry with a fresh key at position `i` adds its binding.
pub proof fn lemma_entries_insert_at<V>(s: Seq<(u64, V)>, i: int, k: u64, v: V)
    requires
        unique_keys(s),
        !has_key(s, k),
        0 <= i <= s.len(),
    ensures
        entries_map(s.insert(i, (k, v))) == entries_map(s).insert(k, v),
        unique_keys(s.insert(i, (k, v))),
    decreases s.len(),
{
    let t = s.insert(i, (k, v));
    assert forall|a: int, b: int| 0 <= a < b < t.len() implies (#[trigger] t[a]).0
        != (#[trigger] t[b]).0 by {
        if t[a].0 == t[b].0 {
            if a == i {
                assert(t[b] == s[b - 1]);
                assert(has_key(s, k));
            } else if b == i {
                assert(t[a] == s[a]);
                assert(has_key(s, k));
            } else {
                let a0 = if a < i { a } else { a - 1 };
                let b0 = if b < i { b } else { b - 1 };
                assert(t[a] == s[a0]);
                assert(t[b] == s[b0]);
            }
        }
    }
    if i == s.len() {
        assert(t.drop_last() =~= s);
        assert(t.last() == (k, v));
    } else {
        assert(t.last() == t[s.len() as int]);
        assert(t.last() == s[s.len() - 1]);
        let l = s.last();
        assert(!has_key(s.drop_last(), k)) by {
            if has_key(s.drop_last(), k) {
                let j = choose|j: int|
                    0 <= j < s.drop_last().len() && (#[trigger] s.drop_last()[j]).0 == k;
                assert((s[j]).0 == k);
            }
        }
        lemma_entries_insert_at(s.drop_last(), i, k, v);
        assert(t.drop_last() =~= s.drop_last().insert(i, (k, v)));
        assert(k != l.0) by {
            assert((s[s.len() - 1]).0 == l.0);
            if k == l.0 {
                assert(has_key(s, k));
            }
        }
        assert(entries_map(s.drop_last()).insert(k, v).insert(l.0, l.1)
            =~= entries_map(s.drop_last()).insert(l.0, l.1).insert(k, v));
    }
}

/// A well-formed table denotes a map with exactly as many bindings as entries.
pub proof fn lemma_entries_dom_len<V>(s: Seq<(u64, V)>)
    requires
        unique_keys(s),
    ensures
        entries_map(s).dom().finite(),
        entries_map(s).dom().len() == s.len(),
    decreases s.len(),
{
    if s.len() > 0 {
        lemma_entries_dom_len(s.drop_last());
        lemma_entries_dom(s.drop_last());
        let k = s.last().0;
        assert(!has_key(s.drop_last(), k)) by {
            if has_key(s.drop_last(), k) {
                let j = choose|j: int|
                    0 <= j < s.drop_last().len() && (#[trigger] s.drop_last()[j]).0 == k;
                assert((s[j]).0 == (s[s.len() - 1]).0);
            }
        }
        assert(entries_map(s).dom() =~= entries_map(s.drop_last()).dom().insert(k));
    }
}

impl<V> Table<V> {
    /// All keys are pairwise distinct.
    pub open spec fn wf(&self) -> bool {
        unique_keys(self.entries@)
    }

    /// An empty table.
    pub fn new() -> (r: Table<V>)
        ensures
            r.wf(),
            r@ == Map::<u64, V>::empty(),
            r.entries@.len() == 0,
    {
        Table { entries: Vec::new() }
    }

    /// Number of entries; equals the number of bindings when well formed.
    pub fn len(&self) -> (n: usize)
        ensures
            n == self.entries@.len(),
            self.wf() ==> n == self@.dom().len(),
    {
        proof {
            if self.wf() {
                lemma_entries_dom_len(self.entries@);
            }
        }
        self.entries.len()
    }

    /// Whether the table binds `k`.
    pub fn contains_key(&self, k: u64) -> (r: bool)
        ensures
            r == self@.dom().contains(k),
    {
        let n: usize = self.entries.len();
        let mut i: usize = 0;
        while i < n
            invariant
                n == self.entries@.len(),
                i <= n,
                forall|j: int| 0 <= j < i ==> (#[trigger] self.entries@[j]).0 != k,
            decreases n - i,
        {
            if self.entries[i].0 == k {
                proof {
                    lemma_entries_dom(self.entries@);
                    assert((self.entries@[i as int]).0 == k);
                    assert(has_key(self.entries@, k));
                    assert(entries_map(self.entries@).dom().contains(k));
                }
                return true;
            }
            i = i + 1;
        }
        proof {
            lemma_entries_dom(self.entries@);
            lemma_not_has_key(self.entries@, k);
            assert(!entries_map(self.entries@).dom().contains(k));
        }
        false
    }

    /// The value bound to `k`, if any.
    pub fn get(&self, k: u64) -> (r: Option<&V>)
        requires
            self.wf(),
        ensures
            match r {
                Some(v) => self@.dom().contains(k) && *v == self@[k],
                None => !self@.dom().contains(k),
            },
    {
        let n: usize = self.entries.len();
        let mut i: usize = 0;
        while i < n
            invariant
                self.wf(),
                n == self.entries@.len(),
                i <= n,
                forall|j: int| 0 <= j < i ==> (#[trigger] self.entries@[j]).0 != k,
            decreases n - i,
        {
            if self.entries[i].0 == k {
                proof {
                    lemma_entries_index(self.entries@, i as int);
                }
                return Some(&self.entries[i].1);
            }
            i = i + 1;
        }
        proof {
            lemma_entries_dom(self.entries@);
            lemma_not_has_key(self.entries@, k);
            assert(!entries_map(self.entries@).dom().contains(k));
        }
        None
    }

    /// Binds `k` to `v`, replacing any previous binding.
    pub fn insert(&mut self, k: u64, v: V)
        requires
            old(self).wf(),
        ensures
            final(self).wf(),
            final(self)@ == old(self)@.insert(k, v),
            final(self).entries@.len() <= old(self).entries@.len() + 1,
    {
        let n: usize = self.entries.len();
        let mut i: usize = 0;
        while i < n
            invariant
                self.wf(),
                self.entries@ == old(self).entries@,
                n == self.entries@.len(),
                i <= n,
                forall|j: int| 0 <= j < i ==> (#[trigger] self.entries@[j]).0 != k,
            decreases n - i,
        {
            if self.entries[i].0 == k {
                proof {
                    lemma_entries_update(self.entries@, i as int, v);
                }
                self.entries[i] = (k, v);
                return;
            }
            i = i + 1;
        }
        proof {
            lemma_not_has_key(self.entries@, k);
            let s = self.entries@;
            let t = s.push((k, v));
            assert(t.drop_last() =~= s);
            assert(t.last() == (k, v));
            assert forall|a: int, b: int| 0 <= a < b < t.len() implies (#[trigger] t[a]).0
                != (#[trigger] t[b]).0 by {
                if b == t.len() - 1 {
                    assert((t[a]) == (s[a]));
                }
            }
        }
        self.entries.push((k, v));
    }

    /// Drops the binding at `k`, if present.
    pub fn remove(&mut self, k: u64)
        requires
            old(self).wf(),
        ensures
            final(self).wf(),
            final(self)@ == old(self)@.remove(k),
            final(self).entries@.len() <= old(self).entries@.len(),
    {
        let n: usize = self.entries.len();
        let mut i: usize = 0;
        while i < n
            invariant
                self.wf(),
                self.entries@ == old(self).entries@,
                n == self.entries@.len(),
                i <= n,
                forall|j: int| 0 <= j < i ==> (#[trigger] self.entries@[j]).0 != k,
            decreases n - i,
        {
            if self.entries[i].0 == k {
                proof {
                    lemma_entries_remove(self.entries@, i as int);
                }
                self.entries.remove(i);
                return;
            }
            i = i + 1;
        }
        proof {
            lemma_entries_dom(self.entries@);
            lemma_not_has_key(self.entries@, k);
            assert(!self@.dom().contains(k));
            assert(self@ =~= self@.remove(k));
        }
    }

    /// Removes and returns the binding at `k`, if present.
    pub fn take(&mut self, k: u64) -> (r: Option<V>)
        requires
            old(self).wf(),
        ensures
            final(self).wf(),
            match r {
                Some(v) => old(self)@.dom().contains(k) && v == old(self)@[k] && final(self)@
                    == old(self)@.remove(k),
                None => !old(self)@.dom().contains(k) && final(self).entries@ == old(
                    self,
                ).entries@,
            },
    {
        let n: usize = self.entries.len();
        let mut i: usize = 0;
        while i < n
            invariant
                self.wf(),
                self.entries@ == old(self).entries@,
                n == self.entries@.len(),
                i <= n,
                forall|j: int| 0 <= j < i ==> (#[trigger] self.entries@[j]).0 != k,
            decreases n - i,
        {
            if self.entries[i].0 == k {
                proof {
                    lemma_entries_index(self.entries@, i as int);
                    lemma_entries_remove(self.entries@, i as int);
                }
                let pair = self.entries.remove(i);
                return Some(pair.1);
            }
            i = i + 1;
        }
        proof {
            lemma_entries_dom(self.entries@);
            lemma_not_has_key(self.entries@, k);
            assert(!entries_map(self.entries@).dom().contains(k));
        }
        None
    }

    /// Removes and returns the entry at position `i`.
    pub fn remove_at(&mut self, i: usize) -> (r: (u64, V))
        requires
            old(self).wf(),
            i < old(self).entries@.len(),
        ensures
            final(self).wf(),
            r == old(self).entries@[i as int],
            final(self).entries@ == old(self).entries@.remove(i as int),
            final(self)@ == old(self)@.remove(r.0),
            !has_key(final(self).entries@, r.0),
    {
        proof {
            lemma_entries_remove(self.entries@, i as int);
            let s = self.entries@;
            let t = s.remove(i as int);
            if has_key(t, s[i as int].0) {
                let j = choose|j: int| 0 <= j < t.len() && (#[trigger] t[j]).0 == s[i as int].0;
                if j < i {
                    assert(t[j] == s[j]);
                } else {
                    assert(t[j] == s[j + 1]);
                }
            }
        }
        self.entries.remove(i)
    }

    /// Inserts an entry with a fresh key at position `i`.
    pub fn insert_at(&mut self, i: usize, k: u64, v: V)
        requires
            old(self).wf(),
            i <= old(self).entries@.len(),
            !has_key(old(self).entries@, k),
        ensures
            final(self).wf(),
            final(self).entries@ == old(self).entries@.insert(i as int, (k, v)),
            final(self)@ == old(self)@.insert(k, v),
    {
        proof {
            lemma_entries_insert_at(self.entries@, i as int, k, v);
        }
        self.entries.insert(i, (k, v));
    }

    /// The key of the entry at position `i`.
    pub fn key_at(&self, i: usize) -> (k: u64)
        requires
            i < self.entries@.len(),
        ensures
            k == self.entries@[i as int].0,
            self.wf() ==> self@.dom().contains(k) && self@[k] == self.entries@[i as int].1,
    {
        proof {
            if self.wf() {
                lemma_entries_index(self.entries@, i as int);
            }
        }
        self.entries[i].0
    }

    /// The value of the entry at position `i`.
    pub fn value_at(&self, i: usize) -> (v: &V)
        requires
            i < self.entries@.len(),
        ensures
            *v == self.entries@[i as int].1,
    {
        &self.entries[i].1
    }

    /// Replaces the value of the entry at position `i`, keeping its key.
    pub fn set_value_at(&mut self, i: usize, v: V)
        requires
            old(self).wf(),
            i < old(self).entries@.len(),
        ensures
            final(self).wf(),
            final(self).entries@ == old(self).entries@.update(
                i as int,
                (old(self).entries@[i as int].0, v),
            ),
            final(self)@ == old(self)@.insert(old(self).entries@[i as int].0, v),
    {
        proof {
            lemma_entries_update(self.entries@, i as int, v);
        }
        let k: u64 = self.entries[i].0;
        self.entries[i] = (k, v);
    }
}

} // verus!
