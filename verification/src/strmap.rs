//! A verified association map from string identifiers to values, the shape
//! shared by the connection registry, the message-sender map, the key-pair
//! cache and the call-session table. Its abstract view is a `Map` from the
//! key's character sequence to the stored value.

use vstd::prelude::*;

verus! {

pub struct StrMapEntry<V> {
    pub key: String,
    pub val: V,
}

/// The abstract map described by a sequence of entries; later entries win,
/// though the well-formedness invariant keeps keys distinct anyway.
pub open spec fn map_of<V>(s: Seq<StrMapEntry<V>>) -> Map<Seq<char>, V>
    decreases s.len(),
{
    if s.len() == 0 {
        Map::empty()
    } else {
        map_of(s.drop_last()).insert(s.last().key@, s.last().val)
    }
}

/// Keys are pairwise distinct.
pub open spec fn distinct_keys<V>(s: Seq<StrMapEntry<V>>) -> bool {
    forall|i: int, j: int| 0 <= i < j < s.len() ==> s[i].key@ != s[j].key@
}

pub proof fn lemma_map_of_contains<V>(s: Seq<StrMapEntry<V>>, k: Seq<char>)
    ensures
        map_of(s).contains_key(k) <==> exists|i: int| 0 <= i < s.len() && s[i].key@ == k,
    decreases s.len(),
{
    if s.len() > 0 {
        lemma_map_of_contains(s.drop_last(), k);
        if map_of(s).contains_key(k) && s.last().key@ != k {
            let i = choose|i: int| 0 <= i < s.drop_last().len() && s.drop_last()[i].key@ == k;
            assert(s[i].key@ == k);
        }
        if exists|i: int| 0 <= i < s.len() && s[i].key@ == k {
            let i = choose|i: int| 0 <= i < s.len() && s[i].key@ == k;
            if i < s.len() - 1 {
                assert(s.drop_last()[i].key@ == k);
            }
        }
    }
}

pub proof fn lemma_map_of_index<V>(s: Seq<StrMapEntry<V>>, i: int)
    requires
        distinct_keys(s),
        0 <= i < s.len(),
    ensures
        map_of(s).contains_key(s[i].key@),
        map_of(s)[s[i].key@] == s[i].val,
    decreases s.len(),
{
    if i == s.len() - 1 {
        lemma_map_of_contains(s, s[i].key@);
    } else {
        lemma_map_of_index(s.drop_last(), i);
    }
}

pub proof fn lemma_map_of_finite<V>(s: Seq<StrMapEntry<V>>)
    ensures
        map_of(s).dom().finite(),
    decreases s.len(),
{
    if s.len() > 0 {
        lemma_map_of_finite(s.drop_last());
    }
}

/// Removing entry `i` removes exactly its key from the abstract map.
pub proof fn lemma_map_of_remove<V>(s: Seq<StrMapEntry<V>>, i: int)
    requires
        distinct_keys(s),
        0 <= i < s.len(),
    ensures
        map_of(s.remove(i)) == map_of(s).remove(s[i].key@),
    decreases s.len(),
{
    let k = s[i].key@;
    if i == s.len() - 1 {
        assert(s.remove(i) =~= s.drop_last());
        lemma_map_of_contains(s.drop_last(), k);
        assert(!map_of(s.drop_last()).contains_key(k));
        assert(map_of(s).remove(k) =~= map_of(s.drop_last()));
    } else {
        lemma_map_of_remove(s.drop_last(), i);
        assert(s.remove(i).drop_last() =~= s.drop_last().remove(i));
        assert(s.remove(i).last() == s.last());
        assert(map_of(s.remove(i)) == map_of(s.drop_last().remove(i)).insert(
            s.last().key@,
            s.last().val,
        ));
        assert(map_of(s).remove(k) =~= map_of(s.drop_last()).remove(k).insert(
            s.last().key@,
            s.last().val,
        ));
    }
}

/// Updating entry `i` in place, key unchanged, updates exactly that key.
pub proof fn lemma_map_of_update<V>(s: Seq<StrMapEntry<V>>, i: int, e: StrMapEntry<V>)
    requires
        distinct_keys(s),
        0 <= i < s.len(),
        e.key@ == s[i].key@,
    ensures
        map_of(s.update(i, e)) == map_of(s).insert(e.key@, e.val),
    decreases s.len(),
{
    let k = s[i].key@;
    if i == s.len() - 1 {
        assert(s.update(i, e).drop_last() =~= s.drop_last());
        assert(s.update(i, e).last() == e);
        assert(map_of(s.update(i, e)) =~= map_of(s).insert(e.key@, e.val));
    } else {
        lemma_map_of_update(s.drop_last(), i, e);
        assert(s.update(i, e).drop_last() =~= s.drop_last().update(i, e));
        assert(s.update(i, e).last() == s.last());
        assert(map_of(s.update(i, e)) == map_of(s.drop_last()).insert(k, e.val).insert(
            s.last().key@,
            s.last().val,
        ));
        assert(map_of(s).insert(k, e.val) =~= map_of(s.drop_last()).insert(k, e.val).insert(
            s.last().key@,
            s.last().val,
        ));
    }
}

/// An association map from string identifiers to values of type `V`.
pub struct StrMap<V> {
    entries: Vec<StrMapEntry<V>>,
}

impl<V> View for StrMap<V> {
    type V = Map<Seq<char>, V>;

    closed spec fn view(&self) -> Map<Seq<char>, V> {
        map_of(self.entries@)
    }
}

impl<V> StrMap<V> {
    /// The internal invariant: keys are pairwise distinct.
    pub closed spec fn wf(&self) -> bool {
        distinct_keys(self.entries@)
    }

    pub fn new() -> (r: Self)
        ensures
            r.wf(),
            r@ == Map::<Seq<char>, V>::empty(),
    {
        StrMap { entries: Vec::new() }
    }

    /// The index of the entry that holds `key`, if any.
    fn index_of(&self, key: &String) -> (r: Option<usize>)
        requires
            self.wf(),
        ensures
            match r {
                Some(i) => i < self.entries@.len() && self.entries@[i as int].key@ == key@,
                None => !self@.contains_key(key@),
            },
    {
        let mut i: usize = 0;
        while i < self.entries.len()
            invariant
                i <= self.entries@.len(),
                forall|j: int| 0 <= j < i ==> self.entries@[j].key@ != key@,
            decreases self.entries@.len() - i,
        {
            if self.entries[i].key == *key {
                return Some(i);
            }
            i = i + 1;
        }
        proof {
            lemma_map_of_contains(self.entries@, key@);
        }
        None
    }

    pub fn contains_key(&self, key: &String) -> (r: bool)
        requires
            self.wf(),
        ensures
            r == self@.contains_key(key@),
    {
        let r = self.index_of(key);
        proof {
            if r is Some {
                lemma_map_of_index(self.entries@, r->0 as int);
            }
        }
        r.is_some()
    }

    pub fn get(&self, key: &String) -> (r: Option<&V>)
        requires
            self.wf(),
        ensures
            match r {
                Some(v) => self@.contains_key(key@) && *v == self@[key@],
                None => !self@.contains_key(key@),
            },
    {
        match self.index_of(key) {
            Some(i) => {
                proof {
                    lemma_map_of_index(self.entries@, i as int);
                }
                Some(&self.entries[i].val)
            },
            None => None,
        }
    }

    /// Inserts or replaces the value for `key`.
    pub fn insert(&mut self, key: String, val: V)
        requires
            old(self).wf(),
        ensures
            final(self).wf(),
            final(self)@ == old(self)@.insert(key@, val),
    {
        match self.index_of(&key) {
            Some(i) => {
                proof {
                    lemma_map_of_update(
                        self.entries@,
                        i as int,
                        StrMapEntry { key, val },
                    );
                    assert(forall|a: int, b: int|
                        0 <= a < b < self.entries@.update(i as int, StrMapEntry { key, val }).len()
                            ==> self.entries@.update(i as int, StrMapEntry { key, val })[a].key@
                            != self.entries@.update(i as int, StrMapEntry { key, val })[b].key@);
                }
                self.entries.set(i, StrMapEntry { key, val });
            },
            None => {
                proof {
                    lemma_map_of_contains(self.entries@, key@);
                    assert(self.entries@.push(StrMapEntry { key, val }).drop_last()
                        =~= self.entries@);
                    assert(forall|a: int, b: int|
                        0 <= a < b < self.entries@.push(StrMapEntry { key, val }).len()
                            ==> self.entries@.push(StrMapEntry { key, val })[a].key@
                            != self.entries@.push(StrMapEntry { key, val })[b].key@);
                }
                self.entries.push(StrMapEntry { key, val });
            },
        }
    }

    /// Removes and returns the entry for `key`, if present.
    pub fn take(&mut self, key: &String) -> (r: Option<V>)
        requires
            old(self).wf(),
        ensures
            final(self).wf(),
            match r {
                Some(v) => old(self)@.contains_key(key@) && v == old(self)@[key@] && final(self)@
                    == old(self)@.remove(key@),
                None => !old(self)@.contains_key(key@) && final(self)@ == old(self)@,
            },
    {
        match self.index_of(key) {
            Some(i) => {
                proof {
                    lemma_map_of_index(self.entries@, i as int);
                    lemma_map_of_remove(self.entries@, i as int);
                }
                let entry = self.entries.remove(i);
                Some(entry.val)
            },
            None => None,
        }
    }

    /// Removes the entry for `key` if present; a no-op otherwise.
    pub fn remove(&mut self, key: &String)
        requires
            old(self).wf(),
        ensures
            final(self).wf(),
            final(self)@ == old(self)@.remove(key@),
    {
        match self.index_of(key) {
            Some(i) => {
                proof {
                    lemma_map_of_remove(self.entries@, i as int);
                }
                self.entries.remove(i);
            },
            None => {
                proof {
                    assert(self@.remove(key@) =~= self@);
                }
            },
        }
    }

    pub fn len(&self) -> (r: usize)
        requires
            self.wf(),
        ensures
            r == self@.dom().len(),
            self@.dom().finite(),
    {
        proof {
            lemma_map_of_finite(self.entries@);
            lemma_map_of_len(self.entries@);
        }
        self.entries.len()
    }

    /// A snapshot of all keys; exactly the abstract domain, each key once.
    pub fn keys(&self) -> (r: Vec<String>)
        requires
            self.wf(),
        ensures
            r@.len() == self.entries_len(),
            forall|i: int| 0 <= i < r@.len() ==> self@.contains_key(#[trigger] r@[i]@),
            forall|k: Seq<char>| self@.contains_key(k) ==> exists|i: int|
                0 <= i < r@.len() && #[trigger] r@[i]@ == k,
            forall|i: int, j: int| 0 <= i < j < r@.len() ==> r@[i]@ != r@[j]@,
    {
        let mut r: Vec<String> = Vec::new();
        let mut i: usize = 0;
        while i < self.entries.len()
            invariant
                self.wf(),
                i <= self.entries@.len(),
                r@.len() == i,
                forall|j: int| 0 <= j < i ==> r@[j]@ == self.entries@[j].key@,
            decreases self.entries@.len() - i,
        {
            r.push(self.entries[i].key.clone());
            i = i + 1;
        }
        proof {
            assert forall|j: int| 0 <= j < r@.len() implies self@.contains_key(#[trigger] r@[j]@) by {
                lemma_map_of_index(self.entries@, j);
            }
            assert forall|k: Seq<char>| self@.contains_key(k) implies exists|i: int|
                0 <= i < r@.len() && #[trigger] r@[i]@ == k by {
                lemma_map_of_contains(self.entries@, k);
                let i = choose|i: int| 0 <= i < self.entries@.len()
                    && self.entries@[i].key@ == k;
                assert(r@[i]@ == k);
            }
        }
        r
    }

    /// The number of stored entries, as a spec-level alias for the domain size.
    pub closed spec fn entries_len(&self) -> nat {
        self.entries@.len()
    }
}

/// With distinct keys the abstract domain has exactly one element per entry.
pub proof fn lemma_map_of_len<V>(s: Seq<StrMapEntry<V>>)
    requires
        distinct_keys(s),
    ensures
        map_of(s).dom().len() == s.len(),
    decreases s.len(),
{
    lemma_map_of_finite(s);
    if s.len() > 0 {
        lemma_map_of_len(s.drop_last());
        lemma_map_of_contains(s.drop_last(), s.last().key@);
        assert(!map_of(s.drop_last()).contains_key(s.last().key@));
        lemma_map_of_finite(s.drop_last());
        vstd::set::axiom_set_insert_len(map_of(s.drop_last()).dom(), s.last().key@);
        assert(map_of(s).dom() =~= map_of(s.drop_last()).dom().insert(s.last().key@));
    }
}

} // verus!
