//! A small association list keyed by strings.
//!
//! The supervisor keeps three keyed collections: the registry of agent
//! working directories, the tracked transcript files, and the per-agent
//! windows of the loop detector. All three live on one structure: a vector
//! of pairs with pairwise distinct keys, looked up front to back. Keeping
//! the entries in insertion order also makes iteration deterministic.

use vstd::prelude::*;

use crate::text::str_eq;

verus! {

/// First value bound to `key`, searched front to back.
pub open spec fn find_assoc<V>(entries: Seq<(String, V)>, key: Seq<char>) -> Option<V>
    decreases entries.len(),
{
    if entries.len() == 0 {
        None
    } else if entries[0].0@ == key {
        Some(entries[0].1)
    } else {
        find_assoc(entries.drop_first(), key)
    }
}

pub proof fn lemma_find_first<V>(entries: Seq<(String, V)>, i: int, key: Seq<char>)
    requires
        0 <= i < entries.len(),
        forall|k: int| 0 <= k < i ==> entries[k].0@ != key,
        entries[i].0@ == key,
    ensures
        find_assoc(entries, key) == Some(entries[i].1),
    decreases i,
{
    if i == 0 {
    } else {
        lemma_find_first(entries.drop_first(), i - 1, key);
    }
}

pub proof fn lemma_find_absent<V>(entries: Seq<(String, V)>, key: Seq<char>)
    requires
        forall|k: int| 0 <= k < entries.len() ==> entries[k].0@ != key,
    ensures
        find_assoc(entries, key) is None,
    decreases entries.len(),
{
    if entries.len() > 0 {
        lemma_find_absent(entries.drop_first(), key);
    }
}

pub proof fn lemma_find_update_frame<V>(
    entries: Seq<(String, V)>,
    i: int,
    p: (String, V),
    other: Seq<char>,
)
    requires
        0 <= i < entries.len(),
        entries[i].0@ != other,
        p.0@ != other,
    ensures
        find_assoc(entries.update(i, p), other) == find_assoc(entries, other),
    decreases i,
{
    if i == 0 {
        assert(entries.update(0, p).drop_first() =~= entries.drop_first());
    } else {
        assert(entries.update(i, p).drop_first() =~= entries.drop_first().update(i - 1, p));
        lemma_find_update_frame(entries.drop_first(), i - 1, p, other);
    }
}

pub proof fn lemma_find_push_frame<V>(entries: Seq<(String, V)>, p: (String, V), other: Seq<char>)
    requires
        p.0@ != other,
    ensures
        find_assoc(entries.push(p), other) == find_assoc(entries, other),
    decreases entries.len(),
{
    if entries.len() == 0 {
        lemma_find_absent(entries.push(p), other);
        lemma_find_absent(entries, other);
    } else {
        assert(entries.push(p)[0] == entries[0]);
        assert(entries.push(p).drop_first() =~= entries.drop_first().push(p));
        lemma_find_push_frame(entries.drop_first(), p, other);
    }
}

pub proof fn lemma_find_remove_frame<V>(entries: Seq<(String, V)>, i: int, other: Seq<char>)
    requires
        0 <= i < entries.len(),
        entries[i].0@ != other,
    ensures
        find_assoc(entries.remove(i), other) == find_assoc(entries, other),
    decreases i,
{
    if i == 0 {
        assert(entries.remove(0) =~= entries.drop_first());
    } else {
        assert(entries.remove(i).drop_first() =~= entries.drop_first().remove(i - 1));
        lemma_find_remove_frame(entries.drop_first(), i - 1, other);
    }
}

/// A vector of key-value pairs with pairwise distinct keys.
pub struct AssocList<V> {
    pub entries: Vec<(String, V)>,
}

impl<V> AssocList<V> {
    /// Keys are pairwise distinct.
    pub open spec fn wf(self) -> bool {
        forall|i: int, j: int|
            0 <= i < j < self.entries@.len() ==> self.entries@[i].0@ != self.entries@[j].0@
    }

    pub open spec fn spec_find(self, key: Seq<char>) -> Option<V> {
        find_assoc(self.entries@, key)
    }

    pub open spec fn spec_contains(self, key: Seq<char>) -> bool {
        self.spec_find(key) is Some
    }

    pub open spec fn spec_len(self) -> nat {
        self.entries@.len()
    }

    pub fn new() -> (r: Self)
        ensures
            r.wf(),
            r.spec_len() == 0,
            forall|k: Seq<char>| r.spec_find(k) is None,
    {
        let r = AssocList { entries: Vec::new() };
        proof {
            assert forall|k: Seq<char>| r.spec_find(k) is None by {
                lemma_find_absent(r.entries@, k);
            }
        }
        r
    }

    /// Index of the entry bound to `key`, if any.
    pub fn find_index(&self, key: &str) -> (r: Option<usize>)
        ensures
            match r {
                Some(i) => i < self.entries@.len() && self.entries@[i as int].0@ == key@
                    && self.spec_find(key@) == Some(self.entries@[i as int].1) && forall|k: int|
                    0 <= k < i ==> self.entries@[k].0@ != key@,
                None => self.spec_find(key@) is None && forall|k: int|
                    0 <= k < self.entries@.len() ==> self.entries@[k].0@ != key@,
            },
    {
        let n = self.entries.len();
        let mut i: usize = 0;
        while i < n
            invariant
                i <= n,
                n == self.entries@.len(),
                forall|k: int| 0 <= k < i ==> self.entries@[k].0@ != key@,
            decreases n - i,
        {
            if str_eq(self.entries[i].0.as_str(), key) {
                proof {
                    lemma_find_first(self.entries@, i as int, key@);
                }
                return Some(i);
            }
            i = i + 1;
        }
        proof {
            lemma_find_absent(self.entries@, key@);
        }
        None
    }

    /// Borrow the value bound to `key`.
    pub fn get(&self, key: &str) -> (r: Option<&V>)
        ensures
            match r {
                Some(v) => self.spec_find(key@) == Some(*v),
                None => self.spec_find(key@) is None,
            },
    {
        match self.find_index(key) {
            Some(i) => Some(&self.entries[i].1),
            None => None,
        }
    }

    /// Bind `key` to `value`, overwriting an existing binding.
    pub fn set(&mut self, key: &str, value: V)
        requires
            old(self).wf(),
        ensures
            final(self).wf(),
            final(self).spec_find(key@) == Some(value),
            forall|other: Seq<char>|
                other != key@ ==> #[trigger] final(self).spec_find(other) == old(self).spec_find(
                    other,
                ),
            final(self).spec_len() == if old(self).spec_contains(key@) {
                old(self).spec_len()
            } else {
                old(self).spec_len() + 1
            },
    {
        match self.find_index(key) {
            Some(i) => {
                let ghost old_entries = self.entries@;
                let pair = (crate::text::copy_str(key), value);
                let ghost p = pair;
                self.entries[i] = pair;
                proof {
                    assert(self.entries@ =~= old_entries.update(i as int, p));
                    lemma_find_first(self.entries@, i as int, key@);
                    assert forall|other: Seq<char>| other != key@ implies #[trigger] find_assoc(
                        self.entries@,
                        other,
                    ) == find_assoc(old_entries, other) by {
                        lemma_find_update_frame(old_entries, i as int, p, other);
                    }
                }
            },
            None => {
                let ghost old_entries = self.entries@;
                let pair = (crate::text::copy_str(key), value);
                let ghost p = pair;
                self.entries.push(pair);
                proof {
                    assert(self.entries@ =~= old_entries.push(p));
                    lemma_find_first(self.entries@, old_entries.len() as int, key@);
                    assert forall|other: Seq<char>| other != key@ implies #[trigger] find_assoc(
                        self.entries@,
                        other,
                    ) == find_assoc(old_entries, other) by {
                        lemma_find_push_frame(old_entries, p, other);
                    }
                }
            },
        }
    }

    /// Remove and return the value bound to `key`.
    pub fn take(&mut self, key: &str) -> (r: Option<V>)
        requires
            old(self).wf(),
        ensures
            final(self).wf(),
            r == old(self).spec_find(key@),
            final(self).spec_find(key@) is None,
            forall|other: Seq<char>|
                other != key@ ==> #[trigger] final(self).spec_find(other) == old(self).spec_find(
                    other,
                ),
            final(self).spec_len() == if old(self).spec_contains(key@) {
                old(self).spec_len() - 1
            } else {
                old(self).spec_len() as int
            },
    {
        match self.find_index(key) {
            Some(i) => {
                let ghost old_entries = self.entries@;
                let pair = self.entries.remove(i);
                proof {
                    assert(forall|k: int|
                        0 <= k < self.entries@.len() ==> self.entries@[k].0@ != key@);
                    lemma_find_absent(self.entries@, key@);
                    assert forall|other: Seq<char>| other != key@ implies #[trigger] find_assoc(
                        self.entries@,
                        other,
                    ) == find_assoc(old_entries, other) by {
                        lemma_find_remove_frame(old_entries, i as int, other);
                    }
                }
                Some(pair.1)
            },
            None => None,
        }
    }
}

} // verus!
