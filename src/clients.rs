//! A cache of values keyed by kube-context name: each context gets the
//! first value stored for it, and keeps it.

use vstd::prelude::*;

verus! {

/// Values keyed by context name, at most one per name.
pub struct ContextCache<V> {
    entries: Vec<(String, V)>,
}

impl<V> ContextCache<V> {
    #[verifier::type_invariant]
    spec fn inv(&self) -> bool {
        forall|i: int, j: int|
            0 <= i < self.entries@.len() && 0 <= j < self.entries@.len() && i != j ==> (#[trigger] self.entries@[i]).0@
                != (#[trigger] self.entries@[j]).0@
    }

    /// The cached entries, in the order they were stored.
    pub closed spec fn entries_spec(&self) -> Seq<(String, V)> {
        self.entries@
    }

    /// Whether a value is cached for `key`.
    pub open spec fn contains_spec(&self, key: Seq<char>) -> bool {
        exists|i: int| 0 <= i < self.entries_spec().len() && (#[trigger] self.entries_spec()[i]).0@ == key
    }

    /// The value cached for `key`, where there is one.
    pub open spec fn lookup_spec(&self, key: Seq<char>) -> Option<V> {
        if self.contains_spec(key) {
            Some(
                self.entries_spec()[choose|i: int|
                    0 <= i < self.entries_spec().len() && (#[trigger] self.entries_spec()[i]).0@ == key].1,
            )
        } else {
            None
        }
    }

    /// An empty cache.
    pub fn new() -> (r: ContextCache<V>)
        ensures
            forall|key: Seq<char>| !#[trigger] r.contains_spec(key),
    {
        ContextCache { entries: Vec::new() }
    }

    /// The value cached for `key`.
    pub fn get(&self, key: &String) -> (r: Option<&V>)
        ensures
            r is None <==> !self.contains_spec(key@),
            r matches Some(v) ==> self.lookup_spec(key@) == Some(*v),
    {
        proof {
            use_type_invariant(self);
        }
        let mut i: usize = 0;
        while i < self.entries.len()
            invariant
                i <= self.entries@.len(),
                forall|a: int, b: int|
                    0 <= a < self.entries@.len() && 0 <= b < self.entries@.len() && a != b ==> (
                    #[trigger] self.entries@[a]).0@ != (#[trigger] self.entries@[b]).0@,
                forall|j: int| 0 <= j < i ==> (#[trigger] self.entries@[j]).0@ != key@,
            decreases self.entries@.len() - i,
        {
            if self.entries[i].0 == *key {
                proof {
                    assert(self.entries_spec()[i as int].0@ == key@);
                    let k = choose|k: int| 0 <= k < self.entries@.len() && (#[trigger] self.entries@[k]).0@ == key@;
                    assert(k == i) by {
                        if k != i {
                            assert(self.entries@[k].0@ != self.entries@[i as int].0@);
                        }
                    }
                }
                return Some(&self.entries[i].1);
            }
            i = i + 1;
        }
        None
    }

    /// Stores `value` for `key` unless a value is cached for it already, in
    /// which case that one stays; answers whether `value` was stored.
    pub fn insert(&mut self, key: String, value: V) -> (stored: bool)
        ensures
            stored == !old(self).contains_spec(key@),
            stored ==> final(self).lookup_spec(key@) == Some(value),
            !stored ==> final(self).lookup_spec(key@) == old(self).lookup_spec(key@),
            forall|k: Seq<char>| k != key@ ==> #[trigger] final(self).lookup_spec(k) == old(self).lookup_spec(k),
            forall|k: Seq<char>| #[trigger] final(self).contains_spec(k) == (old(self).contains_spec(k) || k == key@),
    {
        proof {
            use_type_invariant(&*self);
        }
        if self.get(&key).is_some() {
            return false;
        }
        let ghost before = self.entries@;
        let ghost k0 = key@;
        proof {
            assert forall|i: int| 0 <= i < before.len() implies (#[trigger] before[i]).0@ != k0 by {
                assert(self.entries_spec()[i] == before[i]);
            }
            let after = before.push((key, value));
            assert forall|i: int, j: int|
                0 <= i < after.len() && 0 <= j < after.len() && i != j implies (#[trigger] after[i]).0@
                != (#[trigger] after[j]).0@ by {
                if i < before.len() && j < before.len() {
                    assert(before[i] == after[i] && before[j] == after[j]);
                } else if i < before.len() {
                    assert(before[i] == after[i]);
                } else {
                    assert(before[j] == after[j]);
                }
            }
        }
        let mut entries: Vec<(String, V)> = Vec::new();
        std::mem::swap(&mut self.entries, &mut entries);
        entries.push((key, value));
        self.entries = entries;
        proof {
            let after = self.entries@;
            assert(after[before.len() as int].0@ == k0);
            assert forall|k: Seq<char>| #[trigger] self.contains_spec(k) == (old(self).contains_spec(k) || k == k0) by {
                if k == k0 {
                    assert(self.entries_spec()[before.len() as int].0@ == k0);
                }
                if old(self).contains_spec(k) {
                    let i = choose|i: int|
                        0 <= i < before.len() && (#[trigger] old(self).entries_spec()[i]).0@ == k;
                    assert(self.entries_spec()[i] == before[i]);
                }
                if self.contains_spec(k) && k != k0 {
                    let i = choose|i: int| 0 <= i < after.len() && (#[trigger] self.entries_spec()[i]).0@ == k;
                    assert(i < before.len());
                    assert(old(self).entries_spec()[i] == after[i]);
                }
            }
            assert forall|k: Seq<char>| k != k0 implies #[trigger] self.lookup_spec(k) == old(self).lookup_spec(k) by {
                if old(self).contains_spec(k) {
                    let i = choose|i: int| 0 <= i < before.len() && (#[trigger] before[i]).0@ == k;
                    assert(after[i] == before[i]);
                    let a = choose|a: int| 0 <= a < after.len() && (#[trigger] after[a]).0@ == k;
                    let b = choose|b: int| 0 <= b < before.len() && (#[trigger] before[b]).0@ == k;
                    assert(a < before.len());
                    assert(after[a] == before[a]);
                    if a != b {
                        assert(after[b] == before[b]);
                    }
                }
            }
            let a = choose|a: int| 0 <= a < after.len() && (#[trigger] after[a]).0@ == k0;
            assert(a == before.len()) by {
                if a < before.len() {
                    assert(after[a] == before[a]);
                }
            }
        }
        true
    }
}

} // verus!
