//! An association map keyed by raw handle values.
//!
//! The caches and the timer registry key their entries by the `u64` inside a
//! handle. The map keeps its entries in insertion order in a vector, with the
//! invariant that no key occurs twice, so lookups are unambiguous and
//! iteration order is deterministic (the timer registry relies on that).

use vstd::prelude::*;

verus! {

/// Association map from raw handle values to entries, in insertion order.
pub struct UidMap<V> {
    entries: Vec<(u64, V)>,
}

impl<V> View for UidMap<V> {
    type V = Seq<(u64, V)>;

    closed spec fn view(&self) -> Seq<(u64, V)> {
        self.entries@
    }
}

impl<V> UidMap<V> {
    /// No key occurs at two positions.
    pub open spec fn wf(&self) -> bool {
        forall|i: int, j: int|
            0 <= i < j < self@.len() ==> (#[trigger] self@[i]).0 != (#[trigger] self@[j]).0
    }

    pub open spec fn contains_key(&self, k: u64) -> bool {
        exists|i: int| 0 <= i < self@.len() && (#[trigger] self@[i]).0 == k
    }

    /// The position of `k`; meaningful only when `contains_key(k)`.
    pub open spec fn key_at(&self, k: u64) -> int {
        choose|i: int| 0 <= i < self@.len() && (#[trigger] self@[i]).0 == k
    }

    /// The value bound to `k`; meaningful only when `contains_key(k)`.
    pub open spec fn val(&self, k: u64) -> V {
        self@[self.key_at(k)].1
    }

    pub fn new() -> (r: UidMap<V>)
        ensures
            r.wf(),
            r@.len() == 0,
    {
        UidMap { entries: Vec::new() }
    }

    pub fn len(&self) -> (r: usize)
        ensures
            r == self@.len(),
    {
        self.entries.len()
    }

    /// The entry at a position, in insertion order.
    pub fn entry_at(&self, i: usize) -> (r: &(u64, V))
        requires
            i < self@.len(),
        ensures
            *r == self@[i as int],
    {
        &self.entries[i]
    }

    proof fn lemma_remove_keys(&self, pre: Seq<(u64, V)>, i: int, r: (u64, V))
        requires
            0 <= i < pre.len(),
            forall|a: int, b: int|
                0 <= a < b < pre.len() ==> (#[trigger] pre[a]).0 != (#[trigger] pre[b]).0,
            self@ == pre.remove(i),
            r == pre[i],
        ensures
            self.wf(),
            !self.contains_key(r.0),
            forall|k2: u64|
                k2 != r.0 ==> #[trigger] self.contains_key(k2) == contains_key_seq(pre, k2),
            forall|k2: u64|
                k2 != r.0 && contains_key_seq(pre, k2) ==> #[trigger] self.val(k2) == val_seq(
                    pre,
                    k2,
                ),
    {
        assert forall|a: int, b: int| 0 <= a < b < self@.len() implies (#[trigger] self@[a]).0 != (
        #[trigger] self@[b]).0 by {
            let a0 = if a < i {
                a
            } else {
                a + 1
            };
            let b0 = if b < i {
                b
            } else {
                b + 1
            };
            assert(self@[a] == pre[a0]);
            assert(self@[b] == pre[b0]);
        }
        assert forall|j: int| 0 <= j < self@.len() implies (#[trigger] self@[j]).0 != r.0 by {
            let j0 = if j < i {
                j
            } else {
                j + 1
            };
            assert(self@[j] == pre[j0]);
        }
        assert forall|k2: u64| k2 != r.0 implies #[trigger] self.contains_key(k2)
            == contains_key_seq(pre, k2) by {
            if self.contains_key(k2) {
                let j = choose|j: int| 0 <= j < self@.len() && (#[trigger] self@[j]).0 == k2;
                let j0 = if j < i {
                    j
                } else {
                    j + 1
                };
                assert(pre[j0].0 == k2);
            }
            if contains_key_seq(pre, k2) {
                let j0 = choose|j: int| 0 <= j < pre.len() && (#[trigger] pre[j]).0 == k2;
                let j = if j0 < i {
                    j0
                } else {
                    j0 - 1
                };
                assert(self@[j] == pre[j0]);
            }
        }
        assert forall|k2: u64| k2 != r.0 && contains_key_seq(pre, k2) implies #[trigger] self.val(
            k2,
        ) == val_seq(pre, k2) by {
            let j = self.key_at(k2);
            let j0 = choose|j0: int| 0 <= j0 < pre.len() && (#[trigger] pre[j0]).0 == k2;
            assert(self.contains_key(k2));
            assert(0 <= j < self@.len() && self@[j].0 == k2);
            let ja = if j < i {
                j
            } else {
                j + 1
            };
            assert(self@[j] == pre[ja]);
            assert(key_at_seq(pre, k2) == j0 || key_at_seq(pre, k2) == ja);
            assert(pre[key_at_seq(pre, k2)].0 == k2);
            assert(key_at_seq(pre, k2) == ja);
        }
    }

    pub fn get(&self, k: u64) -> (r: Option<&V>)
        requires
            self.wf(),
        ensures
            match r {
                Some(v) => self.contains_key(k) && *v == self.val(k),
                None => !self.contains_key(k),
            },
    {
        let n = self.entries.len();
        let mut i: usize = 0;
        while i < n
            invariant
                self.wf(),
                n == self@.len(),
                0 <= i <= n,
                forall|j: int| 0 <= j < i ==> (#[trigger] self@[j]).0 != k,
            decreases n - i,
        {
            if self.entries[i].0 == k {
                proof {
                    assert(self.contains_key(k));
                    let j = self.key_at(k);
                    assert(0 <= j < self@.len() && self@[j].0 == k);
                    if j != i {
                        assert(self@[j].0 != self@[i as int].0);
                    }
                }
                return Some(&self.entries[i].1);
            }
            i = i + 1;
        }
        None
    }

    pub fn has(&self, k: u64) -> (r: bool)
        requires
            self.wf(),
        ensures
            r == self.contains_key(k),
    {
        match self.get(k) {
            Some(_) => true,
            None => false,
        }
    }

    /// Inserts or replaces the binding of `k`. A replacement keeps the entry's
    /// position; a fresh key is appended at the end.
    pub fn insert(&mut self, k: u64, v: V)
        requires
            old(self).wf(),
        ensures
            final(self).wf(),
            final(self).contains_key(k),
            final(self).val(k) == v,
            forall|k2: u64|
                k2 != k ==> #[trigger] final(self).contains_key(k2) == old(self).contains_key(k2),
            forall|k2: u64|
                k2 != k && old(self).contains_key(k2) ==> #[trigger] final(self).val(k2) == old(
                    self,
                ).val(k2),
            old(self).contains_key(k) ==> final(self)@ == old(self)@.update(
                old(self).key_at(k),
                (k, v),
            ),
            !old(self).contains_key(k) ==> final(self)@ == old(self)@.push((k, v)),
            final(self)@.len() == old(self)@.len() + if old(self).contains_key(k) {
                0int
            } else {
                1int
            },
    {
        let n = self.entries.len();
        let mut i: usize = 0;
        while i < n
            invariant
                self.wf(),
                self == old(self),
                n == self@.len(),
                0 <= i <= n,
                forall|j: int| 0 <= j < i ==> (#[trigger] self@[j]).0 != k,
            decreases n - i,
        {
            if self.entries[i].0 == k {
                proof {
                    assert(old(self).contains_key(k));
                    let j = old(self).key_at(k);
                    assert(0 <= j < old(self)@.len() && old(self)@[j].0 == k);
                    if j != i {
                        assert(old(self)@[j].0 != old(self)@[i as int].0);
                    }
                }
                self.entries[i] = (k, v);
                proof {
                    self.lemma_update_keys(old(self)@, i as int, k, v);
                }
                return ;
            }
            i = i + 1;
        }
        self.entries.push((k, v));
        proof {
            assert(!old(self).contains_key(k));
            assert forall|a: int, b: int| 0 <= a < b < self@.len() implies (
            #[trigger] self@[a]).0 != (#[trigger] self@[b]).0 by {
                if b < self@.len() - 1 {
                    assert(self@[a] == old(self)@[a]);
                    assert(self@[b] == old(self)@[b]);
                } else {
                    assert(self@[b].0 == k);
                    assert(self@[a] == old(self)@[a]);
                }
            }
            let n2 = self@.len() - 1;
            assert(self@[n2].0 == k);
            assert(self.contains_key(k));
            assert(self@[self.key_at(k)].0 == k);
            assert(self.key_at(k) == n2);
            assert forall|k2: u64| k2 != k implies #[trigger] self.contains_key(k2) == old(
                self,
            ).contains_key(k2) by {
                if self.contains_key(k2) {
                    let j = choose|j: int| 0 <= j < self@.len() && (#[trigger] self@[j]).0 == k2;
                    assert(j < n2 || self@[j].0 == k);
                    assert(old(self)@[j] == self@[j]);
                }
                if old(self).contains_key(k2) {
                    let j = choose|j: int|
                        0 <= j < old(self)@.len() && (#[trigger] old(self)@[j]).0 == k2;
                    assert(self@[j] == old(self)@[j]);
                }
            }
            assert forall|k2: u64| k2 != k && old(self).contains_key(k2) implies #[trigger] self.val(
                k2,
            ) == old(self).val(k2) by {
                let j = self.key_at(k2);
                let j0 = old(self).key_at(k2);
                assert(0 <= j0 < old(self)@.len() && old(self)@[j0].0 == k2);
                assert(self.contains_key(k2));
                assert(0 <= j < self@.len() && self@[j].0 == k2);
                assert(j < n2 || self@[j].0 == k);
                assert(self@[j] == old(self)@[j]);
                if j != j0 {
                    assert(old(self)@[j].0 != old(self)@[j0].0);
                }
            }
        }
    }

    proof fn lemma_update_keys(&self, pre: Seq<(u64, V)>, i: int, k: u64, v: V)
        requires
            0 <= i < pre.len(),
            forall|a: int, b: int|
                0 <= a < b < pre.len() ==> (#[trigger] pre[a]).0 != (#[trigger] pre[b]).0,
            pre[i].0 == k,
            self@ == pre.update(i, (k, v)),
        ensures
            self.wf(),
            self.contains_key(k),
            self.val(k) == v,
            forall|k2: u64| k2 != k ==> #[trigger] self.contains_key(k2) == contains_key_seq(
                pre,
                k2,
            ),
            forall|k2: u64|
                k2 != k && contains_key_seq(pre, k2) ==> #[trigger] self.val(k2) == val_seq(
                    pre,
                    k2,
                ),
    {
        assert forall|a: int, b: int| 0 <= a < b < self@.len() implies (#[trigger] self@[a]).0 != (
        #[trigger] self@[b]).0 by {
            assert(self@[a].0 == pre[a].0);
            assert(self@[b].0 == pre[b].0);
        }
        assert(self@[i].0 == k);
        assert(self.contains_key(k));
        let j = self.key_at(k);
        assert(0 <= j < self@.len() && self@[j].0 == k);
        if j != i {
            assert(self@[j].0 == pre[j].0);
            assert(pre[j].0 != pre[i].0 || j == i);
        }
        assert(self.val(k) == v);
        assert forall|k2: u64| k2 != k implies #[trigger] self.contains_key(k2) == contains_key_seq(
            pre,
            k2,
        ) by {
            if self.contains_key(k2) {
                let a = choose|a: int| 0 <= a < self@.len() && (#[trigger] self@[a]).0 == k2;
                assert(pre[a].0 == k2);
            }
            if contains_key_seq(pre, k2) {
                let a = choose|a: int| 0 <= a < pre.len() && (#[trigger] pre[a]).0 == k2;
                assert(a != i);
                assert(self@[a].0 == k2);
            }
        }
        assert forall|k2: u64| k2 != k && contains_key_seq(pre, k2) implies #[trigger] self.val(k2)
            == val_seq(pre, k2) by {
            let a = self.key_at(k2);
            assert(self.contains_key(k2));
            assert(0 <= a < self@.len() && self@[a].0 == k2);
            assert(a != i);
            assert(self@[a] == pre[a]);
            let b = key_at_seq(pre, k2);
            assert(0 <= b < pre.len() && pre[b].0 == k2);
            if a != b {
                assert(pre[a].0 != pre[b].0 || a == b);
            }
        }
    }

    /// Removes the binding of `k` and returns its value, or `None` when `k`
    /// is not bound.
    pub fn remove(&mut self, k: u64) -> (r: Option<V>)
        requires
            old(self).wf(),
        ensures
            final(self).wf(),
            !final(self).contains_key(k),
            forall|k2: u64|
                k2 != k ==> #[trigger] final(self).contains_key(k2) == old(self).contains_key(k2),
            forall|k2: u64|
                k2 != k && old(self).contains_key(k2) ==> #[trigger] final(self).val(k2) == old(
                    self,
                ).val(k2),
            match r {
                Some(v) => old(self).contains_key(k) && v == old(self).val(k) && final(self)@ == old(
                    self,
                )@.remove(old(self).key_at(k)),
                None => !old(self).contains_key(k) && *final(self) == *old(self),
            },
    {
        let n = self.entries.len();
        let mut i: usize = 0;
        while i < n
            invariant
                self.wf(),
                self == old(self),
                n == self@.len(),
                0 <= i <= n,
                forall|j: int| 0 <= j < i ==> (#[trigger] self@[j]).0 != k,
            decreases n - i,
        {
            if self.entries[i].0 == k {
                proof {
                    assert(old(self).contains_key(k));
                    let j = old(self).key_at(k);
                    assert(0 <= j < old(self)@.len() && old(self)@[j].0 == k);
                    if j != i {
                        assert(old(self)@[j].0 != old(self)@[i as int].0);
                    }
                }
                let p = self.entries.remove(i);
                proof {
                    self.lemma_remove_keys(old(self)@, i as int, (k, p.1));
                }
                return Some(p.1);
            }
            i = i + 1;
        }
        None
    }

    /// All keys, in insertion order.
    pub fn keys(&self) -> (r: Vec<u64>)
        ensures
            r@.len() == self@.len(),
            forall|i: int| 0 <= i < r@.len() ==> r@[i] == (#[trigger] self@[i]).0,
    {
        let n = self.entries.len();
        let mut r: Vec<u64> = Vec::new();
        let mut i: usize = 0;
        while i < n
            invariant
                n == self@.len(),
                0 <= i <= n,
                r@.len() == i,
                forall|j: int| 0 <= j < i ==> r@[j] == (#[trigger] self@[j]).0,
            decreases n - i,
        {
            r.push(self.entries[i].0);
            i = i + 1;
        }
        r
    }

    /// Removes every entry.
    pub fn clear(&mut self)
        ensures
            final(self).wf(),
            final(self)@.len() == 0,
            forall|k2: u64| !final(self).contains_key(k2),
    {
        self.entries.clear();
    }
}

/// `contains_key` stated over a bare entry sequence (used to relate the map
/// before and after a mutation).
pub open spec fn contains_key_seq<V>(s: Seq<(u64, V)>, k: u64) -> bool {
    exists|i: int| 0 <= i < s.len() && (#[trigger] s[i]).0 == k
}

/// The position of `k` in a bare entry sequence.
pub open spec fn key_at_seq<V>(s: Seq<(u64, V)>, k: u64) -> int {
    choose|i: int| 0 <= i < s.len() && (#[trigger] s[i]).0 == k
}

/// The value bound to `k` in a bare entry sequence.
pub open spec fn val_seq<V>(s: Seq<(u64, V)>, k: u64) -> V {
    s[key_at_seq(s, k)].1
}

} // verus!
