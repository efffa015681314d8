//! An association map from caller-chosen string ids to raw handle values.
//!
//! Backs the CSS-id bindings: at most one binding per string, so a style
//! sheet id resolves to exactly one handle. Keys are compared by character
//! sequence.

use vstd::prelude::*;
use crate::strutil::str_eq;

verus! {

/// Association map from strings to raw handle values, in insertion order.
pub struct StrMap {
    entries: Vec<(String, u64)>,
}

impl View for StrMap {
    type V = Seq<(Seq<char>, u64)>;

    closed spec fn view(&self) -> Seq<(Seq<char>, u64)> {
        Seq::new(self.entries@.len(), |i: int| (self.entries@[i].0@, self.entries@[i].1))
    }
}

impl StrMap {
    /// No string occurs at two positions.
    pub open spec fn wf(&self) -> bool {
        forall|i: int, j: int|
            0 <= i < j < self@.len() ==> (#[trigger] self@[i]).0 != (#[trigger] self@[j]).0
    }

    pub open spec fn contains_key(&self, s: Seq<char>) -> bool {
        exists|i: int| 0 <= i < self@.len() && (#[trigger] self@[i]).0 == s
    }

    /// The position of `s`; meaningful only when `contains_key(s)`.
    pub open spec fn key_at(&self, s: Seq<char>) -> int {
        choose|i: int| 0 <= i < self@.len() && (#[trigger] self@[i]).0 == s
    }

    /// The handle bound to `s`; meaningful only when `contains_key(s)`.
    pub open spec fn val(&self, s: Seq<char>) -> u64 {
        self@[self.key_at(s)].1
    }

    pub fn new() -> (r: StrMap)
        ensures
            r.wf(),
            r@.len() == 0,
    {
        StrMap { entries: Vec::new() }
    }

    pub fn len(&self) -> (r: usize)
        ensures
            r == self@.len(),
    {
        self.entries.len()
    }

    pub fn get(&self, s: &str) -> (r: Option<u64>)
        requires
            self.wf(),
        ensures
            match r {
                Some(v) => self.contains_key(s@) && v == self.val(s@),
                None => !self.contains_key(s@),
            },
    {
        let n = self.entries.len();
        let mut i: usize = 0;
        while i < n
            invariant
                self.wf(),
                n == self@.len(),
                0 <= i <= n,
                forall|j: int| 0 <= j < i ==> (#[trigger] self@[j]).0 != s@,
            decreases n - i,
        {
            if str_eq(self.entries[i].0.as_str(), s) {
                proof {
                    assert(self@[i as int].0 == s@);
                    assert(self.contains_key(s@));
                    let j = self.key_at(s@);
                    assert(0 <= j < self@.len() && self@[j].0 == s@);
                    if j != i {
                        assert(self@[j].0 != self@[i as int].0);
                    }
                }
                return Some(self.entries[i].1);
            }
            i = i + 1;
        }
        None
    }

    pub fn has(&self, s: &str) -> (r: bool)
        requires
            self.wf(),
        ensures
            r == self.contains_key(s@),
    {
        match self.get(s) {
            Some(_) => true,
            None => false,
        }
    }

    /// Binds `s` to `id`, replacing an existing binding of the same string.
    pub fn insert(&mut self, s: String, id: u64)
        requires
            old(self).wf(),
        ensures
            final(self).wf(),
            final(self).contains_key(s@),
            final(self).val(s@) == id,
            forall|s2: Seq<char>|
                s2 != s@ ==> #[trigger] final(self).contains_key(s2) == old(self).contains_key(s2),
            forall|s2: Seq<char>|
                s2 != s@ && old(self).contains_key(s2) ==> #[trigger] final(self).val(s2) == old(
                    self,
                ).val(s2),
            final(self)@.len() == old(self)@.len() + if old(self).contains_key(s@) {
                0int
            } else {
                1int
            },
    {
        let n = self.entries.len();
        let mut i: usize = 0;
        while i < n
            invariant
                self.wf(),
                self == old(self),
                n == self@.len(),
                0 <= i <= n,
                forall|j: int| 0 <= j < i ==> (#[trigger] self@[j]).0 != s@,
            decreases n - i,
        {
            if str_eq(self.entries[i].0.as_str(), s.as_str()) {
                proof {
                    assert(self@[i as int].0 == s@);
                    assert(old(self).contains_key(s@));
                    let j = old(self).key_at(s@);
                    assert(0 <= j < old(self)@.len() && old(self)@[j].0 == s@);
                    if j != i {
                        assert(old(self)@[j].0 != old(self)@[i as int].0);
                    }
                }
                self.entries[i] = (s, id);
                proof {
                    assert(self@ =~= old(self)@.update(i as int, (old(self)@[i as int].0, id)));
                    self.lemma_update(old(self)@, i as int, id);
                }
                return ;
            }
            i = i + 1;
        }
        let ghost key: Seq<char> = s@;
        self.entries.push((s, id));
        proof {
            assert(!old(self).contains_key(key));
            let n2 = self@.len() - 1;
            assert(self@[n2].0 == key && self@[n2].1 == id);
            assert forall|j: int| 0 <= j < n2 implies #[trigger] self@[j] == old(self)@[j] by {}
            assert forall|a: int, b: int| 0 <= a < b < self@.len() implies (
            #[trigger] self@[a]).0 != (#[trigger] self@[b]).0 by {
                if b < n2 {
                    assert(self@[a] == old(self)@[a]);
                    assert(self@[b] == old(self)@[b]);
                } else {
                    assert(self@[a] == old(self)@[a]);
                }
            }
            assert(self.contains_key(key));
            let j = self.key_at(key);
            assert(0 <= j < self@.len() && self@[j].0 == key);
            if j != n2 {
                assert(self@[j] == old(self)@[j]);
            }
            assert(self.val(key) == id);
            assert forall|s2: Seq<char>| s2 != key implies #[trigger] self.contains_key(s2) == old(
                self,
            ).contains_key(s2) by {
                if self.contains_key(s2) {
                    let a = choose|a: int| 0 <= a < self@.len() && (#[trigger] self@[a]).0 == s2;
                    assert(a < n2);
                    assert(old(self)@[a] == self@[a]);
                }
                if old(self).contains_key(s2) {
                    let a = choose|a: int|
                        0 <= a < old(self)@.len() && (#[trigger] old(self)@[a]).0 == s2;
                    assert(self@[a] == old(self)@[a]);
                }
            }
            assert forall|s2: Seq<char>| s2 != key && old(self).contains_key(s2) implies #[trigger] self.val(
                s2,
            ) == old(self).val(s2) by {
                let a = self.key_at(s2);
                let b = old(self).key_at(s2);
                assert(0 <= b < old(self)@.len() && old(self)@[b].0 == s2);
                assert(self.contains_key(s2));
                assert(0 <= a < self@.len() && self@[a].0 == s2);
                assert(a < n2);
                assert(self@[a] == old(self)@[a]);
                if a != b {
                    assert(old(self)@[a].0 != old(self)@[b].0 || a == b);
                }
            }
        }
    }

    proof fn lemma_update(&self, pre: Seq<(Seq<char>, u64)>, i: int, id: u64)
        requires
            0 <= i < pre.len(),
            forall|a: int, b: int|
                0 <= a < b < pre.len() ==> (#[trigger] pre[a]).0 != (#[trigger] pre[b]).0,
            self@ == pre.update(i, (pre[i].0, id)),
        ensures
            self.wf(),
            self.contains_key(pre[i].0),
            self.val(pre[i].0) == id,
            forall|s2: Seq<char>|
                s2 != pre[i].0 ==> #[trigger] self.contains_key(s2) == scontains(pre, s2),
            forall|s2: Seq<char>|
                s2 != pre[i].0 && scontains(pre, s2) ==> #[trigger] self.val(s2) == sval(pre, s2),
    {
        let key = pre[i].0;
        assert forall|a: int, b: int| 0 <= a < b < self@.len() implies (#[trigger] self@[a]).0 != (
        #[trigger] self@[b]).0 by {
            assert(self@[a].0 == pre[a].0);
            assert(self@[b].0 == pre[b].0);
        }
        assert(self@[i].0 == key);
        assert(self.contains_key(key));
        let j = self.key_at(key);
        assert(0 <= j < self@.len() && self@[j].0 == key);
        if j != i {
            assert(self@[j].0 == pre[j].0);
            assert(pre[j].0 != pre[i].0 || j == i);
        }
        assert forall|s2: Seq<char>| s2 != key implies #[trigger] self.contains_key(s2) == scontains(
            pre,
            s2,
        ) by {
            if self.contains_key(s2) {
                let a = choose|a: int| 0 <= a < self@.len() && (#[trigger] self@[a]).0 == s2;
                assert(pre[a].0 == s2);
            }
            if scontains(pre, s2) {
                let a = choose|a: int| 0 <= a < pre.len() && (#[trigger] pre[a]).0 == s2;
                assert(a != i);
                assert(self@[a].0 == s2);
            }
        }
        assert forall|s2: Seq<char>| s2 != key && scontains(pre, s2) implies #[trigger] self.val(s2)
            == sval(pre, s2) by {
            let a = self.key_at(s2);
            assert(self.contains_key(s2));
            assert(0 <= a < self@.len() && self@[a].0 == s2);
            assert(a != i);
            assert(self@[a] == pre[a]);
            let b = skey_at(pre, s2);
            assert(0 <= b < pre.len() && pre[b].0 == s2);
            if a != b {
                assert(pre[a].0 != pre[b].0 || a == b);
            }
        }
    }

    /// Removes the binding of `s` and returns the handle it was bound to.
    pub fn remove(&mut self, s: &str) -> (r: Option<u64>)
        requires
            old(self).wf(),
        ensures
            final(self).wf(),
            !final(self).contains_key(s@),
            forall|s2: Seq<char>|
                s2 != s@ ==> #[trigger] final(self).contains_key(s2) == old(self).contains_key(s2),
            forall|s2: Seq<char>|
                s2 != s@ && old(self).contains_key(s2) ==> #[trigger] final(self).val(s2) == old(
                    self,
                ).val(s2),
            match r {
                Some(v) => old(self).contains_key(s@) && v == old(self).val(s@) && final(self)@.len()
                    == old(self)@.len() - 1,
                None => !old(self).contains_key(s@) && *final(self) == *old(self),
            },
    {
        let n = self.entries.len();
        let mut i: usize = 0;
        while i < n
            invariant
                self.wf(),
                self == old(self),
                n == self@.len(),
                0 <= i <= n,
                forall|j: int| 0 <= j < i ==> (#[trigger] self@[j]).0 != s@,
            decreases n - i,
        {
            if str_eq(self.entries[i].0.as_str(), s) {
                proof {
                    assert(self@[i as int].0 == s@);
                    assert(old(self).contains_key(s@));
                    let j = old(self).key_at(s@);
                    assert(0 <= j < old(self)@.len() && old(self)@[j].0 == s@);
                    if j != i {
                        assert(old(self)@[j].0 != old(self)@[i as int].0);
                    }
                }
                let p = self.entries.remove(i);
                proof {
                    assert(self@ =~= old(self)@.remove(i as int));
                    self.lemma_remove(old(self)@, i as int);
                }
                return Some(p.1);
            }
            i = i + 1;
        }
        None
    }

    proof fn lemma_remove(&self, pre: Seq<(Seq<char>, u64)>, i: int)
        requires
            0 <= i < pre.len(),
            forall|a: int, b: int|
                0 <= a < b < pre.len() ==> (#[trigger] pre[a]).0 != (#[trigger] pre[b]).0,
            self@ == pre.remove(i),
        ensures
            self.wf(),
            !self.contains_key(pre[i].0),
            forall|s2: Seq<char>|
                s2 != pre[i].0 ==> #[trigger] self.contains_key(s2) == scontains(pre, s2),
            forall|s2: Seq<char>|
                s2 != pre[i].0 && scontains(pre, s2) ==> #[trigger] self.val(s2) == sval(pre, s2),
    {
        let key = pre[i].0;
        assert forall|a: int, b: int| 0 <= a < b < self@.len() implies (#[trigger] self@[a]).0 != (
        #[trigger] self@[b]).0 by {
            let a0 = if a < i {
                a
            } else {
                a + 1
            };
            let b0 = if b < i {
                b
            } else {
                b + 1
            };
            assert(self@[a] == pre[a0]);
            assert(self@[b] == pre[b0]);
        }
        assert forall|j: int| 0 <= j < self@.len() implies (#[trigger] self@[j]).0 != key by {
            let j0 = if j < i {
                j
            } else {
                j + 1
            };
            assert(self@[j] == pre[j0]);
        }
        assert forall|s2: Seq<char>| s2 != key implies #[trigger] self.contains_key(s2) == scontains(
            pre,
            s2,
        ) by {
            if self.contains_key(s2) {
                let j = choose|j: int| 0 <= j < self@.len() && (#[trigger] self@[j]).0 == s2;
                let j0 = if j < i {
                    j
                } else {
                    j + 1
                };
                assert(self@[j] == pre[j0]);
                assert(pre[j0].0 == s2);
            }
            if scontains(pre, s2) {
                let j0 = choose|j: int| 0 <= j < pre.len() && (#[trigger] pre[j]).0 == s2;
                let j = if j0 < i {
                    j0
                } else {
                    j0 - 1
                };
                assert(self@[j] == pre[j0]);
            }
        }
        assert forall|s2: Seq<char>| s2 != key && scontains(pre, s2) implies #[trigger] self.val(s2)
            == sval(pre, s2) by {
            let j = self.key_at(s2);
            assert(self.contains_key(s2));
            assert(0 <= j < self@.len() && self@[j].0 == s2);
            let ja = if j < i {
                j
            } else {
                j + 1
            };
            assert(self@[j] == pre[ja]);
            let b = skey_at(pre, s2);
            assert(0 <= b < pre.len() && pre[b].0 == s2);
            if ja != b {
                assert(pre[ja].0 != pre[b].0 || ja == b);
            }
        }
    }

    /// All bound strings, in insertion order.
    pub fn keys(&self) -> (r: Vec<String>)
        ensures
            r@.len() == self@.len(),
            forall|i: int| 0 <= i < r@.len() ==> r@[i]@ == (#[trigger] self@[i]).0,
    {
        let n = self.entries.len();
        let mut r: Vec<String> = Vec::new();
        let mut i: usize = 0;
        while i < n
            invariant
                n == self@.len(),
                0 <= i <= n,
                r@.len() == i,
                forall|j: int| 0 <= j < i ==> r@[j]@ == (#[trigger] self@[j]).0,
            decreases n - i,
        {
            let s = self.entries[i].0.as_str().to_owned();
            r.push(s);
            i = i + 1;
        }
        r
    }
}

/// `contains_key` stated over a bare binding sequence.
pub open spec fn scontains(s: Seq<(Seq<char>, u64)>, key: Seq<char>) -> bool {
    exists|i: int| 0 <= i < s.len() && (#[trigger] s[i]).0 == key
}

/// The position of `key` in a bare binding sequence.
pub open spec fn skey_at(s: Seq<(Seq<char>, u64)>, key: Seq<char>) -> int {
    choose|i: int| 0 <= i < s.len() && (#[trigger] s[i]).0 == key
}

/// The handle bound to `key` in a bare binding sequence.
pub open spec fn sval(s: Seq<(Seq<char>, u64)>, key: Seq<char>) -> u64 {
    s[skey_at(s, key)].1
}

} // verus!
