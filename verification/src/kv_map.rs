//! Association map with `u64` keys over a vector with unique keys.

use vstd::prelude::*;

verus! {

pub struct KvMap<V> {
    pub entries: Vec<(u64, V)>,
}

impl<V> KvMap<V> {
    /// Keys are pairwise distinct.
    pub open spec fn wf_keys(&self) -> bool {
        forall|i: int, j: int|
            0 <= i < j < self.entries@.len() ==> (#[trigger] self.entries@[i]).0 != (
            #[trigger] self.entries@[j]).0
    }

    pub open spec fn spec_contains(&self, k: u64) -> bool {
        exists|i: int| 0 <= i < self.entries@.len() && (#[trigger] self.entries@[i]).0 == k
    }

    pub open spec fn spec_idx(&self, k: u64) -> int {
        choose|i: int| 0 <= i < self.entries@.len() && (#[trigger] self.entries@[i]).0 == k
    }

    pub open spec fn spec_at(&self, k: u64) -> V {
        self.entries@[self.spec_idx(k)].1
    }

    /// Keys and values unchanged except possibly at `k`.
    pub open spec fn same_except(&self, old_self: &KvMap<V>, k: u64) -> bool {
        &&& (forall|u: u64|
            u != k ==> (#[trigger] self.spec_contains(u) <==> old_self.spec_contains(u)))
        &&& (forall|u: u64|
            u != k && old_self.spec_contains(u) ==> #[trigger] self.spec_at(u)
                == old_self.spec_at(u))
    }

    pub fn new() -> (r: KvMap<V>)
        ensures
            r.wf_keys(),
            r.entries@.len() == 0,
            forall|k: u64| !r.spec_contains(k),
    {
        KvMap { entries: Vec::new() }
    }

    pub fn len(&self) -> (r: usize)
        ensures
            r == self.entries@.len(),
    {
        self.entries.len()
    }

    fn find(&self, k: u64) -> (r: Option<usize>)
        requires
            self.wf_keys(),
        ensures
            match r {
                Some(i) => (i as int) < self.entries@.len() && self.entries@[i as int].0 == k
                    && self.spec_contains(k) && self.spec_idx(k) == i as int,
                None => !self.spec_contains(k),
            },
    {
        let mut i: usize = 0;
        while i < self.entries.len()
            invariant
                self.wf_keys(),
                i <= self.entries@.len(),
                forall|j: int| 0 <= j < i ==> (#[trigger] self.entries@[j]).0 != k,
            decreases self.entries@.len() - i,
        {
            if self.entries[i].0 == k {
                proof {
                    assert(self.entries@[i as int].0 == k);
                    assert(self.spec_contains(k));
                    let j = self.spec_idx(k);
                    assert(0 <= j < self.entries@.len() && (self.entries@[j]).0 == k);
                    if j != i as int {
                        assert((self.entries@[j]).0 != (self.entries@[i as int]).0);
                    }
                }
                return Some(i);
            }
            i = i + 1;
        }
        None
    }

    pub fn contains_key(&self, k: u64) -> (r: bool)
        requires
            self.wf_keys(),
        ensures
            r <==> self.spec_contains(k),
    {
        match self.find(k) {
            Some(_) => true,
            None => false,
        }
    }

    pub fn get(&self, k: u64) -> (r: Option<&V>)
        requires
            self.wf_keys(),
        ensures
            match r {
                Some(v) => self.spec_contains(k) && *v == self.spec_at(k),
                None => !self.spec_contains(k),
            },
    {
        match self.find(k) {
            Some(i) => Some(&self.entries[i].1),
            None => None,
        }
    }

    /// Insert a binding for a key not yet present.
    pub fn insert_new(&mut self, k: u64, v: V)
        requires
            old(self).wf_keys(),
            !old(self).spec_contains(k),
        ensures
            final(self).wf_keys(),
            final(self).spec_contains(k),
            final(self).spec_at(k) == v,
            final(self).same_except(old(self), k),
            final(self).entries@.len() == old(self).entries@.len() + 1,
    {
        let ghost pre = *self;
        self.entries.push((k, v));
        proof {
            let n = pre.entries@.len() as int;
            assert(self.entries@[n].0 == k);
            assert(forall|j: int|
                0 <= j < n ==> (#[trigger] self.entries@[j]) == pre.entries@[j]);
            assert forall|a: int, b: int|
                0 <= a < b < self.entries@.len() implies (#[trigger] self.entries@[a]).0 != (
            #[trigger] self.entries@[b]).0 by {
                if b == n {
                    if pre.spec_contains(k) {
                    } else {
                        assert(self.entries@[a] == pre.entries@[a]);
                        if self.entries@[a].0 == k {
                            assert(pre.spec_contains(k));
                        }
                    }
                }
            }
            let j2 = self.spec_idx(k);
            assert(self.entries@[j2].0 == k);
            assert(j2 == n) by {
                if j2 != n {
                    assert(self.entries@[j2].0 != self.entries@[n].0);
                }
            }
            assert forall|u: u64| u != k && pre.spec_contains(u) implies self.spec_contains(u)
                && self.spec_at(u) == pre.spec_at(u) by {
                let j = pre.spec_idx(u);
                assert(pre.entries@[j].0 == u);
                assert(self.entries@[j].0 == u && self.entries@[j].1 == pre.entries@[j].1);
                assert(self.spec_contains(u));
                let jj = self.spec_idx(u);
                assert(self.entries@[jj].0 == u);
                if jj != j {
                    assert(self.entries@[jj].0 != self.entries@[j].0);
                }
            }
            assert forall|u: u64| u != k && self.spec_contains(u) implies pre.spec_contains(u) by {
                let j = self.spec_idx(u);
                assert(self.entries@[j].0 == u);
                assert(j != n);
                assert(pre.entries@[j].0 == u);
            }
        }
    }

    /// Remove the binding of `k`, which must exist, and return its value.
    pub fn remove_key(&mut self, k: u64) -> (r: V)
        requires
            old(self).wf_keys(),
            old(self).spec_contains(k),
        ensures
            final(self).wf_keys(),
            !final(self).spec_contains(k),
            final(self).same_except(old(self), k),
            final(self).entries@.len() == old(self).entries@.len() - 1,
            r == old(self).spec_at(k),
    {
        let ghost pre = *self;
        match self.find(k) {
            Some(i) => {
                let (_key, v) = self.entries.remove(i);
                proof {
                    assert(forall|j: int|
                        0 <= j < i ==> (#[trigger] self.entries@[j]) == pre.entries@[j]);
                    assert(forall|j: int|
                        i <= j < self.entries@.len() ==> (#[trigger] self.entries@[j])
                            == pre.entries@[j + 1]);
                    if self.spec_contains(k) {
                        let j = self.spec_idx(k);
                        assert(self.entries@[j].0 == k);
                        if j < i {
                            assert(pre.entries@[j].0 == k && pre.entries@[i as int].0 == k);
                            assert(pre.entries@[j].0 != pre.entries@[i as int].0);
                        } else {
                            assert(pre.entries@[j + 1].0 == k && pre.entries@[i as int].0 == k);
                            assert(pre.entries@[j + 1].0 != pre.entries@[i as int].0);
                        }
                        assert(false);
                    }
                    assert forall|u: u64| u != k && pre.spec_contains(u) implies self.spec_contains(
                        u,
                    ) && self.spec_at(u) == pre.spec_at(u) by {
                        let j = pre.spec_idx(u);
                        assert(pre.entries@[j].0 == u);
                        assert(j != i as int);
                        let j3: int = if j < i {
                            j
                        } else {
                            j - 1
                        };
                        assert(self.entries@[j3].0 == u && self.entries@[j3].1
                            == pre.entries@[j].1);
                        assert(self.spec_contains(u));
                        let jj = self.spec_idx(u);
                        assert(self.entries@[jj].0 == u);
                        if jj != j3 {
                            assert(self.entries@[jj].0 != self.entries@[j3].0);
                        }
                    }
                    assert forall|u: u64| u != k && self.spec_contains(u) implies
                        pre.spec_contains(u) by {
                        let j = self.spec_idx(u);
                        assert(self.entries@[j].0 == u);
                        if j < i {
                            assert(pre.entries@[j].0 == u);
                        } else {
                            assert(pre.entries@[j + 1].0 == u);
                        }
                    }
                }
                v
            },
            None => {
                proof {
                    assert(false);
                }
                unreached()
            },
        }
    }

    /// Replace the value bound to `k`, which must exist.
    pub fn set_existing(&mut self, k: u64, v: V)
        requires
            old(self).wf_keys(),
            old(self).spec_contains(k),
        ensures
            final(self).wf_keys(),
            final(self).spec_contains(k),
            final(self).spec_at(k) == v,
            final(self).same_except(old(self), k),
            final(self).entries@.len() == old(self).entries@.len(),
    {
        let ghost pre = *self;
        match self.find(k) {
            Some(i) => {
                let _old_entry = self.entries.remove(i);
                self.entries.insert(i, (k, v));
                proof {
                    assert(forall|j: int|
                        0 <= j < self.entries@.len() && j != i ==> (#[trigger] self.entries@[j])
                            == pre.entries@[j]);
                    assert(self.entries@[i as int].0 == k);
                    assert forall|a: int, b: int|
                        0 <= a < b < self.entries@.len() implies (#[trigger] self.entries@[a]).0
                        != (#[trigger] self.entries@[b]).0 by {
                        assert(pre.entries@[a].0 != pre.entries@[b].0);
                        if a == i {
                            assert(self.entries@[a].0 == pre.entries@[a].0);
                        }
                        if b == i {
                            assert(self.entries@[b].0 == pre.entries@[b].0);
                        }
                    }
                    let j2 = self.spec_idx(k);
                    assert(self.entries@[j2].0 == k);
                    if j2 != i as int {
                        assert(self.entries@[j2].0 != self.entries@[i as int].0);
                    }
                    assert forall|u: u64| u != k && pre.spec_contains(u) implies self.spec_contains(
                        u,
                    ) && self.spec_at(u) == pre.spec_at(u) by {
                        let j = pre.spec_idx(u);
                        assert(pre.entries@[j].0 == u);
                        assert(j != i as int);
                        assert(self.entries@[j].0 == u && self.entries@[j].1
                            == pre.entries@[j].1);
                        assert(self.spec_contains(u));
                        let jj = self.spec_idx(u);
                        assert(self.entries@[jj].0 == u);
                        if jj != j {
                            assert(self.entries@[jj].0 != self.entries@[j].0);
                        }
                    }
                    assert forall|u: u64| u != k && self.spec_contains(u) implies
                        pre.spec_contains(u) by {
                        let j = self.spec_idx(u);
                        assert(self.entries@[j].0 == u);
                        assert(j != i as int);
                        assert(pre.entries@[j].0 == u);
                    }
                }
            },
            None => {
                proof {
                    assert(false);
                }
            },
        }
    }
}

} // verus!
