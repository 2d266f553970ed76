//! Ordered map from tick index to tick state, one per fee level.
//!
//! Entries are kept in a vector sorted by strictly increasing tick index.
//! The map maintains the central bookkeeping invariant of the engine: an
//! entry exists exactly while its reference counter is positive.

use vstd::prelude::*;

use crate::pool_types::TickStateV0;

verus! {

pub struct TickStates {
    pub entries: Vec<(i32, TickStateV0)>,
}

impl TickStates {
    /// Sorted, well-formed, and every entry is referenced by some position.
    pub open spec fn wf(&self) -> bool {
        &&& (forall|i: int, j: int|
            0 <= i < j < self.entries@.len() ==> (#[trigger] self.entries@[i]).0 < (
            #[trigger] self.entries@[j]).0)
        &&& (forall|i: int|
            0 <= i < self.entries@.len() ==> (#[trigger] self.entries@[i]).1.wf())
        &&& (forall|i: int|
            0 <= i < self.entries@.len() ==> (#[trigger] self.entries@[i]).1.reference_counter
                >= 1)
    }

    pub open spec fn spec_contains(&self, t: int) -> bool {
        exists|i: int| 0 <= i < self.entries@.len() && (#[trigger] self.entries@[i]).0 == t
    }

    pub open spec fn spec_idx(&self, t: int) -> int {
        choose|i: int| 0 <= i < self.entries@.len() && (#[trigger] self.entries@[i]).0 == t
    }

    pub open spec fn spec_at(&self, t: int) -> TickStateV0 {
        self.entries@[self.spec_idx(t)].1
    }

    pub fn new() -> (r: TickStates)
        ensures
            r.wf(),
            r.entries@.len() == 0,
            forall|t: int| !r.spec_contains(t),
    {
        TickStates { entries: Vec::new() }
    }

    pub fn is_empty(&self) -> (r: bool)
        ensures
            r <==> self.entries@.len() == 0,
            r ==> forall|t: int| !self.spec_contains(t),
    {
        self.entries.len() == 0
    }

    /// Index of the entry for tick `t`, if present.
    fn find(&self, t: i32) -> (r: Option<usize>)
        requires
            self.wf(),
        ensures
            match r {
                Some(i) => (i as int) < self.entries@.len() && self.entries@[i as int].0 == t
                    && self.spec_contains(t as int) && self.spec_idx(t as int) == i as int,
                None => !self.spec_contains(t as int),
            },
    {
        let mut i: usize = 0;
        while i < self.entries.len()
            invariant
                self.wf(),
                i <= self.entries@.len(),
                forall|j: int| 0 <= j < i ==> (#[trigger] self.entries@[j]).0 != t,
            decreases self.entries@.len() - i,
        {
            if self.entries[i].0 == t {
                proof {
                    assert(self.entries@[i as int].0 == t);
                    assert(self.spec_contains(t as int));
                    assert(forall|a: int, b: int|
                        0 <= a < b < self.entries@.len() ==> (#[trigger] self.entries@[a]).0 < (
                        #[trigger] self.entries@[b]).0);
                    let j = self.spec_idx(t as int);
                    assert(0 <= j < self.entries@.len() && (self.entries@[j]).0 == t);
                    if j < i as int {
                        assert((self.entries@[j]).0 < (self.entries@[i as int]).0);
                    }
                    if j > i as int {
                        assert((self.entries@[i as int]).0 < (self.entries@[j]).0);
                    }
                }
                return Some(i);
            }
            i = i + 1;
        }
        None
    }

    pub fn contains_key(&self, t: i32) -> (r: bool)
        requires
            self.wf(),
        ensures
            r <==> self.spec_contains(t as int),
    {
        match self.find(t) {
            Some(_) => true,
            None => false,
        }
    }

    /// Copy of the state at tick `t`.
    pub fn get(&self, t: i32) -> (r: Option<TickStateV0>)
        requires
            self.wf(),
        ensures
            match r {
                Some(st) => {
                    &&& self.spec_contains(t as int)
                    &&& st.wf()
                    &&& st.reference_counter == self.spec_at(t as int).reference_counter
                    &&& st.net_liquidity_change.int_val() == self.spec_at(
                        t as int,
                    ).net_liquidity_change.int_val()
                    &&& st.acc_lp_fees_per_fee_liquidity_outside.0.int_val() == self.spec_at(
                        t as int,
                    ).acc_lp_fees_per_fee_liquidity_outside.0.int_val()
                    &&& st.acc_lp_fees_per_fee_liquidity_outside.1.int_val() == self.spec_at(
                        t as int,
                    ).acc_lp_fees_per_fee_liquidity_outside.1.int_val()
                },
                None => !self.spec_contains(t as int),
            },
    {
        match self.find(t) {
            Some(i) => Some(self.entries[i].1.clone()),
            None => None,
        }
    }

    /// Keys unchanged except possibly `t`, and states at other keys unchanged.
    pub open spec fn same_except(&self, old_self: &TickStates, t: int) -> bool {
        &&& (forall|u: int|
            u != t ==> (#[trigger] self.spec_contains(u) <==> old_self.spec_contains(u)))
        &&& (forall|u: int|
            u != t && old_self.spec_contains(u) ==> #[trigger] self.spec_at(u)
                == old_self.spec_at(u))
    }

    /// Keys unchanged except possibly `t1` and `t2`, and states at other
    /// keys unchanged.
    pub open spec fn same_except_pair(&self, old_self: &TickStates, t1: int, t2: int) -> bool {
        &&& (forall|u: int|
            u != t1 && u != t2 ==> (#[trigger] self.spec_contains(u)
                <==> old_self.spec_contains(u)))
        &&& (forall|u: int|
            u != t1 && u != t2 && old_self.spec_contains(u) ==> #[trigger] self.spec_at(u)
                == old_self.spec_at(u))
    }

    /// Insert or replace the state at tick `t`.
    #[verifier::rlimit(60)]
    pub fn set(&mut self, t: i32, st: TickStateV0) -> (r: ())
        requires
            old(self).wf(),
            st.wf(),
            st.reference_counter >= 1,
        ensures
            final(self).wf(),
            final(self).spec_contains(t as int),
            final(self).spec_at(t as int) == st,
            final(self).same_except(old(self), t as int),
            final(self).entries@.len() == old(self).entries@.len() + (if old(self).spec_contains(
                t as int,
            ) {
                0int
            } else {
                1int
            }),
    {
        let ghost pre = *self;
        let mut i: usize = 0;
        while i < self.entries.len() && self.entries[i].0 < t
            invariant
                self.wf(),
                i <= self.entries@.len(),
                *self == pre,
                forall|j: int| 0 <= j < i ==> (#[trigger] self.entries@[j]).0 < t,
            decreases self.entries@.len() - i,
        {
            i = i + 1;
        }
        if i < self.entries.len() && self.entries[i].0 == t {
            let _old = self.entries.remove(i);
            self.entries.insert(i, (t, st));
            proof {
                assert forall|u: int| u != t && pre.spec_contains(u) implies self.spec_contains(u)
                    && self.spec_at(u) == pre.spec_at(u) by {
                    let j = pre.spec_idx(u);
                    assert(pre.entries@[j].0 == u);
                    assert(self.entries@[j].0 == u && self.entries@[j].1 == pre.entries@[j].1);
                    assert(self.spec_contains(u));
                    let j2 = self.spec_idx(u);
                    assert(self.entries@[j2].0 == u);
                    assert(j2 == j) by {
                        if j2 != j {
                            assert(self.entries@[j2].0 < self.entries@[j].0 || self.entries@[j].0
                                < self.entries@[j2].0);
                        }
                    }
                }
                assert forall|u: int| u != t && self.spec_contains(u) implies pre.spec_contains(
                    u,
                ) by {
                    let j = self.spec_idx(u);
                    assert(self.entries@[j].0 == u);
                    assert(pre.entries@[j].0 == u);
                }
                let j2 = self.spec_idx(t as int);
                assert(self.entries@[i as int].0 == t);
                assert(j2 == i as int) by {
                    if j2 != i as int {
                        assert(self.entries@[j2].0 < self.entries@[i as int].0
                            || self.entries@[i as int].0 < self.entries@[j2].0);
                    }
                }
            }
        } else {
            self.entries.insert(i, (t, st));
            proof {
                // all keys before i are < t, all at or after i (shifted) are > t
                assert(forall|j: int|
                    0 <= j < i ==> (#[trigger] self.entries@[j]).0 == pre.entries@[j].0);
                assert(forall|j: int|
                    i < j < self.entries@.len() ==> (#[trigger] self.entries@[j]).0
                        == pre.entries@[j - 1].0);
                assert forall|a: int, b: int|
                    0 <= a < b < self.entries@.len() implies (#[trigger] self.entries@[a]).0 < (
                #[trigger] self.entries@[b]).0 by {
                    if a < i && b == i {
                    } else if a == i && b > i {
                        if i < pre.entries@.len() {
                            assert(pre.entries@[i as int].0 > t || pre.entries@[i as int].0 == t);
                            assert(pre.entries@[i as int].0 != t);
                        }
                        if b - 1 > i {
                            assert(pre.entries@[i as int].0 <= pre.entries@[b - 1].0);
                        }
                    }
                }
                assert forall|u: int| u != t && pre.spec_contains(u) implies self.spec_contains(u)
                    && self.spec_at(u) == pre.spec_at(u) by {
                    let j = pre.spec_idx(u);
                    assert(pre.entries@[j].0 == u);
                    let j3: int = if j < i {
                        j
                    } else {
                        j + 1
                    };
                    assert(self.entries@[j3].0 == u && self.entries@[j3].1 == pre.entries@[j].1);
                    assert(self.spec_contains(u));
                    let j2 = self.spec_idx(u);
                    assert(self.entries@[j2].0 == u);
                    assert(j2 == j3) by {
                        if j2 != j3 {
                            assert(self.entries@[j2].0 < self.entries@[j3].0 || self.entries@[j3].0
                                < self.entries@[j2].0);
                        }
                    }
                }
                assert forall|u: int| u != t && self.spec_contains(u) implies pre.spec_contains(
                    u,
                ) by {
                    let j = self.spec_idx(u);
                    assert(self.entries@[j].0 == u);
                    if j < i {
                        assert(pre.entries@[j].0 == u);
                    } else {
                        assert(j != i);
                        assert(pre.entries@[j - 1].0 == u);
                    }
                }
                let j2 = self.spec_idx(t as int);
                assert(self.entries@[i as int].0 == t);
                assert(j2 == i as int) by {
                    if j2 != i as int {
                        assert(self.entries@[j2].0 < self.entries@[i as int].0
                            || self.entries@[i as int].0 < self.entries@[j2].0);
                    }
                }
                if pre.spec_contains(t as int) {
                    let j = pre.spec_idx(t as int);
                    assert(pre.entries@[j].0 == t);
                    if j < i {
                        assert(pre.entries@[j].0 < t);
                    } else if j >= i && i < pre.entries@.len() {
                        assert(pre.entries@[i as int].0 <= pre.entries@[j].0
                            || i == j);
                    }
                    assert(false);
                }
            }
        }
    }

    /// Remove the entry at tick `t`, which must exist.
    pub fn remove(&mut self, t: i32) -> (r: ())
        requires
            old(self).wf(),
            old(self).spec_contains(t as int),
        ensures
            final(self).wf(),
            !final(self).spec_contains(t as int),
            final(self).same_except(old(self), t as int),
            final(self).entries@.len() == old(self).entries@.len() - 1,
    {
        let ghost pre = *self;
        match self.find(t) {
            Some(i) => {
                let _removed = self.entries.remove(i);
                proof {
                    assert(forall|j: int|
                        0 <= j < i ==> (#[trigger] self.entries@[j]).0 == pre.entries@[j].0);
                    assert(forall|j: int|
                        i <= j < self.entries@.len() ==> (#[trigger] self.entries@[j]).0
                            == pre.entries@[j + 1].0);
                    if self.spec_contains(t as int) {
                        let j = self.spec_idx(t as int);
                        assert(self.entries@[j].0 == t);
                        if j < i {
                            assert(pre.entries@[j].0 == t);
                            assert(j != i as int && pre.entries@[i as int].0 == t);
                            assert(false);
                        } else {
                            assert(pre.entries@[j + 1].0 == t);
                            assert(pre.entries@[i as int].0 == t);
                            assert(false);
                        }
                    }
                    assert forall|u: int| u != t && pre.spec_contains(u) implies self.spec_contains(
                        u,
                    ) && self.spec_at(u) == pre.spec_at(u) by {
                        let j = pre.spec_idx(u);
                        assert(pre.entries@[j].0 == u);
                        assert(j != i as int);
                        let j3: int = if j < i {
                            j
                        } else {
                            j - 1
                        };
                        assert(self.entries@[j3].0 == u && self.entries@[j3].1
                            == pre.entries@[j].1);
                        assert(self.spec_contains(u));
                        let j2 = self.spec_idx(u);
                        assert(self.entries@[j2].0 == u);
                        assert(j2 == j3) by {
                            if j2 != j3 {
                                assert(self.entries@[j2].0 < self.entries@[j3].0
                                    || self.entries@[j3].0 < self.entries@[j2].0);
                            }
                        }
                    }
                    assert forall|u: int| u != t && self.spec_contains(u) implies
                        pre.spec_contains(u) by {
                        let j = self.spec_idx(u);
                        assert(self.entries@[j].0 == u);
                        if j < i {
                            assert(pre.entries@[j].0 == u);
                        } else {
                            assert(pre.entries@[j + 1].0 == u);
                        }
                    }
                }
            },
            None => {
                proof {
                    assert(false);
                }
            },
        }
    }

    /// Least key strictly above `t`.
    pub fn next_above(&self, t: i32) -> (r: Option<i32>)
        requires
            self.wf(),
        ensures
            match r {
                Some(k) => self.spec_contains(k as int) && (k as int) > t && (forall|u: int|
                    self.spec_contains(u) && u > t ==> u >= k),
                None => forall|u: int| #[trigger] self.spec_contains(u) ==> u <= t,
            },
    {
        let mut i: usize = 0;
        while i < self.entries.len()
            invariant
                self.wf(),
                i <= self.entries@.len(),
                forall|j: int| 0 <= j < i ==> (#[trigger] self.entries@[j]).0 <= t,
            decreases self.entries@.len() - i,
        {
            if self.entries[i].0 > t {
                let k = self.entries[i].0;
                proof {
                    assert(self.entries@[i as int].0 == k);
                    assert(self.spec_contains(k as int));
                    assert(forall|a: int, b: int|
                        0 <= a < b < self.entries@.len() ==> (#[trigger] self.entries@[a]).0 < (
                        #[trigger] self.entries@[b]).0);
                    assert forall|u: int| self.spec_contains(u) && u > t implies u >= k by {
                        let j = self.spec_idx(u);
                        assert(self.entries@[j].0 == u);
                        if j < i {
                            assert(u <= t);
                        } else if j > i {
                            assert(0 <= (i as int) && (i as int) < j && j < self.entries@.len());
                            assert((self.entries@[i as int]).0 < (self.entries@[j]).0);
                        }
                    }
                }
                return Some(k);
            }
            i = i + 1;
        }
        proof {
            assert forall|u: int| #[trigger] self.spec_contains(u) implies u <= t by {
                let j = self.spec_idx(u);
                assert(self.entries@[j].0 == u);
            }
        }
        None
    }

    /// Greatest key strictly below `t`.
    pub fn next_below(&self, t: i32) -> (r: Option<i32>)
        requires
            self.wf(),
        ensures
            match r {
                Some(k) => self.spec_contains(k as int) && (k as int) < t && (forall|u: int|
                    self.spec_contains(u) && u < t ==> u <= k),
                None => forall|u: int| #[trigger] self.spec_contains(u) ==> u >= t,
            },
    {
        let mut i: usize = self.entries.len();
        while i > 0
            invariant
                self.wf(),
                i <= self.entries@.len(),
                forall|j: int|
                    i <= j < self.entries@.len() ==> (#[trigger] self.entries@[j]).0 >= t,
            decreases i,
        {
            i = i - 1;
            if self.entries[i].0 < t {
                let k = self.entries[i].0;
                proof {
                    assert(self.entries@[i as int].0 == k);
                    assert(self.spec_contains(k as int));
                    assert(forall|a: int, b: int|
                        0 <= a < b < self.entries@.len() ==> (#[trigger] self.entries@[a]).0 < (
                        #[trigger] self.entries@[b]).0);
                    assert forall|u: int| self.spec_contains(u) && u < t implies u <= k by {
                        let j = self.spec_idx(u);
                        assert(self.entries@[j].0 == u);
                        if j > i {
                            assert(u >= t);
                        } else if j < i {
                            assert(0 <= j && j < i as int && (i as int) < self.entries@.len());
                            assert((self.entries@[j]).0 < (self.entries@[i as int]).0);
                        }
                    }
                }
                return Some(k);
            }
        }
        proof {
            assert forall|u: int| #[trigger] self.spec_contains(u) implies u >= t by {
                let j = self.spec_idx(u);
                assert(self.entries@[j].0 == u);
            }
        }
        None
    }

    /// Least key of the map.
    pub fn min_key(&self) -> (r: Option<i32>)
        requires
            self.wf(),
        ensures
            match r {
                Some(k) => self.spec_contains(k as int),
                None => self.entries@.len() == 0,
            },
    {
        if self.entries.len() > 0 {
            let k = self.entries[0].0;
            proof {
                assert(self.entries@[0].0 == k);
            }
            Some(k)
        } else {
            None
        }
    }
}

} // verus!
