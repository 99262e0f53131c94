//! The identifier index: a sparse mapping from a stable external key to a
//! record. It is the fast access path beside the ordinal store; the two are
//! kept consistent by the service layer.
//!
//! The index is modelled by two spec functions: `has`, the domain, and `at`,
//! the record value held at a key. All operation contracts are stated over
//! them.

use vstd::prelude::*;
use vstd::pervasive::VecAdditionalExecFns;

verus! {

/// A sparse key-to-record mapping with unique keys.
pub struct IdIndex<T> {
    entries: Vec<(String, T)>,
}

impl<T: DeepView> IdIndex<T> {
    /// The key stored at slot `i`.
    spec fn key_at(self, i: int) -> Seq<char> {
        self.entries@[i].0@
    }

    /// The record value stored at slot `i`.
    spec fn val_at(self, i: int) -> T::V {
        self.entries@[i].1.deep_view()
    }

    /// The number of records held.
    pub closed spec fn size(self) -> nat {
        self.entries@.len()
    }

    /// Well-formed: no key occurs twice.
    pub closed spec fn wf(self) -> bool {
        forall|i: int, j: int|
            0 <= i < j < self.entries@.len() ==> self.key_at(i) != self.key_at(j)
    }

    /// Whether a record is held at key `k`.
    pub closed spec fn has(self, k: Seq<char>) -> bool {
        exists|i: int| 0 <= i < self.entries@.len() && self.key_at(i) == k
    }

    /// The record value held at key `k` (meaningful when `has(k)`).
    pub closed spec fn at(self, k: Seq<char>) -> T::V {
        self.val_at(choose|i: int| 0 <= i < self.entries@.len() && self.key_at(i) == k)
    }

    /// A key found at a slot resolves, through `at`, to that slot's value.
    proof fn lemma_at_idx(self, i: int)
        requires
            self.wf(),
            0 <= i < self.entries@.len(),
        ensures
            self.has(self.key_at(i)),
            self.at(self.key_at(i)) == self.val_at(i),
    {
        assert(self.has(self.key_at(i)));
        let c = choose|c: int| 0 <= c < self.entries@.len() && self.key_at(c) == self.key_at(i);
        assert(c == i);
    }

    /// An empty index.
    pub fn new() -> (r: IdIndex<T>)
        ensures
            r.wf(),
            forall|k: Seq<char>| !r.has(k),
            r.size() == 0,
    {
        IdIndex { entries: Vec::new() }
    }

    /// The slot holding key `k`, if any.
    fn position_of(&self, k: &String) -> (r: Option<usize>)
        ensures
            match r {
                Some(i) => i < self.entries@.len() && self.key_at(i as int) == k@,
                None => !self.has(k@),
            },
    {
        let mut i: usize = 0;
        while i < self.entries.len()
            invariant
                0 <= i <= self.entries@.len(),
                forall|j: int| 0 <= j < i ==> self.key_at(j) != k@,
            decreases self.entries@.len() - i,
        {
            if self.entries[i].0 == *k {
                return Some(i);
            }
            i = i + 1;
        }
        None
    }

    /// Whether a record is held at key `k`.
    pub fn contains_key(&self, k: &String) -> (r: bool)
        ensures
            r == self.has(k@),
    {
        match self.position_of(k) {
            Some(_) => true,
            None => false,
        }
    }

    /// The record held at key `k`, or nothing.
    pub fn get(&self, k: &String) -> (r: Option<&T>)
        requires
            self.wf(),
        ensures
            match r {
                Some(v) => self.has(k@) && v.deep_view() == self.at(k@),
                None => !self.has(k@),
            },
    {
        match self.position_of(k) {
            Some(i) => {
                proof {
                    self.lemma_at_idx(i as int);
                }
                Some(&self.entries[i].1)
            },
            None => None,
        }
    }

    /// Stores `v` at key `k`, replacing any record held there before.
    pub fn insert(&mut self, k: String, v: T)
        requires
            old(self).wf(),
        ensures
            final(self).wf(),
            forall|j: Seq<char>| final(self).has(j) == (old(self).has(j) || j == k@),
            final(self).at(k@) == v.deep_view(),
            forall|j: Seq<char>|
                j != k@ && old(self).has(j) ==> final(self).at(j) == old(self).at(j),
            final(self).size() == if old(self).has(k@) {
                old(self).size()
            } else {
                old(self).size() + 1
            },
    {
        let ghost pre = *self;
        match self.position_of(&k) {
            Some(i) => {
                self.entries.set(i, (k, v));
                proof {
                    assert forall|a: int, b: int|
                        0 <= a < b < self.entries@.len() implies self.key_at(a) != self.key_at(
                        b,
                    ) by {
                        assert(pre.key_at(a) != pre.key_at(b));
                    }
                    assert forall|j: Seq<char>|
                        final(self).has(j) == (pre.has(j) || j == pre.key_at(
                            i as int,
                        )) by {
                        if self.has(j) {
                            let c = choose|c: int|
                                0 <= c < self.entries@.len() && self.key_at(c) == j;
                            assert(pre.key_at(c) == self.key_at(c));
                        }
                        if pre.has(j) {
                            let c = choose|c: int|
                                0 <= c < pre.entries@.len() && pre.key_at(c) == j;
                            assert(self.key_at(c) == pre.key_at(c));
                        }
                    }
                    self.lemma_at_idx(i as int);
                    assert forall|j: Seq<char>|
                        j != pre.key_at(i as int) && pre.has(j) implies self.at(j) == pre.at(
                        j,
                    ) by {
                        let c = choose|c: int| 0 <= c < pre.entries@.len() && pre.key_at(c) == j;
                        assert(c != i);
                        assert(self.key_at(c) == j && self.val_at(c) == pre.val_at(c));
                        self.lemma_at_idx(c);
                        pre.lemma_at_idx(c);
                    }
                }
            },
            None => {
                self.entries.push((k, v));
                proof {
                    let n = pre.entries@.len() as int;
                    assert forall|a: int, b: int|
                        0 <= a < b < self.entries@.len() implies self.key_at(a) != self.key_at(
                        b,
                    ) by {
                        if b < n {
                            assert(pre.key_at(a) != pre.key_at(b));
                        } else {
                            assert(self.key_at(a) == pre.key_at(a));
                            assert(!pre.has(self.key_at(b)));
                        }
                    }
                    assert forall|j: Seq<char>|
                        self.has(j) == (pre.has(j) || j == self.key_at(n)) by {
                        if self.has(j) {
                            let c = choose|c: int|
                                0 <= c < self.entries@.len() && self.key_at(c) == j;
                            if c < n {
                                assert(pre.key_at(c) == j);
                            }
                        }
                        if pre.has(j) {
                            let c = choose|c: int|
                                0 <= c < pre.entries@.len() && pre.key_at(c) == j;
                            assert(self.key_at(c) == j);
                        }
                    }
                    self.lemma_at_idx(n);
                    assert forall|j: Seq<char>|
                        j != self.key_at(n) && pre.has(j) implies self.at(j) == pre.at(j) by {
                        let c = choose|c: int| 0 <= c < pre.entries@.len() && pre.key_at(c) == j;
                        assert(self.key_at(c) == j && self.val_at(c) == pre.val_at(c));
                        self.lemma_at_idx(c);
                        pre.lemma_at_idx(c);
                    }
                }
            },
        }
    }

    /// Deletes the record at key `k`, if one is held.
    pub fn remove(&mut self, k: &String)
        requires
            old(self).wf(),
        ensures
            final(self).wf(),
            !final(self).has(k@),
            forall|j: Seq<char>| j != k@ ==> final(self).has(j) == old(self).has(j),
            forall|j: Seq<char>|
                j != k@ && old(self).has(j) ==> final(self).at(j) == old(self).at(j),
            final(self).size() == if old(self).has(k@) {
                (old(self).size() - 1) as nat
            } else {
                old(self).size()
            },
    {
        let ghost pre = *self;
        match self.position_of(k) {
            Some(i) => {
                self.entries.remove(i);
                proof {
                    let n = self.entries@.len() as int;
                    let ix = i as int;
                    // Each remaining slot carries what some old slot other than `ix` carried.
                    assert forall|c: int| 0 <= c < n implies self.entries@[c]
                        == pre.entries@[if c < ix { c } else { c + 1 }] by {}
                    assert forall|a: int, b: int|
                        0 <= a < b < n implies self.key_at(a) != self.key_at(b) by {
                        let a0 = if a < ix { a } else { a + 1 };
                        let b0 = if b < ix { b } else { b + 1 };
                        assert(pre.key_at(a0) != pre.key_at(b0));
                    }
                    assert forall|c: int| 0 <= c < n implies self.key_at(c) != k@ by {
                        let c0 = if c < ix { c } else { c + 1 };
                        assert(pre.key_at(c0) == self.key_at(c));
                        if pre.key_at(c0) == k@ {
                            assert(pre.key_at(ix) == k@);
                            assert(c0 != ix);
                            assert(false);
                        }
                    }
                    assert forall|j: Seq<char>| j != k@ implies self.has(j) == pre.has(j) by {
                        if self.has(j) {
                            let c = choose|c: int| 0 <= c < n && self.key_at(c) == j;
                            let c0 = if c < ix { c } else { c + 1 };
                            assert(pre.key_at(c0) == j);
                        }
                        if pre.has(j) {
                            let c0 = choose|c0: int|
                                0 <= c0 < pre.entries@.len() && pre.key_at(c0) == j;
                            assert(c0 != ix);
                            let c = if c0 < ix { c0 } else { c0 - 1 };
                            assert(self.key_at(c) == j);
                        }
                    }
                    assert forall|j: Seq<char>|
                        j != k@ && pre.has(j) implies self.at(j) == pre.at(j) by {
                        let c0 = choose|c0: int|
                            0 <= c0 < pre.entries@.len() && pre.key_at(c0) == j;
                        assert(c0 != ix);
                        let c = if c0 < ix { c0 } else { c0 - 1 };
                        assert(self.key_at(c) == j && self.val_at(c) == pre.val_at(c0));
                        self.lemma_at_idx(c);
                        pre.lemma_at_idx(c0);
                    }
                }
            },
            None => {},
        }
    }
}

} // verus!
