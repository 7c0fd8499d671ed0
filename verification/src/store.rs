//! The authorization store's two shapes of state: a set of identities
//! (used for a delegate's allow-list and for the global policy signers) and
//! the mapping from delegate key to allow-list.
//!
//! Both are plain containers with set and map semantics: duplicates collapse
//! and order carries no meaning. Contracts speak of them through `Set` and
//! `Map` views.

use vstd::prelude::*;
use vstd::pervasive::VecAdditionalExecFns;
use crate::ident::{Identity, identity_eq, DelegateKey, delegate_key_eq};

verus! {

/// The set of identities that a sequence of `Identity` values denotes.
pub open spec fn id_set(s: Seq<Identity>) -> Set<Seq<u8>> {
    Set::new(|b: Seq<u8>| exists|i: int| 0 <= i < s.len() && s[i]@ == b)
}

/// No two entries of the sequence denote the same identity.
pub open spec fn distinct_ids(s: Seq<Identity>) -> bool {
    forall|i: int, j: int| 0 <= i < j < s.len() ==> s[i]@ != s[j]@
}

/// No two entries of the sequence denote the same delegate key.
pub open spec fn distinct_keys(s: Seq<DelegateKey>) -> bool {
    forall|i: int, j: int| 0 <= i < j < s.len() ==> s[i]@ != s[j]@
}

proof fn lemma_distinct_id_pair(s: Seq<Identity>, p: int, q: int)
    requires
        distinct_ids(s),
        0 <= p < s.len(),
        0 <= q < s.len(),
        p != q,
    ensures
        s[p]@ != s[q]@,
{
    if p < q {
        assert(s[p]@ != s[q]@);
    } else {
        assert(s[q]@ != s[p]@);
    }
}

proof fn lemma_distinct_key_pair(s: Seq<DelegateKey>, p: int, q: int)
    requires
        distinct_keys(s),
        0 <= p < s.len(),
        0 <= q < s.len(),
        p != q,
    ensures
        s[p]@ != s[q]@,
{
    if p < q {
        assert(s[p]@ != s[q]@);
    } else {
        assert(s[q]@ != s[p]@);
    }
}

/// A set of account identities, kept without duplicates.
pub struct IdentitySet {
    items: Vec<Identity>,
}

impl View for IdentitySet {
    type V = Set<Seq<u8>>;

    closed spec fn view(&self) -> Set<Seq<u8>> {
        id_set(self.items@)
    }
}

impl IdentitySet {
    pub closed spec fn wf(self) -> bool {
        distinct_ids(self.items@)
    }

    pub fn empty() -> (r: IdentitySet)
        ensures
            r.wf(),
            r@ == Set::<Seq<u8>>::empty(),
    {
        let r = IdentitySet { items: Vec::new() };
        proof {
            assert(r@ =~= Set::<Seq<u8>>::empty());
        }
        r
    }

    pub fn contains(&self, x: &Identity) -> (r: bool)
        ensures
            r == self@.contains(x@),
    {
        let mut i: usize = 0;
        while i < self.items.len()
            invariant
                0 <= i <= self.items@.len(),
                forall|j: int| 0 <= j < i ==> self.items@[j]@ != x@,
            decreases self.items@.len() - i,
        {
            if identity_eq(&self.items[i], x) {
                assert(self@.contains(x@)) by {
                    assert(self.items@[i as int]@ == x@);
                }
                return true;
            }
            i += 1;
        }
        assert(!self@.contains(x@));
        false
    }

    /// Adds one identity; a duplicate of a present member changes nothing.
    pub fn insert(&mut self, x: Identity)
        requires
            old(self).wf(),
        ensures
            final(self).wf(),
            final(self)@ == old(self)@.insert(x@),
    {
        let ghost xv = x@;
        let present = self.contains(&x);
        if !present {
            self.items.push(x);
            proof {
                let s0 = old(self).items@;
                let s1 = self.items@;
                assert forall|b: Seq<u8>| #[trigger] id_set(s1).contains(b)
                    implies old(self)@.insert(xv).contains(b) by {
                    let i = choose|i: int| 0 <= i < s1.len() && s1[i]@ == b;
                    if i < s0.len() {
                        assert(s0[i]@ == b);
                    } else {
                        assert(b == xv);
                    }
                };
                assert forall|b: Seq<u8>| #[trigger] old(self)@.insert(xv).contains(b)
                    implies id_set(s1).contains(b) by {
                    if b == xv {
                        assert(s1[s0.len() as int]@ == b);
                    } else {
                        let i = choose|i: int| 0 <= i < s0.len() && s0[i]@ == b;
                        assert(s1[i]@ == b);
                    }
                };
                assert(final(self)@ =~= old(self)@.insert(xv));
                assert forall|i: int, j: int| 0 <= i < j < s1.len()
                    implies s1[i]@ != s1[j]@ by {
                    if j < s0.len() {
                        assert(s0[i]@ != s0[j]@);
                    } else {
                        assert(s1[j]@ == xv);
                        assert(id_set(s0).contains(s0[i]@));
                        assert(s0[i]@ != xv);
                    }
                };
            }
        } else {
            proof {
                assert(old(self)@.insert(xv) =~= old(self)@);
            }
        }
    }

    /// Deletes one identity; deleting an absent member changes nothing.
    pub fn remove(&mut self, x: &Identity)
        requires
            old(self).wf(),
        ensures
            final(self).wf(),
            final(self)@ == old(self)@.remove(x@),
    {
        let mut i: usize = 0;
        while i < self.items.len()
            invariant
                0 <= i <= self.items@.len(),
                *self == *old(self),
                old(self).wf(),
                forall|j: int| 0 <= j < i ==> self.items@[j]@ != x@,
            decreases self.items@.len() - i,
        {
            if identity_eq(&self.items[i], x) {
                let ghost s0 = self.items@;
                let ghost ii = i as int;
                self.items.swap_remove(i);
                proof {
                    let s1 = self.items@;
                    // s1 == s0.update(ii, s0.last()).drop_last()
                    assert forall|j: int| 0 <= j < s1.len()
                        implies (#[trigger] s1[j]@ == (if j == ii { s0[s0.len() - 1]@ } else { s0[j]@ })) by {
                    };
                    assert(s0[ii]@ == x@);
                    assert forall|b: Seq<u8>| #[trigger] id_set(s1).contains(b)
                        implies old(self)@.remove(x@).contains(b) by {
                        let j = choose|j: int| 0 <= j < s1.len() && s1[j]@ == b;
                        if j == ii {
                            assert(s0[s0.len() - 1]@ == b);
                            assert(ii < s0.len() - 1);
                            lemma_distinct_id_pair(s0, s0.len() - 1, ii);
                            assert(b != x@);
                        } else {
                            assert(s0[j]@ == b);
                            lemma_distinct_id_pair(s0, j, ii);
                            assert(b != x@);
                        }
                    };
                    assert forall|b: Seq<u8>| #[trigger] old(self)@.remove(x@).contains(b)
                        implies id_set(s1).contains(b) by {
                        let j = choose|j: int| 0 <= j < s0.len() && s0[j]@ == b;
                        if j == ii {
                            assert(false);
                        } else if j == s0.len() - 1 {
                            assert(ii < s0.len() - 1);
                            assert(s1[ii]@ == b);
                        } else {
                            assert(s1[j]@ == b);
                        }
                    };
                    assert(final(self)@ =~= old(self)@.remove(x@));
                    assert forall|p: int, q: int| 0 <= p < q < s1.len()
                        implies s1[p]@ != s1[q]@ by {
                        let pv = if p == ii { s0.len() - 1 } else { p };
                        let qv = if q == ii { s0.len() - 1 } else { q };
                        assert(s1[p]@ == s0[pv]@ && s1[q]@ == s0[qv]@);
                        assert(pv != qv);
                        lemma_distinct_id_pair(s0, pv, qv);
                    };
                }
                return;
            }
            i += 1;
        }
        proof {
            assert(!old(self)@.contains(x@));
            assert(old(self)@.remove(x@) =~= old(self)@);
        }
    }

    /// Builds the set that a caller-supplied list of identities denotes;
    /// duplicates collapse.
    pub fn from_items(xs: &Vec<Identity>) -> (r: IdentitySet)
        ensures
            r.wf(),
            r@ == id_set(xs@),
    {
        let mut r = IdentitySet::empty();
        let mut i: usize = 0;
        while i < xs.len()
            invariant
                0 <= i <= xs@.len(),
                r.wf(),
                r@ == id_set(xs@.subrange(0, i as int)),
            decreases xs@.len() - i,
        {
            let item = &xs[i];
            r.insert(item.clone());
            proof {
                let pre = xs@.subrange(0, i as int);
                let post = xs@.subrange(0, i + 1);
                assert forall|b: Seq<u8>| #[trigger] id_set(post).contains(b)
                    implies id_set(pre).insert(xs@[i as int]@).contains(b) by {
                    let j = choose|j: int| 0 <= j < post.len() && post[j]@ == b;
                    if j < i {
                        assert(pre[j]@ == b);
                    } else {
                        assert(b == xs@[i as int]@);
                    }
                };
                assert forall|b: Seq<u8>| #[trigger] id_set(pre).insert(xs@[i as int]@).contains(b)
                    implies id_set(post).contains(b) by {
                    if b == xs@[i as int]@ {
                        assert(post[i as int]@ == b);
                    } else {
                        let j = choose|j: int| 0 <= j < pre.len() && pre[j]@ == b;
                        assert(post[j]@ == b);
                    }
                };
                assert(id_set(post) =~= id_set(pre).insert(xs@[i as int]@));
            }
            i += 1;
        }
        proof {
            assert(xs@.subrange(0, xs@.len() as int) =~= xs@);
        }
        r
    }

    /// Hands the members out as a list, one entry per member, in an order
    /// that carries no meaning.
    pub fn to_vec(&self) -> (r: Vec<Identity>)
        requires
            self.wf(),
        ensures
            distinct_ids(r@),
            id_set(r@) == self@,
    {
        let mut r: Vec<Identity> = Vec::new();
        let mut i: usize = 0;
        while i < self.items.len()
            invariant
                0 <= i <= self.items@.len(),
                r@.len() == i,
                forall|j: int| 0 <= j < i ==> r@[j]@ == self.items@[j]@,
            decreases self.items@.len() - i,
        {
            let item = &self.items[i];
            r.push(item.clone());
            i += 1;
        }
        proof {
            assert forall|b: Seq<u8>| #[trigger] id_set(r@).contains(b)
                implies self@.contains(b) by {
                let j = choose|j: int| 0 <= j < r@.len() && r@[j]@ == b;
                assert(self.items@[j]@ == b);
            };
            assert forall|b: Seq<u8>| #[trigger] self@.contains(b)
                implies id_set(r@).contains(b) by {
                let j = choose|j: int| 0 <= j < self.items@.len() && self.items@[j]@ == b;
                assert(r@[j]@ == b);
            };
            assert(id_set(r@) =~= self@);
        }
        r
    }
}

/// The per-delegate allow-lists: a mapping from delegate key to the set of
/// counterparties that the delegate may direct a transfer toward. A delegate
/// with no entry here has never been added (or has been removed), which the
/// policy treats differently from a delegate whose entry is the empty set.
pub struct AllowLists {
    keys: Vec<DelegateKey>,
    lists: Vec<IdentitySet>,
}

impl View for AllowLists {
    type V = Map<Seq<u8>, Set<Seq<u8>>>;

    closed spec fn view(&self) -> Map<Seq<u8>, Set<Seq<u8>>> {
        Map::new(|k: Seq<u8>| self.has_key(k), |k: Seq<u8>| self.lists@[self.index_of(k)]@)
    }
}

impl AllowLists {
    pub closed spec fn wf(self) -> bool {
        &&& self.keys@.len() == self.lists@.len()
        &&& distinct_keys(self.keys@)
        &&& forall|i: int| 0 <= i < self.lists@.len() ==> (#[trigger] self.lists@[i]).wf()
    }

    pub closed spec fn has_key(self, k: Seq<u8>) -> bool {
        exists|i: int| 0 <= i < self.keys@.len() && self.keys@[i]@ == k
    }

    pub closed spec fn index_of(self, k: Seq<u8>) -> int {
        choose|i: int| 0 <= i < self.keys@.len() && self.keys@[i]@ == k
    }

    proof fn lemma_index_unique(self, k: Seq<u8>, i: int)
        requires
            self.wf(),
            0 <= i < self.keys@.len(),
            self.keys@[i]@ == k,
        ensures
            self.has_key(k),
            self.index_of(k) == i,
    {
        assert(self.has_key(k));
        let i0 = self.index_of(k);
        assert(0 <= i0 < self.keys@.len() && self.keys@[i0]@ == k);
        if i0 != i {
            lemma_distinct_key_pair(self.keys@, i0, i);
        }
    }

    pub fn new() -> (r: AllowLists)
        ensures
            r.wf(),
            r@ == Map::<Seq<u8>, Set<Seq<u8>>>::empty(),
    {
        let r = AllowLists { keys: Vec::new(), lists: Vec::new() };
        proof {
            assert(r@ =~= Map::<Seq<u8>, Set<Seq<u8>>>::empty());
        }
        r
    }

    fn find(&self, k: &DelegateKey) -> (r: Option<usize>)
        requires
            self.wf(),
        ensures
            (match r {
                Some(i) => {
                    &&& i < self.lists@.len()
                    &&& self.keys@[i as int]@ == k@
                    &&& self@.dom().contains(k@)
                    &&& self.lists@[i as int]@ == self@[k@]
                },
                None => !self@.dom().contains(k@),
            }),
    {
        let mut i: usize = 0;
        while i < self.keys.len()
            invariant
                self.wf(),
                0 <= i <= self.keys@.len(),
                forall|j: int| 0 <= j < i ==> self.keys@[j]@ != k@,
            decreases self.keys@.len() - i,
        {
            if delegate_key_eq(&self.keys[i], k) {
                proof {
                    self.lemma_index_unique(k@, i as int);
                }
                return Some(i);
            }
            i += 1;
        }
        assert(!self.has_key(k@));
        None
    }

    pub fn contains_key(&self, k: &DelegateKey) -> (r: bool)
        requires
            self.wf(),
        ensures
            r == self@.dom().contains(k@),
    {
        match self.find(k) {
            Some(_) => true,
            None => false,
        }
    }

    /// The allow-list recorded for a delegate key, if any record exists.
    pub fn get_list(&self, k: &DelegateKey) -> (r: Option<&IdentitySet>)
        requires
            self.wf(),
        ensures
            (match r {
                Some(s) => self@.dom().contains(k@) && s.wf() && s@ == self@[k@],
                None => !self@.dom().contains(k@),
            }),
    {
        match self.find(k) {
            Some(i) => Some(&self.lists[i]),
            None => None,
        }
    }

    /// Creates or wholesale-replaces the allow-list recorded for a key.
    pub fn set_list(&mut self, k: DelegateKey, s: IdentitySet)
        requires
            old(self).wf(),
            s.wf(),
        ensures
            final(self).wf(),
            final(self)@ == old(self)@.insert(k@, s@),
    {
        let ghost sv = s@;
        match self.find(&k) {
            Some(i) => {
                self.lists.set(i, s);
                proof {
                    let ghost ii = i as int;
                    assert forall|k2: Seq<u8>| #[trigger] self.has_key(k2)
                        implies self.lists@[self.index_of(k2)]@ == old(self)@.insert(k@, sv)[k2] by {
                        let j = self.index_of(k2);
                        assert(0 <= j < self.keys@.len() && self.keys@[j]@ == k2);
                        old(self).lemma_index_unique(k2, j);
                        if k2 == k@ {
                            assert(j == ii);
                        } else {
                            assert(j != ii);
                            assert(self.lists@[j] == old(self).lists@[j]);
                        }
                    };
                    assert(final(self)@ =~= old(self)@.insert(k@, sv));
                }
            }
            None => {
                self.keys.push(k);
                self.lists.push(s);
                proof {
                    let n0 = old(self).keys@.len() as int;
                    assert forall|p: int, q: int| 0 <= p < q < self.keys@.len()
                        implies self.keys@[p]@ != self.keys@[q]@ by {
                        if q < n0 {
                            assert(old(self).keys@[p]@ != old(self).keys@[q]@);
                        } else {
                            assert(self.keys@[q]@ == k@);
                            assert(!old(self).has_key(k@));
                            assert(old(self).keys@[p]@ != k@);
                        }
                    };
                    assert forall|k2: Seq<u8>| #[trigger] self.has_key(k2)
                        implies old(self)@.insert(k@, sv).dom().contains(k2) by {
                        let j = choose|j: int| 0 <= j < self.keys@.len() && self.keys@[j]@ == k2;
                        if j < n0 {
                            assert(old(self).keys@[j]@ == k2);
                        } else {
                            assert(k2 == k@);
                        }
                    };
                    assert forall|k2: Seq<u8>| #[trigger] old(self)@.insert(k@, sv).dom().contains(k2)
                        implies self.has_key(k2) && self.lists@[self.index_of(k2)]@
                            == old(self)@.insert(k@, sv)[k2] by {
                        if k2 == k@ {
                            assert(self.keys@[n0]@ == k2);
                            self.lemma_index_unique(k2, n0);
                        } else {
                            let j = choose|j: int| 0 <= j < old(self).keys@.len()
                                && old(self).keys@[j]@ == k2;
                            assert(self.keys@[j]@ == k2);
                            self.lemma_index_unique(k2, j);
                            old(self).lemma_index_unique(k2, j);
                            assert(self.lists@[j] == old(self).lists@[j]);
                        }
                    };
                    assert(final(self)@ =~= old(self)@.insert(k@, sv));
                }
            }
        }
    }

    /// Deletes the allow-list recorded for a key; deleting an absent record
    /// changes nothing.
    pub fn remove_key(&mut self, k: &DelegateKey)
        requires
            old(self).wf(),
        ensures
            final(self).wf(),
            final(self)@ == old(self)@.remove(k@),
    {
        match self.find(k) {
            Some(i) => {
                let ghost ks0 = self.keys@;
                let ghost ls0 = self.lists@;
                let ghost ii = i as int;
                self.keys.swap_remove(i);
                self.lists.swap_remove(i);
                proof {
                    let n0 = ks0.len() as int;
                    assert(ks0[ii]@ == k@);
                    // entry j of the shortened store holds the old entry
                    // at position j, or at the old last position for j == ii
                    assert forall|j: int| 0 <= j < self.keys@.len()
                        implies #[trigger] self.keys@[j] == ks0[if j == ii { n0 - 1 } else { j }]
                            && self.lists@[j] == ls0[if j == ii { n0 - 1 } else { j }] by {
                    };
                    assert forall|p: int, q: int| 0 <= p < q < self.keys@.len()
                        implies self.keys@[p]@ != self.keys@[q]@ by {
                        let pv = if p == ii { n0 - 1 } else { p };
                        let qv = if q == ii { n0 - 1 } else { q };
                        assert(pv != qv);
                        lemma_distinct_key_pair(ks0, pv, qv);
                    };
                    assert forall|k2: Seq<u8>| #[trigger] self.has_key(k2)
                        implies old(self)@.remove(k@).dom().contains(k2)
                            && self.lists@[self.index_of(k2)]@ == old(self)@.remove(k@)[k2] by {
                        let j = self.index_of(k2);
                        assert(0 <= j < self.keys@.len() && self.keys@[j]@ == k2);
                        let jv = if j == ii { n0 - 1 } else { j };
                        assert(ks0[jv]@ == k2);
                        old(self).lemma_index_unique(k2, jv);
                        assert(jv != ii);
                        lemma_distinct_key_pair(ks0, jv, ii);
                        assert(k2 != k@);
                        assert(self.lists@[j] == ls0[jv]);
                    };
                    assert forall|k2: Seq<u8>| #[trigger] old(self)@.remove(k@).dom().contains(k2)
                        implies self.has_key(k2) by {
                        let j = choose|j: int| 0 <= j < ks0.len() && ks0[j]@ == k2;
                        assert(j != ii);
                        if j == n0 - 1 {
                            if ii < n0 - 1 {
                                assert(self.keys@[ii]@ == k2);
                            }
                        } else {
                            assert(self.keys@[j]@ == k2);
                        }
                    };
                    assert(final(self)@ =~= old(self)@.remove(k@));
                }
            }
            None => {
                proof {
                    assert(old(self)@.remove(k@) =~= old(self)@);
                }
            }
        }
    }
}

} // verus!
