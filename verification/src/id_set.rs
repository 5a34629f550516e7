use vstd::prelude::*;

use crate::ids::Id;

verus! {

/// A set of vertex ids, stored as a strictly increasing vector.
///
/// The sorted representation keeps membership unique and gives every
/// iteration over the set a deterministic order (ascending ids).
#[derive(Debug)]
pub struct IdSet {
    pub items: Vec<Id>,
}

impl IdSet {
    /// The ids in storage order (strictly increasing when well formed).
    pub open spec fn seq(self) -> Seq<Id> {
        self.items@
    }

    /// The mathematical set of ids held.
    pub open spec fn set(self) -> Set<Id> {
        self.items@.to_set()
    }

    /// Representation invariant: strictly increasing storage order.
    pub open spec fn wf(self) -> bool {
        forall|i: int, j: int|
            0 <= i < j < self.items@.len() ==> self.items@[i] < self.items@[j]
    }

    pub fn new() -> (r: Self)
        ensures
            r.wf(),
            r.set() == Set::<Id>::empty(),
            r.seq() == Seq::<Id>::empty(),
    {
        let r = IdSet { items: Vec::new() };
        proof {
            assert(r.set() =~= Set::<Id>::empty());
        }
        r
    }

    pub fn len(&self) -> (r: usize)
        requires
            self.wf(),
        ensures
            r == self.seq().len(),
            r == self.set().len(),
    {
        proof {
            self.lemma_set_len();
        }
        self.items.len()
    }

    pub fn index(&self, i: usize) -> (r: Id)
        requires
            i < self.seq().len(),
        ensures
            r == self.seq()[i as int],
            self.set().contains(r),
    {
        let r = self.items[i];
        proof {
            assert(self.items@.contains(r));
        }
        r
    }

    pub fn contains(&self, x: Id) -> (r: bool)
        requires
            self.wf(),
        ensures
            r == self.set().contains(x),
    {
        let n = self.items.len();
        let mut i: usize = 0;
        while i < n
            invariant
                n == self.items@.len(),
                0 <= i <= n,
                forall|k: int| 0 <= k < i ==> self.items@[k] != x,
            decreases n - i,
        {
            if self.items[i] == x {
                proof {
                    assert(self.items@.contains(x));
                }
                return true;
            }
            i = i + 1;
        }
        proof {
            assert(!self.items@.contains(x));
        }
        false
    }

    /// Insert `x`; a no-op when `x` is already present.
    pub fn insert(&mut self, x: Id)
        requires
            old(self).wf(),
        ensures
            final(self).wf(),
            final(self).set() == old(self).set().insert(x),
    {
        let n = self.items.len();
        let mut i: usize = 0;
        while i < n && self.items[i] < x
            invariant
                n == self.items@.len(),
                0 <= i <= n,
                forall|k: int| 0 <= k < i ==> self.items@[k] < x,
                self.wf(),
                self == old(self),
            decreases n - i,
        {
            i = i + 1;
        }
        if i < n && self.items[i] == x {
            proof {
                assert(self.items@.contains(x));
                assert(self.set() =~= old(self).set().insert(x));
            }
            return ;
        }
        self.items.insert(i, x);
        proof {
            assert(i == old(self).items@.len() || old(self).items@[i as int] > x);
            let s_old = old(self).items@;
            let s_new = self.items@;
            assert forall|y: Id| s_new.contains(y) implies (s_old.contains(y) || y == x) by {
                let k = choose|k: int| 0 <= k < s_new.len() && s_new[k] == y;
                if k < i {
                    assert(s_old[k] == y);
                } else if k > i {
                    assert(s_old[k - 1] == y);
                }
            }
            assert forall|y: Id| s_old.contains(y) implies s_new.contains(y) by {
                let k = choose|k: int| 0 <= k < s_old.len() && s_old[k] == y;
                if k < i {
                    assert(s_new[k] == y);
                } else {
                    assert(s_new[k + 1] == y);
                }
            }
            assert(s_new[i as int] == x);
            assert(s_new.contains(x));
            assert(self.set() =~= old(self).set().insert(x));
            assert forall|p: int, q: int| 0 <= p < q < s_new.len() implies s_new[p] < s_new[q] by {
                assert(p < i ==> s_new[p] == s_old[p]);
                assert(p > i ==> s_new[p] == s_old[p - 1]);
                assert(q < i ==> s_new[q] == s_old[q]);
                assert(q > i ==> s_new[q] == s_old[q - 1]);
                assert(p == i ==> s_new[p] == x);
                assert(q == i ==> s_new[q] == x);
                if q > i && p <= i {
                    assert(s_old[q - 1] >= s_old[i as int] || q - 1 == i);
                }
            }
        }
    }

    /// Remove `x`; a no-op when `x` is absent.
    pub fn remove(&mut self, x: Id)
        requires
            old(self).wf(),
        ensures
            final(self).wf(),
            final(self).set() == old(self).set().remove(x),
    {
        let n = self.items.len();
        let mut i: usize = 0;
        while i < n
            invariant
                n == self.items@.len(),
                0 <= i <= n,
                forall|k: int| 0 <= k < i ==> self.items@[k] != x,
                self.wf(),
                self == old(self),
            decreases n - i,
        {
            if self.items[i] == x {
                self.items.remove(i);
                proof {
                    let s_old = old(self).items@;
                    let s_new = self.items@;
                    assert forall|y: Id| s_new.contains(y) implies (s_old.contains(y) && y != x)
                        by {
                        let k = choose|k: int| 0 <= k < s_new.len() && s_new[k] == y;
                        if k < i {
                            assert(s_old[k] == y);
                            assert(y != x);
                        } else {
                            assert(s_old[k + 1] == y);
                            assert(y != x);
                        }
                    }
                    assert forall|y: Id| s_old.contains(y) && y != x implies s_new.contains(y) by {
                        let k = choose|k: int| 0 <= k < s_old.len() && s_old[k] == y;
                        if k < i {
                            assert(s_new[k] == y);
                        } else if k > i {
                            assert(s_new[k - 1] == y);
                        }
                    }
                    assert(self.set() =~= old(self).set().remove(x));
                }
                return ;
            }
            i = i + 1;
        }
        proof {
            assert(!self.items@.contains(x));
            assert(self.set() =~= old(self).set().remove(x));
        }
    }

    /// The ids as a fresh vector, in ascending order.
    pub fn to_vec(&self) -> (r: Vec<Id>)
        ensures
            r@ == self.seq(),
    {
        let mut r: Vec<Id> = Vec::new();
        let n = self.items.len();
        let mut i: usize = 0;
        while i < n
            invariant
                n == self.items@.len(),
                0 <= i <= n,
                r@ == self.items@.subrange(0, i as int),
            decreases n - i,
        {
            r.push(self.items[i]);
            proof {
                assert(r@ =~= self.items@.subrange(0, i + 1 as int));
            }
            i = i + 1;
        }
        proof {
            assert(r@ =~= self.items@);
        }
        r
    }

    /// A well-formed id set has as many stored ids as set elements.
    pub proof fn lemma_set_len(self)
        requires
            self.wf(),
        ensures
            self.set().len() == self.seq().len(),
            self.set().finite(),
    {
        assert(forall|i: int, j: int|
            0 <= i < self.items@.len() && 0 <= j < self.items@.len() && i != j
                ==> self.items@[i] != self.items@[j]);
        self.items@.unique_seq_to_set();
    }
}

} // verus!
