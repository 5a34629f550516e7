use vstd::prelude::*;

verus! {

/// Identity of a vertex (block).  Ids are issued monotonically and never
/// reused; everything outside the graph refers to vertices by id only.
pub type Id = i64;

/// Monotonic id source.  `last` is the most recently issued id (0 before
/// any id is issued); issued ids start at 1 and strictly increase.
#[derive(Clone, Copy, PartialEq, Eq, Structural, Debug)]
pub struct IdGen {
    pub last: Id,
}

impl IdGen {
    pub fn new() -> (r: Self)
        ensures
            r.last == 0,
    {
        IdGen { last: 0 }
    }

    /// Issue the next id, or nothing once the id space is exhausted.
    pub fn next(&mut self) -> (r: Option<Id>)
        ensures
            old(self).last < i64::MAX ==> r == Some((old(self).last + 1) as Id)
                && final(self).last == old(self).last + 1,
            old(self).last == i64::MAX ==> r is None && *final(self) == *old(self),
    {
        if self.last < i64::MAX {
            self.last = self.last + 1;
            Some(self.last)
        } else {
            None
        }
    }

    /// Raise the watermark so that `id` is never issued again.
    pub fn observe(&mut self, id: Id)
        ensures
            final(self).last == if id > old(self).last {
                id
            } else {
                old(self).last
            },
    {
        if id > self.last {
            self.last = id;
        }
    }
}

impl Default for IdGen {
    fn default() -> (r: Self)
        ensures
            r.last == 0,
    {
        IdGen { last: 0 }
    }
}

} // verus!
