use vstd::prelude::*;

use crate::block::StateDump;
use crate::graph::{lemma_idx, seq_has_id, seq_idx_of, Edge, Graph, Vertex};
use crate::ids::Id;

verus! {

/// Strict lexicographic order on edges: by source id, then by target id.
pub open spec fn spec_edge_lt(a: Edge, b: Edge) -> bool {
    a.0 < b.0 || (a.0 == b.0 && a.1 < b.1)
}

/// Membership of an edge list entry, phrased over the stored vertices: some
/// vertex among the first `t` has this source id and lists this target.
pub open spec fn edge_from_prefix(s: Seq<Vertex>, t: int, e: Edge) -> bool {
    exists|u: int| 0 <= u < t && (#[trigger] s[u]).id == e.0 && s[u].outgoing.set().contains(e.1)
}

impl Graph {
    /// Whether the directed edge `from -> to` is present.
    pub fn has_edge(&self, from: Id, to: Id) -> (r: bool)
        requires
            self.wf(),
        ensures
            r == (self@.dom().contains(from) && self@[from].outgoing.contains(to)),
    {
        match self.find(from) {
            Some(i) => {
                proof {
                    lemma_idx(self.vertices@, from);
                }
                self.vertices[i].outgoing.contains(to)
            },
            None => false,
        }
    }

    /// The ids of all live vertices, in ascending order.
    pub fn vertex_ids(&self) -> (r: Vec<Id>)
        requires
            self.wf(),
        ensures
            r@.len() == self.vertices@.len(),
            forall|k: int| 0 <= k < r@.len() ==> r@[k] == self.vertices@[k].id,
            forall|x: Id| #[trigger] r@.contains(x) == self@.dom().contains(x),
            forall|p: int, q: int| 0 <= p < q < r@.len() ==> r@[p] < r@[q],
    {
        let n = self.vertices.len();
        let mut r: Vec<Id> = Vec::new();
        let mut t: usize = 0;
        while t < n
            invariant
                n == self.vertices@.len(),
                0 <= t <= n,
                self.wf(),
                r@.len() == t,
                forall|k: int| 0 <= k < t ==> r@[k] == self.vertices@[k].id,
            decreases n - t,
        {
            r.push(self.vertices[t].id);
            t = t + 1;
        }
        proof {
            assert forall|x: Id| #[trigger] r@.contains(x) == self@.dom().contains(x) by {
                if r@.contains(x) {
                    let p = choose|p: int| 0 <= p < r@.len() && r@[p] == x;
                    assert(self.vertices@[p].id == x);
                    assert(seq_has_id(self.vertices@, x));
                }
                if self@.dom().contains(x) {
                    lemma_idx(self.vertices@, x);
                    let u = seq_idx_of(self.vertices@, x);
                    assert(r@[u] == x);
                }
            }
        }
        r
    }

    /// Snapshots of all live blocks, in ascending id order, for rendering
    /// and inspection.
    pub fn dumps(&self) -> (r: Vec<StateDump>)
        requires
            self.wf(),
        ensures
            r@.len() == self.vertices@.len(),
            forall|k: int|
                0 <= k < r@.len() ==> (#[trigger] r@[k]).id == self.vertices@[k].id
                    && r@[k].vertex_data == self.vertices@[k].data
                    && self@.dom().contains(r@[k].id) && self@[r@[k].id].data == r@[k].vertex_data,
    {
        let n = self.vertices.len();
        let mut r: Vec<StateDump> = Vec::new();
        let mut t: usize = 0;
        while t < n
            invariant
                n == self.vertices@.len(),
                0 <= t <= n,
                self.wf(),
                r@.len() == t,
                forall|k: int|
                    0 <= k < t ==> (#[trigger] r@[k]).id == self.vertices@[k].id
                        && r@[k].vertex_data == self.vertices@[k].data,
            decreases n - t,
        {
            r.push(StateDump::new(self.vertices[t].id, self.vertices[t].data));
            t = t + 1;
        }
        proof {
            assert forall|k: int|
                0 <= k < r@.len() implies (#[trigger] r@[k]).id == self.vertices@[k].id
                && r@[k].vertex_data == self.vertices@[k].data && self@.dom().contains(r@[k].id)
                && self@[r@[k].id].data == r@[k].vertex_data by {
                let id = self.vertices@[k].id;
                assert(seq_has_id(self.vertices@, id));
                lemma_idx(self.vertices@, id);
                assert(seq_idx_of(self.vertices@, id) == k);
            }
        }
        r
    }

    /// The ids a live vertex has incoming edges from, in ascending order.
    pub fn incoming_of(&self, id: Id) -> (r: Option<Vec<Id>>)
        requires
            self.wf(),
        ensures
            match r {
                Some(v) => self@.dom().contains(id) && (forall|x: Id| #[trigger]
                    v@.contains(x) == self@[id].incoming.contains(x)) && (forall|p: int, q: int|
                    0 <= p < q < v@.len() ==> v@[p] < v@[q]),
                None => !self@.dom().contains(id),
            },
    {
        match self.find(id) {
            Some(i) => {
                proof {
                    lemma_idx(self.vertices@, id);
                }
                let v = self.vertices[i].incoming.to_vec();
                proof {
                    assert forall|x: Id| #[trigger]
                        v@.contains(x) == self@[id].incoming.contains(x) by {
                        assert(self.vertices@[i as int].incoming.seq().contains(x)
                            == self.vertices@[i as int].incoming.set().contains(x));
                    }
                }
                Some(v)
            },
            None => None,
        }
    }

    /// The ids a live vertex has outgoing edges to, in ascending order.
    pub fn outgoing_of(&self, id: Id) -> (r: Option<Vec<Id>>)
        requires
            self.wf(),
        ensures
            match r {
                Some(v) => self@.dom().contains(id) && (forall|x: Id| #[trigger]
                    v@.contains(x) == self@[id].outgoing.contains(x)) && (forall|p: int, q: int|
                    0 <= p < q < v@.len() ==> v@[p] < v@[q]),
                None => !self@.dom().contains(id),
            },
    {
        match self.find(id) {
            Some(i) => {
                proof {
                    lemma_idx(self.vertices@, id);
                }
                let v = self.vertices[i].outgoing.to_vec();
                proof {
                    assert forall|x: Id| #[trigger]
                        v@.contains(x) == self@[id].outgoing.contains(x) by {
                        assert(self.vertices@[i as int].outgoing.seq().contains(x)
                            == self.vertices@[i as int].outgoing.set().contains(x));
                    }
                }
                Some(v)
            },
            None => None,
        }
    }

    /// All directed edges, in strict lexicographic order (by source id,
    /// then target id): a deterministic flattening of the adjacency sets.
    pub fn edges(&self) -> (r: Vec<Edge>)
        requires
            self.wf(),
        ensures
            forall|e: Edge| #[trigger]
                r@.contains(e) == (self@.dom().contains(e.0) && self@[e.0].outgoing.contains(e.1)),
            forall|p: int, q: int| 0 <= p < q < r@.len() ==> spec_edge_lt(r@[p], r@[q]),
    {
        let n = self.vertices.len();
        let mut r: Vec<Edge> = Vec::new();
        let mut t: usize = 0;
        while t < n
            invariant
                n == self.vertices@.len(),
                0 <= t <= n,
                self.wf(),
                forall|e: Edge| #[trigger] r@.contains(e) == edge_from_prefix(self.vertices@, t as int, e),
                forall|p: int, q: int| 0 <= p < q < r@.len() ==> spec_edge_lt(r@[p], r@[q]),
                forall|p: int|
                    0 <= p < r@.len() ==> exists|u: int|
                        0 <= u < t && (#[trigger] self.vertices@[u]).id == (#[trigger] r@[p]).0,
            decreases n - t,
        {
            let src = self.vertices[t].id;
            let m = self.vertices[t].outgoing.len();
            let mut j: usize = 0;
            while j < m
                invariant
                    n == self.vertices@.len(),
                    0 <= t < n,
                    src == self.vertices@[t as int].id,
                    m == self.vertices@[t as int].outgoing.seq().len(),
                    0 <= j <= m,
                    self.wf(),
                    forall|e: Edge| #[trigger]
                        r@.contains(e) == (edge_from_prefix(self.vertices@, t as int, e) || (e.0
                            == src && exists|jj: int|
                            0 <= jj < j && (#[trigger] self.vertices@[t as int].outgoing.seq()[jj])
                                == e.1)),
                    forall|p: int, q: int| 0 <= p < q < r@.len() ==> spec_edge_lt(r@[p], r@[q]),
                    forall|p: int|
                        0 <= p < r@.len() ==> (exists|u: int|
                            0 <= u < t && (#[trigger] self.vertices@[u]).id == (#[trigger] r@[p]).0)
                            || (r@[p].0 == src && exists|jj: int|
                            0 <= jj < j && (#[trigger] self.vertices@[t as int].outgoing.seq()[jj])
                                == r@[p].1),
                decreases m - j,
            {
                let dst = self.vertices[t].outgoing.index(j);
                let e = (src, dst);
                proof {
                    assert forall|p: int| 0 <= p < r@.len() implies spec_edge_lt(r@[p], e) by {
                        if exists|u: int|
                            0 <= u < t && (#[trigger] self.vertices@[u]).id == r@[p].0 {
                            let u = choose|u: int|
                                0 <= u < t && (#[trigger] self.vertices@[u]).id == r@[p].0;
                            assert(self.vertices@[u].id < self.vertices@[t as int].id);
                        } else {
                            let jj = choose|jj: int|
                                0 <= jj < j && (#[trigger] self.vertices@[t as int].outgoing.seq()[jj])
                                    == r@[p].1;
                            assert(self.vertices@[t as int].outgoing.seq()[jj]
                                < self.vertices@[t as int].outgoing.seq()[j as int]);
                        }
                    }
                }
                let ghost r0 = r@;
                r.push(e);
                proof {
                    assert(r@ == r0.push(e));
                    assert(self.vertices@[t as int].outgoing.set().contains(dst));
                    assert forall|e2: Edge| #[trigger]
                        r@.contains(e2) == (edge_from_prefix(self.vertices@, t as int, e2) || (e2.0
                            == src && exists|jj: int|
                            0 <= jj < j + 1 && (
                            #[trigger] self.vertices@[t as int].outgoing.seq()[jj]) == e2.1)) by {
                        if r@.contains(e2) {
                            let p = choose|p: int| 0 <= p < r@.len() && r@[p] == e2;
                            if p < r0.len() {
                                assert(r0[p] == e2);
                                assert(r0.contains(e2));
                            } else {
                                assert(e2 == e);
                                assert(self.vertices@[t as int].outgoing.seq()[j as int] == e2.1);
                            }
                        }
                        if edge_from_prefix(self.vertices@, t as int, e2) || (e2.0 == src
                            && exists|jj: int|
                            0 <= jj < j + 1 && (
                            #[trigger] self.vertices@[t as int].outgoing.seq()[jj]) == e2.1) {
                            if edge_from_prefix(self.vertices@, t as int, e2) {
                                assert(r0.contains(e2));
                                let p = choose|p: int| 0 <= p < r0.len() && r0[p] == e2;
                                assert(r@[p] == e2);
                                assert(r@.contains(e2));
                            } else {
                                let jj = choose|jj: int|
                                    0 <= jj < j + 1 && (
                                    #[trigger] self.vertices@[t as int].outgoing.seq()[jj]) == e2.1;
                                if jj < j {
                                    assert(r0.contains(e2));
                                    let p = choose|p: int| 0 <= p < r0.len() && r0[p] == e2;
                                    assert(r@[p] == e2);
                                    assert(r@.contains(e2));
                                } else {
                                    assert(e2 == e);
                                    assert(r@[r@.len() - 1] == e2);
                                    assert(r@.contains(e2));
                                }
                            }
                        }
                    }
                }
                j = j + 1;
            }
            proof {
                assert forall|e: Edge| #[trigger]
                    r@.contains(e) == edge_from_prefix(self.vertices@, t + 1 as int, e) by {
                    if r@.contains(e) {
                        if edge_from_prefix(self.vertices@, t as int, e) {
                            let u = choose|u: int|
                                0 <= u < t && (#[trigger] self.vertices@[u]).id == e.0
                                    && self.vertices@[u].outgoing.set().contains(e.1);
                            assert(edge_from_prefix(self.vertices@, t + 1 as int, e));
                        } else {
                            let jj = choose|jj: int|
                                0 <= jj < j && (#[trigger] self.vertices@[t as int].outgoing.seq()[jj])
                                    == e.1;
                            assert(self.vertices@[t as int].outgoing.seq().contains(e.1));
                            assert(self.vertices@[t as int].outgoing.set().contains(e.1));
                            assert(edge_from_prefix(self.vertices@, t + 1 as int, e));
                        }
                    }
                    if edge_from_prefix(self.vertices@, t + 1 as int, e) {
                        let u = choose|u: int|
                            0 <= u < t + 1 && (#[trigger] self.vertices@[u]).id == e.0
                                && self.vertices@[u].outgoing.set().contains(e.1);
                        if u < t {
                            assert(edge_from_prefix(self.vertices@, t as int, e));
                        } else {
                            assert(self.vertices@[t as int].outgoing.seq().contains(e.1));
                            let jj = choose|jj: int|
                                0 <= jj < m && self.vertices@[t as int].outgoing.seq()[jj] == e.1;
                            assert(0 <= jj < j && self.vertices@[t as int].outgoing.seq()[jj]
                                == e.1);
                        }
                    }
                }
                assert forall|p: int|
                    0 <= p < r@.len() implies exists|u: int|
                        0 <= u < t + 1 && (#[trigger] self.vertices@[u]).id == (#[trigger] r@[p]).0
                    by {
                    if !(exists|u: int|
                        0 <= u < t && (#[trigger] self.vertices@[u]).id == r@[p].0) {
                        assert(r@[p].0 == src);
                        assert(self.vertices@[t as int].id == r@[p].0);
                    }
                }
            }
            t = t + 1;
        }
        proof {
            assert forall|e: Edge| #[trigger]
                r@.contains(e) == (self@.dom().contains(e.0) && self@[e.0].outgoing.contains(e.1))
                by {
                if r@.contains(e) {
                    let u = choose|u: int|
                        0 <= u < n && (#[trigger] self.vertices@[u]).id == e.0
                            && self.vertices@[u].outgoing.set().contains(e.1);
                    assert(seq_has_id(self.vertices@, e.0));
                    lemma_idx(self.vertices@, e.0);
                    assert(seq_idx_of(self.vertices@, e.0) == u);
                }
                if self@.dom().contains(e.0) && self@[e.0].outgoing.contains(e.1) {
                    lemma_idx(self.vertices@, e.0);
                    let u = seq_idx_of(self.vertices@, e.0);
                    assert(0 <= u < n && self.vertices@[u].id == e.0
                        && self.vertices@[u].outgoing.set().contains(e.1));
                    assert(edge_from_prefix(self.vertices@, n as int, e));
                }
            }
        }
        r
    }
}

} // verus!
