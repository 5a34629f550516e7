use vstd::prelude::*;

use crate::block::VertexData;
use crate::id_set::IdSet;
use crate::ids::{Id, IdGen};

verus! {

/// A directed edge, as the ordered pair (from, to).
pub type Edge = (Id, Id);

/// Error returned when an operation names a vertex id that is not (or is no
/// longer) present in the graph.  Ids may legitimately go stale between the
/// moment an event was generated and the moment it is handled, so this is a
/// recoverable condition, never a fault.
#[derive(Clone, Copy, PartialEq, Eq, Structural, Debug)]
pub enum GraphError {
    NotFound,
}

/// One vertex (block): its identity, payload, and adjacency in both
/// directions.
#[derive(Debug)]
pub struct Vertex {
    pub id: Id,
    pub data: VertexData,
    pub incoming: IdSet,
    pub outgoing: IdSet,
}

/// Mathematical model of one vertex: payload plus adjacency id sets.
#[verifier::ext_equal]
pub ghost struct VertexView {
    pub data: VertexData,
    pub incoming: Set<Id>,
    pub outgoing: Set<Id>,
}

/// Mathematical model of the whole graph: a map from live ids to vertices.
pub type GraphView = Map<Id, VertexView>;

impl Vertex {
    pub open spec fn view_spec(self) -> VertexView {
        VertexView { data: self.data, incoming: self.incoming.set(), outgoing: self.outgoing.set() }
    }

    /// Representation invariant of one vertex.
    pub open spec fn wf(self) -> bool {
        self.incoming.wf() && self.outgoing.wf() && self.data.center.in_range()
    }

    pub fn new(id: Id, data: VertexData) -> (r: Self)
        ensures
            r.id == id,
            r.data == data,
            r.wf() == data.center.in_range(),
            r.view_spec().incoming == Set::<Id>::empty(),
            r.view_spec().outgoing == Set::<Id>::empty(),
    {
        Vertex { id, data, incoming: IdSet::new(), outgoing: IdSet::new() }
    }

    pub fn id(&self) -> (r: Id)
        ensures
            r == self.id,
    {
        self.id
    }

    pub fn data(&self) -> (r: &VertexData)
        ensures
            r == self.data,
    {
        &self.data
    }
}

/// The model of a vertex that was just created: given payload, no edges.
pub open spec fn empty_vertex_view(data: VertexData) -> VertexView {
    VertexView { data, incoming: Set::empty(), outgoing: Set::empty() }
}

/// Vertices are stored in strictly increasing id order.
pub open spec fn seq_sorted(s: Seq<Vertex>) -> bool {
    forall|i: int, j: int| 0 <= i < j < s.len() ==> s[i].id < s[j].id
}

pub open spec fn seq_has_id(s: Seq<Vertex>, id: Id) -> bool {
    exists|k: int| 0 <= k < s.len() && s[k].id == id
}

pub open spec fn seq_idx_of(s: Seq<Vertex>, id: Id) -> int {
    choose|k: int| 0 <= k < s.len() && s[k].id == id
}

/// The graph model induced by a stored vertex sequence.
pub open spec fn graph_view_of(s: Seq<Vertex>) -> GraphView {
    Map::new(|id: Id| seq_has_id(s, id), |id: Id| s[seq_idx_of(s, id)].view_spec())
}

/// Adjacency integrity of a graph model: adjacency sets only name live
/// vertices, and the two directions mirror each other.
pub open spec fn view_wf(g: GraphView) -> bool {
    (forall|a: Id, b: Id|
        g.dom().contains(a) && #[trigger] g[a].outgoing.contains(b) ==> g.dom().contains(b)
            && g[b].incoming.contains(a)) && (forall|a: Id, b: Id|
        g.dom().contains(a) && #[trigger] g[a].incoming.contains(b) ==> g.dom().contains(b)
            && g[b].outgoing.contains(a))
}

/// Graph integrity: in a well-formed graph, every id in any adjacency set
/// is a live vertex, and adjacency is symmetric in its two directions.
/// Every operation requires and re-establishes well-formedness, so this
/// holds after any sequence of graph calls.
pub proof fn lemma_graph_integrity(g: Graph)
    requires
        g.wf(),
    ensures
        forall|a: Id, b: Id|
            g@.dom().contains(a) && #[trigger] g@[a].outgoing.contains(b) ==> g@.dom().contains(b)
                && g@[b].incoming.contains(a),
        forall|a: Id, b: Id|
            g@.dom().contains(a) && #[trigger] g@[a].incoming.contains(b) ==> g@.dom().contains(b)
                && g@[b].outgoing.contains(a),
{
}

/// Effect of `add_edge` on the graph model: `to` joins `from`'s outgoing
/// set and `from` joins `to`'s incoming set; everything else is unchanged.
pub open spec fn spec_add_edge(g: GraphView, from: Id, to: Id) -> GraphView {
    let g1 = g.insert(
        from,
        (VertexView { outgoing: g[from].outgoing.insert(to), ..g[from] }),
    );
    g1.insert(to, (VertexView { incoming: g1[to].incoming.insert(from), ..g1[to] }))
}

/// Effect of `remove_vertex` on the graph model: the vertex disappears and
/// every adjacency set loses any reference to it.
pub open spec fn spec_remove_vertex(g: GraphView, v: Id) -> GraphView {
    Map::new(
        |k: Id| g.dom().contains(k) && k != v,
        |k: Id|
            (VertexView {
                data: g[k].data,
                incoming: g[k].incoming.remove(v),
                outgoing: g[k].outgoing.remove(v),
            }),
    )
}

/// Adding an edge between live vertices preserves adjacency integrity and
/// does not change which vertices are live.
pub proof fn lemma_add_edge_wf(g: GraphView, from: Id, to: Id)
    requires
        view_wf(g),
        g.dom().contains(from),
        g.dom().contains(to),
    ensures
        view_wf(spec_add_edge(g, from, to)),
        spec_add_edge(g, from, to).dom() == g.dom(),
{
    let g2 = spec_add_edge(g, from, to);
    assert(g2.dom() =~= g.dom());
    assert forall|a: Id, b: Id|
        g2.dom().contains(a) && #[trigger] g2[a].outgoing.contains(b) implies g2.dom().contains(b)
        && g2[b].incoming.contains(a) by {
        if a == from && b == to {
        } else {
            assert(g[a].outgoing.contains(b));
        }
    }
    assert forall|a: Id, b: Id|
        g2.dom().contains(a) && #[trigger] g2[a].incoming.contains(b) implies g2.dom().contains(b)
        && g2[b].outgoing.contains(a) by {
        if a == to && b == from {
        } else {
            assert(g[a].incoming.contains(b));
        }
    }
}

/// Adding the same edge twice yields the same graph as adding it once.
pub proof fn lemma_add_edge_idempotent(g: GraphView, from: Id, to: Id)
    requires
        g.dom().contains(from),
        g.dom().contains(to),
    ensures
        spec_add_edge(spec_add_edge(g, from, to), from, to) == spec_add_edge(g, from, to),
{
    assert(spec_add_edge(spec_add_edge(g, from, to), from, to) =~~= spec_add_edge(g, from, to));
}

/// After a vertex is removed, no adjacency set anywhere in the graph still
/// references it, and adjacency integrity is preserved.
pub proof fn lemma_remove_vertex_wf(g: GraphView, v: Id)
    requires
        view_wf(g),
    ensures
        view_wf(spec_remove_vertex(g, v)),
        !spec_remove_vertex(g, v).dom().contains(v),
        forall|u: Id| #[trigger]
            spec_remove_vertex(g, v).dom().contains(u) ==> !spec_remove_vertex(
                g,
                v,
            )[u].incoming.contains(v) && !spec_remove_vertex(g, v)[u].outgoing.contains(v),
{
    let g2 = spec_remove_vertex(g, v);
    assert forall|a: Id, b: Id|
        g2.dom().contains(a) && #[trigger] g2[a].outgoing.contains(b) implies g2.dom().contains(b)
        && g2[b].incoming.contains(a) by {
        assert(g[a].outgoing.contains(b));
        assert(b != v);
    }
    assert forall|a: Id, b: Id|
        g2.dom().contains(a) && #[trigger] g2[a].incoming.contains(b) implies g2.dom().contains(b)
        && g2[b].outgoing.contains(a) by {
        assert(g[a].incoming.contains(b));
        assert(b != v);
    }
}

/// In a sorted vertex sequence, each id occurs at exactly one index.
pub proof fn lemma_idx(s: Seq<Vertex>, id: Id)
    requires
        seq_sorted(s),
        seq_has_id(s, id),
    ensures
        0 <= seq_idx_of(s, id) < s.len(),
        s[seq_idx_of(s, id)].id == id,
        forall|k: int| 0 <= k < s.len() && s[k].id == id ==> k == seq_idx_of(s, id),
{
    let k0 = seq_idx_of(s, id);
    assert(0 <= k0 < s.len() && s[k0].id == id);
    assert forall|k: int| 0 <= k < s.len() && s[k].id == id implies k == k0 by {
        if k < k0 {
            assert(s[k].id < s[k0].id);
        } else if k > k0 {
            assert(s[k0].id < s[k].id);
        }
    }
}

/// Two sequences with identical ids position by position induce models with
/// the same domain, and look ids up at the same index.
pub proof fn lemma_same_ids(s1: Seq<Vertex>, s2: Seq<Vertex>)
    requires
        seq_sorted(s1),
        s2.len() == s1.len(),
        forall|k: int| 0 <= k < s1.len() ==> s2[k].id == s1[k].id,
    ensures
        seq_sorted(s2),
        forall|id: Id| #[trigger] seq_has_id(s2, id) == seq_has_id(s1, id),
        forall|id: Id| #[trigger]
            seq_has_id(s1, id) ==> seq_idx_of(s2, id) == seq_idx_of(s1, id) && 0 <= seq_idx_of(
                s1,
                id,
            ) < s1.len() && s1[seq_idx_of(s1, id)].id == id,
{
    assert forall|id: Id| #[trigger] seq_has_id(s2, id) == seq_has_id(s1, id) by {
        if seq_has_id(s1, id) {
            let k = seq_idx_of(s1, id);
            assert(0 <= k < s1.len() && s1[k].id == id);
            assert(s2[k].id == id);
            assert(seq_has_id(s2, id));
        }
        if seq_has_id(s2, id) {
            let k = seq_idx_of(s2, id);
            assert(0 <= k < s2.len() && s2[k].id == id);
            assert(s1[k].id == id);
            assert(seq_has_id(s1, id));
        }
    }
    assert forall|id: Id| #[trigger] seq_has_id(s1, id) implies seq_idx_of(s2, id) == seq_idx_of(
        s1,
        id,
    ) && 0 <= seq_idx_of(s1, id) < s1.len() && s1[seq_idx_of(s1, id)].id == id by {
        lemma_idx(s1, id);
        lemma_idx(s2, id);
        let k1 = seq_idx_of(s1, id);
        assert(s2[k1].id == id);
    }
}

/// Appending a vertex with a fresh, larger id extends the model by that
/// vertex.
pub proof fn lemma_view_push(s: Seq<Vertex>, v: Vertex)
    requires
        seq_sorted(s),
        forall|k: int| 0 <= k < s.len() ==> s[k].id < v.id,
    ensures
        seq_sorted(s.push(v)),
        !seq_has_id(s, v.id),
        graph_view_of(s.push(v)) =~= graph_view_of(s).insert(v.id, v.view_spec()),
{
    let s2 = s.push(v);
    assert forall|id: Id| #[trigger] seq_has_id(s2, id) == (seq_has_id(s, id) || id == v.id) by {
        if seq_has_id(s, id) {
            let k = seq_idx_of(s, id);
            assert(0 <= k < s.len() && s[k].id == id);
            assert(s2[k].id == id);
            assert(seq_has_id(s2, id));
        }
        if id == v.id {
            assert(s2[s.len() as int].id == id);
            assert(seq_has_id(s2, id));
        }
        if seq_has_id(s2, id) {
            let k = seq_idx_of(s2, id);
            assert(0 <= k < s2.len() && s2[k].id == id);
            if k < s.len() {
                assert(s[k].id == id);
            }
        }
    }
    assert forall|id: Id| seq_has_id(s2, id) implies s2[seq_idx_of(s2, id)].view_spec()
        == graph_view_of(s).insert(v.id, v.view_spec())[id] by {
        lemma_idx(s2, id);
        let k = seq_idx_of(s2, id);
        if id == v.id {
            assert(s2[s.len() as int].id == id);
            assert(k == s.len());
        } else {
            assert(seq_has_id(s, id));
            lemma_idx(s, id);
            let k1 = seq_idx_of(s, id);
            assert(s2[k1].id == id);
            assert(k == k1);
        }
    }
}

/// Inserting a vertex at its sorted position extends the model by exactly
/// that vertex.
pub proof fn lemma_view_insert(s: Seq<Vertex>, k: int, v: Vertex)
    requires
        seq_sorted(s),
        0 <= k <= s.len(),
        forall|j: int| 0 <= j < k ==> s[j].id < v.id,
        forall|j: int| k <= j < s.len() ==> v.id < s[j].id,
    ensures
        seq_sorted(s.insert(k, v)),
        !seq_has_id(s, v.id),
        graph_view_of(s.insert(k, v)) =~= graph_view_of(s).insert(v.id, v.view_spec()),
{
    let s2 = s.insert(k, v);
    assert(s2.len() == s.len() + 1);
    assert forall|j: int| 0 <= j < s2.len() implies s2[j] == (if j < k {
        s[j]
    } else if j == k {
        v
    } else {
        s[j - 1]
    }) by {}
    assert forall|p: int, q: int| 0 <= p < q < s2.len() implies s2[p].id < s2[q].id by {}
    assert forall|id: Id| #[trigger] seq_has_id(s2, id) == (seq_has_id(s, id) || id == v.id) by {
        if seq_has_id(s, id) {
            let j = seq_idx_of(s, id);
            assert(0 <= j < s.len() && s[j].id == id);
            if j < k {
                assert(s2[j].id == id);
            } else {
                assert(s2[j + 1].id == id);
            }
            assert(seq_has_id(s2, id));
        }
        if id == v.id {
            assert(s2[k].id == id);
            assert(seq_has_id(s2, id));
        }
        if seq_has_id(s2, id) {
            let j = choose|j: int| 0 <= j < s2.len() && s2[j].id == id;
            if j < k {
                assert(s[j].id == id);
            } else if j > k {
                assert(s[j - 1].id == id);
            }
        }
    }
    assert forall|id: Id| seq_has_id(s2, id) implies s2[seq_idx_of(s2, id)].view_spec()
        == graph_view_of(s).insert(v.id, v.view_spec())[id] by {
        lemma_idx(s2, id);
        let j2 = seq_idx_of(s2, id);
        if id == v.id {
            assert(s2[k].id == id);
            assert(j2 == k);
        } else {
            assert(seq_has_id(s, id));
            lemma_idx(s, id);
            let j1 = seq_idx_of(s, id);
            if j1 < k {
                assert(s2[j1].id == id);
                assert(j2 == j1);
            } else {
                assert(s2[j1 + 1].id == id);
                assert(j2 == j1 + 1);
            }
        }
    }
}

/// Replacing the vertex at one index by a vertex with the same id updates
/// the model at exactly that id.
pub proof fn lemma_view_update(s: Seq<Vertex>, k: int, v: Vertex)
    requires
        seq_sorted(s),
        0 <= k < s.len(),
        v.id == s[k].id,
    ensures
        seq_sorted(s.update(k, v)),
        seq_has_id(s, v.id),
        graph_view_of(s.update(k, v)) =~= graph_view_of(s).insert(v.id, v.view_spec()),
{
    let s2 = s.update(k, v);
    assert(s2[k].id == v.id);
    assert(seq_has_id(s2, v.id));
    assert(s[k].id == v.id);
    assert(seq_has_id(s, v.id));
    lemma_same_ids(s, s2);
    assert forall|id: Id| seq_has_id(s2, id) implies s2[seq_idx_of(s2, id)].view_spec()
        == graph_view_of(s).insert(v.id, v.view_spec())[id] by {
        lemma_idx(s, id);
        lemma_idx(s2, id);
        let k1 = seq_idx_of(s, id);
        if id == v.id {
            assert(k1 == k);
        }
    }
}

/// Removing the vertex at one index removes exactly its id from the model.
pub proof fn lemma_view_remove(s: Seq<Vertex>, k: int)
    requires
        seq_sorted(s),
        0 <= k < s.len(),
    ensures
        seq_sorted(s.remove(k)),
        graph_view_of(s.remove(k)) =~= graph_view_of(s).remove(s[k].id),
{
    let s2 = s.remove(k);
    assert forall|id: Id| #[trigger] seq_has_id(s2, id) == (seq_has_id(s, id) && id != s[k].id)
        by {
        if seq_has_id(s2, id) {
            let j = choose|j: int| 0 <= j < s2.len() && s2[j].id == id;
            if j < k {
                assert(s[j].id == id);
            } else {
                assert(s[j + 1].id == id);
            }
            assert(seq_has_id(s, id));
            if id == s[k].id {
                lemma_idx(s, id);
                assert(false);
            }
        }
        if seq_has_id(s, id) && id != s[k].id {
            let j = seq_idx_of(s, id);
            assert(0 <= j < s.len() && s[j].id == id);
            assert(j != k);
            if j < k {
                assert(s2[j].id == id);
            } else {
                assert(s2[j - 1].id == id);
            }
            assert(seq_has_id(s2, id));
        }
    }
    assert forall|p: int, q: int| 0 <= p < q < s2.len() implies s2[p].id < s2[q].id by {
        assert(p < k ==> s2[p] == s[p]);
        assert(p >= k ==> s2[p] == s[p + 1]);
        assert(q < k ==> s2[q] == s[q]);
        assert(q >= k ==> s2[q] == s[q + 1]);
    }
    assert forall|id: Id| seq_has_id(s2, id) implies s2[seq_idx_of(s2, id)].view_spec()
        == graph_view_of(s).remove(s[k].id)[id] by {
        assert(seq_has_id(s, id) && id != s[k].id);
        lemma_idx(s, id);
        lemma_idx(s2, id);
        let j2 = seq_idx_of(s2, id);
        let j1 = seq_idx_of(s, id);
        if j2 < k {
            assert(s2[j2] == s[j2]);
            assert(j1 == j2);
        } else {
            assert(s2[j2] == s[j2 + 1]);
            assert(j1 == j2 + 1);
        }
    }
}

/// The directed graph of blocks.  Vertices are held in ascending id order;
/// ids are issued by the owned generator and never reused.
#[derive(Debug)]
pub struct Graph {
    pub id_gen: IdGen,
    pub vertices: Vec<Vertex>,
}

impl View for Graph {
    type V = GraphView;

    open spec fn view(&self) -> GraphView {
        graph_view_of(self.vertices@)
    }
}

impl Default for Graph {
    fn default() -> (r: Self)
        ensures
            r.wf(),
            r@ == GraphView::empty(),
            r.id_gen.last == 0,
    {
        Graph::new()
    }
}

impl Graph {
    /// Representation invariant: sorted storage, well-formed adjacency
    /// vectors, ids within the generator's watermark, centers in range.
    pub open spec fn repr_wf(self) -> bool {
        self.id_gen.last >= 0 && seq_sorted(self.vertices@) && (forall|k: int|
            0 <= k < self.vertices@.len() ==> (#[trigger] self.vertices@[k]).wf()) && (forall|
            k: int,
        |
            0 <= k < self.vertices@.len() ==> 1 <= (#[trigger] self.vertices@[k]).id
                <= self.id_gen.last)
    }

    /// Full invariant: representation plus adjacency integrity of the model.
    pub open spec fn wf(self) -> bool {
        self.repr_wf() && view_wf(self@)
    }

    pub fn new() -> (r: Self)
        ensures
            r.wf(),
            r@ == GraphView::empty(),
            r.id_gen.last == 0,
    {
        let r = Graph { id_gen: IdGen::new(), vertices: Vec::new() };
        proof {
            assert(r@ =~= GraphView::empty());
        }
        r
    }

    /// Index of the vertex with the given id, if present.
    pub fn find(&self, id: Id) -> (r: Option<usize>)
        requires
            seq_sorted(self.vertices@),
        ensures
            match r {
                Some(k) => seq_has_id(self.vertices@, id) && k == seq_idx_of(self.vertices@, id)
                    && k < self.vertices@.len() && self.vertices@[k as int].id == id,
                None => !seq_has_id(self.vertices@, id),
            },
    {
        let n = self.vertices.len();
        let mut i: usize = 0;
        while i < n
            invariant
                n == self.vertices@.len(),
                0 <= i <= n,
                forall|k: int| 0 <= k < i ==> self.vertices@[k].id != id,
                seq_sorted(self.vertices@),
            decreases n - i,
        {
            if self.vertices[i].id == id {
                proof {
                    assert(seq_has_id(self.vertices@, id));
                    lemma_idx(self.vertices@, id);
                }
                return Some(i);
            }
            i = i + 1;
        }
        proof {
            if seq_has_id(self.vertices@, id) {
                let k = seq_idx_of(self.vertices@, id);
                assert(0 <= k < n && self.vertices@[k].id == id);
            }
        }
        None
    }

    /// Whether a vertex with this id is live.
    pub fn contains(&self, id: Id) -> (r: bool)
        requires
            seq_sorted(self.vertices@),
        ensures
            r == self@.dom().contains(id),
    {
        self.find(id).is_some()
    }

    /// Allocate a fresh id and insert a vertex with the given payload and no
    /// edges.  Returns nothing only once the id space is exhausted.
    pub fn new_vertex(&mut self, data: VertexData) -> (r: Option<Id>)
        requires
            old(self).wf(),
            data.center.in_range(),
        ensures
            final(self).wf(),
            old(self).id_gen.last < i64::MAX ==> r == Some((old(self).id_gen.last + 1) as Id)
                && !old(self)@.dom().contains((old(self).id_gen.last + 1) as Id) && final(self)@
                == old(self)@.insert(
                (old(self).id_gen.last + 1) as Id,
                empty_vertex_view(data),
            ) && final(self).id_gen.last == old(self).id_gen.last + 1,
            old(self).id_gen.last == i64::MAX ==> r is None && *final(self) == *old(self),
    {
        let r = self.id_gen.next();
        match r {
            Some(id) => {
                let v = Vertex::new(id, data);
                proof {
                    lemma_view_push(self.vertices@, v);
                }
                self.vertices.push(v);
                proof {
                    let g2 = self@;
                    let g1 = old(self)@;
                    assert(g2 =~= g1.insert(id, empty_vertex_view(data)));
                    assert(seq_sorted(self.vertices@));
                    assert forall|k: int| 0 <= k < self.vertices@.len() implies (
                    #[trigger] self.vertices@[k]).wf() && 1 <= self.vertices@[k].id
                        <= self.id_gen.last by {
                        if k < old(self).vertices@.len() {
                            assert(self.vertices@[k] == old(self).vertices@[k]);
                        } else {
                            assert(self.vertices@[k] == v);
                        }
                    }
                    assert(self.repr_wf());
                    assert forall|a: Id, b: Id|
                        g2.dom().contains(a) && #[trigger] g2[a].outgoing.contains(b) implies g2
                        .dom().contains(b) && g2[b].incoming.contains(a) by {
                        assert(a != id);
                        assert(g1[a].outgoing.contains(b));
                        assert(b != id);
                    }
                    assert forall|a: Id, b: Id|
                        g2.dom().contains(a) && #[trigger] g2[a].incoming.contains(b) implies g2
                        .dom().contains(b) && g2[b].outgoing.contains(a) by {
                        assert(a != id);
                        assert(g1[a].incoming.contains(b));
                        assert(b != id);
                    }
                }
                Some(id)
            },
            None => None,
        }
    }

    /// Insert a vertex under a caller-chosen id with no edges.  Reports
    /// whether the id was free; nothing changes when it was taken.  The
    /// generator's watermark is raised past the id so it is never issued
    /// again.
    pub fn occupy(&mut self, id: Id, data: VertexData) -> (r: bool)
        requires
            old(self).wf(),
            data.center.in_range(),
            id >= 1,
        ensures
            final(self).wf(),
            r == !old(self)@.dom().contains(id),
            r ==> final(self)@ == old(self)@.insert(id, empty_vertex_view(data))
                && final(self).id_gen.last == (if id > old(self).id_gen.last {
                id
            } else {
                old(self).id_gen.last
            }),
            !r ==> *final(self) == *old(self),
    {
        let n = self.vertices.len();
        let mut i: usize = 0;
        while i < n && self.vertices[i].id < id
            invariant
                n == self.vertices@.len(),
                0 <= i <= n,
                forall|j: int| 0 <= j < i ==> self.vertices@[j].id < id,
                self == old(self),
                old(self).wf(),
            decreases n - i,
        {
            i = i + 1;
        }
        if i < n && self.vertices[i].id == id {
            proof {
                assert(seq_has_id(self.vertices@, id));
            }
            return false;
        }
        let ghost s0 = self.vertices@;
        let ghost g0 = self@;
        let v = Vertex::new(id, data);
        proof {
            lemma_view_insert(s0, i as int, v);
        }
        self.vertices.insert(i, v);
        self.id_gen.observe(id);
        proof {
            let g2 = self@;
            assert(g2 =~= g0.insert(id, empty_vertex_view(data)));
            assert forall|a: Id, b: Id|
                g2.dom().contains(a) && #[trigger] g2[a].outgoing.contains(b) implies g2
                .dom().contains(b) && g2[b].incoming.contains(a) by {
                assert(a != id);
                assert(g0[a].outgoing.contains(b));
                assert(b != id);
            }
            assert forall|a: Id, b: Id|
                g2.dom().contains(a) && #[trigger] g2[a].incoming.contains(b) implies g2
                .dom().contains(b) && g2[b].outgoing.contains(a) by {
                assert(a != id);
                assert(g0[a].incoming.contains(b));
                assert(b != id);
            }
            assert forall|k: int| 0 <= k < self.vertices@.len() implies (
            #[trigger] self.vertices@[k]).wf() && 1 <= self.vertices@[k].id <= self.id_gen.last
                by {
                if k < i {
                    assert(self.vertices@[k] == s0[k]);
                } else if k > i {
                    assert(self.vertices@[k] == s0[k - 1]);
                } else {
                    assert(self.vertices@[k] == v);
                }
            }
            assert(self.repr_wf());
        }
        true
    }

    /// Insert the directed edge `from -> to`.  Both endpoints must be live;
    /// otherwise nothing changes and `NotFound` is reported.  Re-adding an
    /// existing edge is a no-op by the set semantics of adjacency.
    pub fn add_edge(&mut self, from: Id, to: Id) -> (r: Result<(), GraphError>)
        requires
            old(self).wf(),
        ensures
            final(self).wf(),
            final(self).id_gen == old(self).id_gen,
            old(self)@.dom().contains(from) && old(self)@.dom().contains(to) ==> r is Ok
                && final(self)@ == spec_add_edge(old(self)@, from, to),
            !(old(self)@.dom().contains(from) && old(self)@.dom().contains(to)) ==> r == Err::<
                (),
                GraphError,
            >(GraphError::NotFound) && *final(self) == *old(self),
    {
        let oi = self.find(from);
        let oj = self.find(to);
        let (i, j) = match (oi, oj) {
            (Some(i), Some(j)) => (i, j),
            _ => {
                return Err(GraphError::NotFound);
            },
        };
        let ghost s0 = self.vertices@;
        let ghost g0 = self@;
        proof {
            lemma_idx(s0, from);
            lemma_idx(s0, to);
        }
        let vi = &mut self.vertices[i];
        vi.outgoing.insert(to);
        let ghost s1 = self.vertices@;
        proof {
            lemma_view_update(s0, i as int, s1[i as int]);
            assert(self@ =~~= g0.insert(
                from,
                (VertexView { outgoing: g0[from].outgoing.insert(to), ..g0[from] }),
            ));
        }
        let ghost g1 = self@;
        let vj = &mut self.vertices[j];
        vj.incoming.insert(from);
        let ghost s2 = self.vertices@;
        proof {
            lemma_view_update(s1, j as int, s2[j as int]);
            assert(seq_has_id(s1, to) && seq_idx_of(s1, to) == j as int) by {
                lemma_same_ids(s0, s1);
            }
            assert(self@ =~~= g1.insert(
                to,
                (VertexView { incoming: g1[to].incoming.insert(from), ..g1[to] }),
            ));
            assert(self@ == spec_add_edge(g0, from, to));
            lemma_add_edge_wf(g0, from, to);
            assert forall|k: int| 0 <= k < s2.len() implies (#[trigger] s2[k]).wf() && 1 <= s2[k].id
                <= self.id_gen.last by {
                assert(s2[k].id == s0[k].id && s2[k].data == s0[k].data);
                assert(s0[k].wf());
            }
        }
        Ok(())
    }

    /// Remove the vertex with the given id together with every edge
    /// incident to it, in either direction.  A no-op when the id is not
    /// live.  The id is never issued again.
    pub fn remove_vertex(&mut self, id: Id)
        requires
            old(self).wf(),
        ensures
            final(self).wf(),
            final(self).id_gen == old(self).id_gen,
            old(self)@.dom().contains(id) ==> final(self)@ == spec_remove_vertex(old(self)@, id),
            !old(self)@.dom().contains(id) ==> *final(self) == *old(self),
    {
        let oi = self.find(id);
        let i = match oi {
            Some(i) => i,
            None => {
                return ;
            },
        };
        let ghost s0 = self.vertices@;
        let ghost g0 = self@;
        proof {
            lemma_idx(s0, id);
        }
        self.vertices.remove(i);
        let ghost s1 = self.vertices@;
        proof {
            lemma_view_remove(s0, i as int);
        }
        let n = self.vertices.len();
        let mut k: usize = 0;
        while k < n
            invariant
                n == self.vertices@.len(),
                0 <= k <= n,
                s1.len() == n,
                forall|t: int|
                    0 <= t < n ==> (#[trigger] self.vertices@[t]).id == s1[t].id
                        && self.vertices@[t].data == s1[t].data && self.vertices@[t].wf(),
                forall|t: int|
                    k <= t < n ==> (#[trigger] self.vertices@[t]).incoming.set()
                        == s1[t].incoming.set() && self.vertices@[t].outgoing.set()
                        == s1[t].outgoing.set(),
                forall|t: int|
                    0 <= t < k ==> (#[trigger] self.vertices@[t]).incoming.set()
                        == s1[t].incoming.set().remove(id) && self.vertices@[t].outgoing.set()
                        == s1[t].outgoing.set().remove(id),
                forall|t: int| 0 <= t < n ==> s1[t].wf(),
                self.id_gen == old(self).id_gen,
            decreases n - k,
        {
            let v = &mut self.vertices[k];
            v.incoming.remove(id);
            v.outgoing.remove(id);
            k = k + 1;
        }
        proof {
            let s2 = self.vertices@;
            lemma_same_ids(s1, s2);
            let gv = spec_remove_vertex(g0, id);
            assert forall|x: Id| #[trigger] self@.dom().contains(x) implies gv.dom().contains(x)
                && self@[x] == gv[x] by {
                assert(seq_has_id(s2, x) && seq_has_id(s1, x));
                assert(graph_view_of(s1).dom().contains(x));
                assert(g0.remove(id).dom().contains(x));
                lemma_idx(s1, x);
                lemma_idx(s2, x);
                let t = seq_idx_of(s1, x);
                assert(seq_idx_of(s2, x) == t);
                assert(graph_view_of(s1)[x] == s1[t].view_spec());
                assert(graph_view_of(s1)[x] == g0[x]);
                assert(s2[t].incoming.set() == s1[t].incoming.set().remove(id));
                assert(s2[t].outgoing.set() == s1[t].outgoing.set().remove(id));
                assert(self@[x] == s2[t].view_spec());
            }
            assert forall|x: Id| #[trigger] gv.dom().contains(x) implies self@.dom().contains(x)
                by {
                assert(g0.remove(id).dom().contains(x));
                assert(graph_view_of(s1).dom().contains(x));
                assert(seq_has_id(s1, x) && seq_has_id(s2, x));
            }
            assert(self@ =~= gv);
            lemma_remove_vertex_wf(g0, id);
            assert(view_wf(self@));
            assert forall|t: int| 0 <= t < s2.len() implies 1 <= (#[trigger] s2[t]).id
                <= self.id_gen.last by {
                assert(s2[t].id == s1[t].id);
                if t < i {
                    assert(s1[t].id == s0[t].id);
                } else {
                    assert(s1[t].id == s0[t + 1].id);
                }
            }
        }
    }
}

} // verus!
