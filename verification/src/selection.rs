use vstd::prelude::*;

use crate::block::{spec_block_bottom_right, spec_block_top_left, VertexData};
use crate::coords::{clamped, BoardCoords, COORD_LIMIT};
use crate::graph::{
    graph_view_of, lemma_idx, lemma_same_ids, seq_has_id, seq_idx_of, seq_sorted, Graph, GraphView,
    Vertex, VertexView, view_wf,
};
use crate::ids::Id;
use crate::rect::{rectangles_overlap, spec_rectangles_overlap};

verus! {

/// Payload after a selection clear: the flag is dropped, nothing else moves.
pub open spec fn spec_cleared_data(d: VertexData) -> VertexData {
    VertexData { selected: false, center: d.center }
}

/// Effect of `clear_selection` on the graph model.
pub open spec fn spec_clear_selection(g: GraphView) -> GraphView {
    Map::new(
        |k: Id| g.dom().contains(k),
        |k: Id| (VertexView { data: spec_cleared_data(g[k].data), ..g[k] }),
    )
}

/// Effect of `set_selected` on the graph model.
pub open spec fn spec_set_selected(g: GraphView, id: Id, sel: bool) -> GraphView {
    g.insert(
        id,
        (VertexView {
            data: (VertexData { selected: sel, center: g[id].data.center }),
            ..g[id]
        }),
    )
}

/// Payload after a drag step: a selected block's center moves by `delta`
/// (clamped into the stored range); an unselected block stays put.
pub open spec fn spec_moved_data(d: VertexData, delta: BoardCoords) -> VertexData {
    if d.selected {
        VertexData {
            center: BoardCoords {
                x: clamped(d.center.x + delta.x) as i64,
                y: clamped(d.center.y + delta.y) as i64,
            },
            selected: d.selected,
        }
    } else {
        d
    }
}

/// Effect of `move_selected` on the graph model.
pub open spec fn spec_move_selected(g: GraphView, delta: BoardCoords) -> GraphView {
    Map::new(
        |k: Id| g.dom().contains(k),
        |k: Id| (VertexView { data: spec_moved_data(g[k].data, delta), ..g[k] }),
    )
}

/// Payload after a marquee update: the block is selected exactly when its
/// bounding box overlaps the rectangle spanned by `c1` and `c2`.
pub open spec fn spec_rect_data(d: VertexData, c1: BoardCoords, c2: BoardCoords) -> VertexData {
    VertexData {
        selected: spec_rectangles_overlap(
            c1,
            c2,
            spec_block_top_left(d.center),
            spec_block_bottom_right(d.center),
        ),
        center: d.center,
    }
}

/// Effect of `select_in_rect` on the graph model.
pub open spec fn spec_select_rect(g: GraphView, c1: BoardCoords, c2: BoardCoords) -> GraphView {
    Map::new(
        |k: Id| g.dom().contains(k),
        |k: Id| (VertexView { data: spec_rect_data(g[k].data, c1, c2), ..g[k] }),
    )
}

/// A transformation that touches only payloads induces the pointwise map
/// transformation on the graph model.
pub proof fn lemma_view_map_data(s1: Seq<Vertex>, s2: Seq<Vertex>, f: spec_fn(VertexData) -> VertexData)
    requires
        seq_sorted(s1),
        s2.len() == s1.len(),
        forall|t: int|
            0 <= t < s1.len() ==> (#[trigger] s2[t]).id == s1[t].id && s2[t].incoming.set()
                == s1[t].incoming.set() && s2[t].outgoing.set() == s1[t].outgoing.set()
                && s2[t].data == f(s1[t].data),
    ensures
        graph_view_of(s2) =~= Map::new(
            |k: Id| graph_view_of(s1).dom().contains(k),
            |k: Id| (VertexView { data: f(graph_view_of(s1)[k].data), ..graph_view_of(s1)[k] }),
        ),
{
    lemma_same_ids(s1, s2);
    let g1 = graph_view_of(s1);
    let g2 = graph_view_of(s2);
    assert forall|x: Id| #[trigger] g2.dom().contains(x) implies g1.dom().contains(x) && g2[x]
        == (VertexView { data: f(g1[x].data), ..g1[x] }) by {
        lemma_idx(s1, x);
        lemma_idx(s2, x);
        let t = seq_idx_of(s1, x);
        assert(seq_idx_of(s2, x) == t);
        assert(g2[x] == s2[t].view_spec());
        assert(g1[x] == s1[t].view_spec());
    }
    assert forall|x: Id| #[trigger] g1.dom().contains(x) implies g2.dom().contains(x) by {
        assert(seq_has_id(s1, x) && seq_has_id(s2, x));
    }
}

/// A model change that leaves every adjacency set alone preserves adjacency
/// integrity.
pub proof fn lemma_view_wf_data(g1: GraphView, g2: GraphView)
    requires
        view_wf(g1),
        forall|k: Id| #[trigger] g2.dom().contains(k) == g1.dom().contains(k),
        forall|k: Id| #[trigger]
            g2.dom().contains(k) ==> g2[k].incoming == g1[k].incoming && g2[k].outgoing
                == g1[k].outgoing,
    ensures
        view_wf(g2),
{
    assert forall|a: Id, b: Id|
        g2.dom().contains(a) && #[trigger] g2[a].outgoing.contains(b) implies g2.dom().contains(b)
        && g2[b].incoming.contains(a) by {
        assert(g1[a].outgoing.contains(b));
    }
    assert forall|a: Id, b: Id|
        g2.dom().contains(a) && #[trigger] g2[a].incoming.contains(b) implies g2.dom().contains(b)
        && g2[b].outgoing.contains(a) by {
        assert(g1[a].incoming.contains(b));
    }
}

impl Graph {
    /// Drop the selection flag of every vertex.  Afterwards no vertex
    /// reports itself selected.
    pub fn clear_selection(&mut self)
        requires
            old(self).wf(),
        ensures
            final(self).wf(),
            final(self).id_gen == old(self).id_gen,
            final(self)@ == spec_clear_selection(old(self)@),
            forall|k: Id| #[trigger] final(self)@.dom().contains(k) ==> !final(self)@[k].data.selected,
    {
        let n = self.vertices.len();
        let mut t: usize = 0;
        while t < n
            invariant
                n == self.vertices@.len(),
                0 <= t <= n,
                old(self).wf(),
                s_prefix_data(old(self).vertices@, self.vertices@, t as int),
                forall|u: int|
                    0 <= u < t ==> (#[trigger] self.vertices@[u]).data == spec_cleared_data(
                        old(self).vertices@[u].data,
                    ),
                self.id_gen == old(self).id_gen,
            decreases n - t,
        {
            self.vertices[t].data.selected = false;
            t = t + 1;
        }
        proof {
            lemma_view_map_data(
                old(self).vertices@,
                self.vertices@,
                |d: VertexData| spec_cleared_data(d),
            );
            assert(self@ =~= spec_clear_selection(old(self)@));
            lemma_view_wf_data(old(self)@, self@);
            assert(self.repr_wf());
        }
    }

    /// Set one vertex's selection flag.  Reports whether the id was live;
    /// nothing changes when it is not.
    pub fn set_selected(&mut self, id: Id, sel: bool) -> (r: bool)
        requires
            old(self).wf(),
        ensures
            final(self).wf(),
            final(self).id_gen == old(self).id_gen,
            r == old(self)@.dom().contains(id),
            r ==> final(self)@ == spec_set_selected(old(self)@, id, sel),
            !r ==> *final(self) == *old(self),
    {
        let oi = self.find(id);
        let i = match oi {
            Some(i) => i,
            None => {
                return false;
            },
        };
        let ghost s0 = self.vertices@;
        let ghost g0 = self@;
        proof {
            lemma_idx(s0, id);
        }
        self.vertices[i].data.selected = sel;
        proof {
            crate::graph::lemma_view_update(s0, i as int, self.vertices@[i as int]);
            assert(self@ =~= spec_set_selected(g0, id, sel));
            lemma_view_wf_data(g0, self@);
            assert(self.repr_wf());
        }
        true
    }

    /// Shift every selected vertex's center by `delta`, clamped into the
    /// stored coordinate range.
    pub fn move_selected(&mut self, delta: BoardCoords)
        requires
            old(self).wf(),
            -3 * (COORD_LIMIT as int) <= delta.x as int <= 3 * (COORD_LIMIT as int),
            -3 * (COORD_LIMIT as int) <= delta.y as int <= 3 * (COORD_LIMIT as int),
        ensures
            final(self).wf(),
            final(self).id_gen == old(self).id_gen,
            final(self)@ == spec_move_selected(old(self)@, delta),
    {
        let n = self.vertices.len();
        let mut t: usize = 0;
        while t < n
            invariant
                n == self.vertices@.len(),
                0 <= t <= n,
                old(self).wf(),
                -3 * (COORD_LIMIT as int) <= delta.x as int <= 3 * (COORD_LIMIT as int),
                -3 * (COORD_LIMIT as int) <= delta.y as int <= 3 * (COORD_LIMIT as int),
                s_prefix_data(old(self).vertices@, self.vertices@, t as int),
                forall|u: int|
                    0 <= u < t ==> (#[trigger] self.vertices@[u]).data == spec_moved_data(
                        old(self).vertices@[u].data,
                        delta,
                    ),
                forall|u: int| 0 <= u < t ==> (#[trigger] self.vertices@[u]).data.center.in_range(),
                self.id_gen == old(self).id_gen,
            decreases n - t,
        {
            if self.vertices[t].data.selected {
                let c = self.vertices[t].data.center;
                self.vertices[t].data.center = c.plus_clamped(delta);
            }
            t = t + 1;
        }
        proof {
            lemma_view_map_data(
                old(self).vertices@,
                self.vertices@,
                |d: VertexData| spec_moved_data(d, delta),
            );
            assert(self@ =~= spec_move_selected(old(self)@, delta));
            lemma_view_wf_data(old(self)@, self@);
            assert(self.repr_wf());
        }
    }

    /// Re-derive every vertex's selection flag from the marquee rectangle
    /// spanned by `c1` and `c2`: selected exactly when the block's bounding
    /// box overlaps it.
    pub fn select_in_rect(&mut self, c1: BoardCoords, c2: BoardCoords)
        requires
            old(self).wf(),
        ensures
            final(self).wf(),
            final(self).id_gen == old(self).id_gen,
            final(self)@ == spec_select_rect(old(self)@, c1, c2),
    {
        let n = self.vertices.len();
        let mut t: usize = 0;
        while t < n
            invariant
                n == self.vertices@.len(),
                0 <= t <= n,
                old(self).wf(),
                s_prefix_data(old(self).vertices@, self.vertices@, t as int),
                forall|u: int|
                    0 <= u < t ==> (#[trigger] self.vertices@[u]).data == spec_rect_data(
                        old(self).vertices@[u].data,
                        c1,
                        c2,
                    ),
                forall|u: int| 0 <= u < t ==> (#[trigger] self.vertices@[u]).data.center.in_range(),
                self.id_gen == old(self).id_gen,
            decreases n - t,
        {
            let c = self.vertices[t].data.center;
            let tl = BoardCoords {
                x: c.x - crate::block::BLOCK_HALF_SPAN,
                y: c.y - crate::block::BLOCK_HALF_SPAN,
            };
            let br = BoardCoords {
                x: c.x + crate::block::BLOCK_HALF_SPAN,
                y: c.y + crate::block::BLOCK_HALF_SPAN,
            };
            let hit = rectangles_overlap(c1, c2, tl, br);
            self.vertices[t].data.selected = hit;
            t = t + 1;
        }
        proof {
            lemma_view_map_data(
                old(self).vertices@,
                self.vertices@,
                |d: VertexData| spec_rect_data(d, c1, c2),
            );
            assert(self@ =~= spec_select_rect(old(self)@, c1, c2));
            lemma_view_wf_data(old(self)@, self@);
            assert(self.repr_wf());
        }
    }

    /// The payload of the vertex with the given id, if it is live.
    pub fn get(&self, id: Id) -> (r: Option<VertexData>)
        requires
            self.wf(),
        ensures
            match r {
                Some(d) => self@.dom().contains(id) && d == self@[id].data,
                None => !self@.dom().contains(id),
            },
    {
        match self.find(id) {
            Some(i) => {
                proof {
                    lemma_idx(self.vertices@, id);
                }
                Some(self.vertices[i].data)
            },
            None => None,
        }
    }

    /// Whether any vertex is currently selected.
    pub fn any_selected(&self) -> (r: bool)
        requires
            self.wf(),
        ensures
            r == exists|k: Id| #[trigger]
                self@.dom().contains(k) && self@[k].data.selected,
    {
        let n = self.vertices.len();
        let mut t: usize = 0;
        while t < n
            invariant
                n == self.vertices@.len(),
                0 <= t <= n,
                self.wf(),
                forall|u: int| 0 <= u < t ==> !(#[trigger] self.vertices@[u]).data.selected,
            decreases n - t,
        {
            if self.vertices[t].data.selected {
                proof {
                    let id = self.vertices@[t as int].id;
                    assert(seq_has_id(self.vertices@, id));
                    lemma_idx(self.vertices@, id);
                    assert(self@.dom().contains(id) && self@[id].data.selected);
                }
                return true;
            }
            t = t + 1;
        }
        proof {
            if exists|k: Id| #[trigger] self@.dom().contains(k) && self@[k].data.selected {
                let k = choose|k: Id| #[trigger] self@.dom().contains(k) && self@[k].data.selected;
                lemma_idx(self.vertices@, k);
            }
        }
        false
    }

    /// The ids of all selected vertices, in ascending order.
    pub fn selected_ids(&self) -> (r: Vec<Id>)
        requires
            self.wf(),
        ensures
            forall|x: Id| #[trigger]
                r@.contains(x) == (self@.dom().contains(x) && self@[x].data.selected),
            forall|p: int, q: int| 0 <= p < q < r@.len() ==> r@[p] < r@[q],
    {
        let n = self.vertices.len();
        let mut r: Vec<Id> = Vec::new();
        let mut t: usize = 0;
        while t < n
            invariant
                n == self.vertices@.len(),
                0 <= t <= n,
                self.wf(),
                forall|x: Id| #[trigger]
                    r@.contains(x) == (exists|u: int|
                        0 <= u < t && (#[trigger] self.vertices@[u]).id == x
                            && self.vertices@[u].data.selected),
                forall|p: int, q: int| 0 <= p < q < r@.len() ==> r@[p] < r@[q],
                forall|p: int|
                    0 <= p < r@.len() ==> exists|u: int|
                        0 <= u < t && (#[trigger] self.vertices@[u]).id == #[trigger] r@[p],
            decreases n - t,
        {
            if self.vertices[t].data.selected {
                let id = self.vertices[t].id;
                proof {
                    assert forall|p: int| 0 <= p < r@.len() implies r@[p] < id by {
                        let u = choose|u: int|
                            0 <= u < t && (#[trigger] self.vertices@[u]).id == r@[p];
                        assert(self.vertices@[u].id < self.vertices@[t as int].id);
                    }
                }
                let ghost r0 = r@;
                r.push(id);
                proof {
                    assert(r@ == r0.push(id));
                    assert forall|x: Id| #[trigger] r@.contains(x) == (exists|u: int|
                        0 <= u < t + 1 && (#[trigger] self.vertices@[u]).id == x
                            && self.vertices@[u].data.selected) by {
                        if r@.contains(x) {
                            let p = choose|p: int| 0 <= p < r@.len() && r@[p] == x;
                            if p < r0.len() {
                                assert(r0[p] == x);
                                assert(r0.contains(x));
                            } else {
                                assert(x == id);
                                assert(self.vertices@[t as int].id == x
                                    && self.vertices@[t as int].data.selected);
                            }
                        }
                        if exists|u: int|
                            0 <= u < t + 1 && (#[trigger] self.vertices@[u]).id == x
                                && self.vertices@[u].data.selected {
                            let u = choose|u: int|
                                0 <= u < t + 1 && (#[trigger] self.vertices@[u]).id == x
                                    && self.vertices@[u].data.selected;
                            if u < t {
                                assert(r0.contains(x));
                                let p = choose|p: int| 0 <= p < r0.len() && r0[p] == x;
                                assert(r@[p] == x);
                                assert(r@.contains(x));
                            } else {
                                assert(r@[r@.len() - 1] == x);
                                assert(r@.contains(x));
                            }
                        }
                    }
                }
            } else {
                proof {
                    assert forall|x: Id| #[trigger] r@.contains(x) == (exists|u: int|
                        0 <= u < t + 1 && (#[trigger] self.vertices@[u]).id == x
                            && self.vertices@[u].data.selected) by {
                        if exists|u: int|
                            0 <= u < t + 1 && (#[trigger] self.vertices@[u]).id == x
                                && self.vertices@[u].data.selected {
                            let u = choose|u: int|
                                0 <= u < t + 1 && (#[trigger] self.vertices@[u]).id == x
                                    && self.vertices@[u].data.selected;
                            assert(u < t);
                        }
                    }
                }
            }
            t = t + 1;
        }
        proof {
            assert forall|x: Id| #[trigger] r@.contains(x) == (self@.dom().contains(x)
                && self@[x].data.selected) by {
                if r@.contains(x) {
                    let u = choose|u: int|
                        0 <= u < n && (#[trigger] self.vertices@[u]).id == x
                            && self.vertices@[u].data.selected;
                    assert(seq_has_id(self.vertices@, x));
                    lemma_idx(self.vertices@, x);
                }
                if self@.dom().contains(x) && self@[x].data.selected {
                    lemma_idx(self.vertices@, x);
                    let u = seq_idx_of(self.vertices@, x);
                    assert(0 <= u < n && self.vertices@[u].id == x
                        && self.vertices@[u].data.selected);
                }
            }
        }
        r
    }
}

/// Prefix-transformation invariant shared by the bulk payload loops: ids
/// and adjacency are untouched everywhere, lengths agree, and vertices not
/// yet visited still carry their old payload.
pub open spec fn s_prefix_data(s1: Seq<Vertex>, s2: Seq<Vertex>, t: int) -> bool {
    s2.len() == s1.len() && (forall|u: int|
        0 <= u < s1.len() ==> (#[trigger] s2[u]).id == s1[u].id && s2[u].incoming.set()
            == s1[u].incoming.set() && s2[u].outgoing.set() == s1[u].outgoing.set()
            && s2[u].incoming.wf() && s2[u].outgoing.wf()) && (forall|u: int|
        t <= u < s1.len() ==> (#[trigger] s2[u]).data == s1[u].data)
}

} // verus!
