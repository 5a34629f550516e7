use vstd::prelude::*;

use crate::block::VertexData;
use crate::graph::{empty_vertex_view, lemma_idx, spec_add_edge, Graph};
use crate::ids::Id;

verus! {

/// A handle naming a vertex that was live in the graph the handle was made
/// from.  Handles carry the id only; every use takes the graph again and
/// states what it needs of it, since ids can go stale.
#[derive(Clone, Copy, PartialEq, Eq, Structural, Debug)]
pub struct OccupiedVertexEntry {
    pub vertex_id: Id,
}

/// A handle naming an id that was free in the graph the handle was made
/// from.
#[derive(Clone, Copy, PartialEq, Eq, Structural, Debug)]
pub struct VacantVertexEntry {
    pub vertex_id: Id,
}

/// The result of looking an id up: a handle for a live vertex, or one for
/// a free slot that can be occupied.
#[derive(Clone, Copy, PartialEq, Eq, Structural, Debug)]
pub enum VertexEntry {
    Occupied(OccupiedVertexEntry),
    Vacant(VacantVertexEntry),
}

impl VertexEntry {
    /// Look `vertex_id` up in the graph.
    pub fn new(graph: &Graph, vertex_id: Id) -> (r: VertexEntry)
        requires
            graph.wf(),
        ensures
            graph@.dom().contains(vertex_id) ==> r == VertexEntry::Occupied(
                (OccupiedVertexEntry { vertex_id }),
            ),
            !graph@.dom().contains(vertex_id) ==> r == VertexEntry::Vacant(
                (VacantVertexEntry { vertex_id }),
            ),
    {
        if graph.contains(vertex_id) {
            VertexEntry::Occupied(OccupiedVertexEntry { vertex_id })
        } else {
            VertexEntry::Vacant(VacantVertexEntry { vertex_id })
        }
    }

    /// The id this entry names, whichever kind it is.
    pub fn id(&self) -> (r: Id)
        ensures
            r == match *self {
                VertexEntry::Occupied(e) => e.vertex_id,
                VertexEntry::Vacant(e) => e.vertex_id,
            },
    {
        match self {
            VertexEntry::Occupied(e) => e.vertex_id,
            VertexEntry::Vacant(e) => e.vertex_id,
        }
    }

    /// The occupied handle, for an entry known to be occupied; the
    /// precondition rules a vacant one out.
    pub fn unwrap(self) -> (r: OccupiedVertexEntry)
        requires
            self is Occupied,
        ensures
            VertexEntry::Occupied(r) == self,
    {
        match self {
            VertexEntry::Occupied(e) => e,
            VertexEntry::Vacant(e) => {
                proof {
                    assert(false);
                }
                OccupiedVertexEntry { vertex_id: e.vertex_id }
            },
        }
    }

    /// Occupy a vacant entry with the default payload; an occupied entry
    /// is handed back as it is, with the graph untouched.  The entry must
    /// still describe the graph it is used on.
    pub fn or_insert(self, graph: &mut Graph, default: VertexData) -> (r: OccupiedVertexEntry)
        requires
            old(graph).wf(),
            default.center.in_range(),
            self matches VertexEntry::Vacant(e) ==> !old(graph)@.dom().contains(e.vertex_id)
                && e.vertex_id >= 1,
        ensures
            final(graph).wf(),
            match self {
                VertexEntry::Occupied(e) => r == e && *final(graph) == *old(graph),
                VertexEntry::Vacant(e) => r.vertex_id == e.vertex_id && final(graph)@ == old(
                    graph,
                )@.insert(e.vertex_id, empty_vertex_view(default)),
            },
    {
        match self {
            VertexEntry::Occupied(e) => e,
            VertexEntry::Vacant(e) => e.occupy(graph, default),
        }
    }

    /// Occupy a vacant entry; an occupied one yields nothing and leaves
    /// the graph untouched.
    pub fn occupy(self, graph: &mut Graph, data: VertexData) -> (r: Option<OccupiedVertexEntry>)
        requires
            old(graph).wf(),
            data.center.in_range(),
            self matches VertexEntry::Vacant(e) ==> !old(graph)@.dom().contains(e.vertex_id)
                && e.vertex_id >= 1,
        ensures
            final(graph).wf(),
            match self {
                VertexEntry::Occupied(_) => r is None && *final(graph) == *old(graph),
                VertexEntry::Vacant(e) => r == Some((OccupiedVertexEntry { vertex_id: e.vertex_id }))
                    && final(graph)@ == old(graph)@.insert(e.vertex_id, empty_vertex_view(data)),
            },
    {
        match self {
            VertexEntry::Occupied(_) => None,
            VertexEntry::Vacant(e) => Some(e.occupy(graph, data)),
        }
    }
}

impl OccupiedVertexEntry {
    pub fn id(&self) -> (r: Id)
        ensures
            r == self.vertex_id,
    {
        self.vertex_id
    }

    /// The payload of the named vertex, which must still be live.
    pub fn data<'a>(&self, graph: &'a Graph) -> (r: &'a VertexData)
        requires
            graph.wf(),
            graph@.dom().contains(self.vertex_id),
        ensures
            *r == graph@[self.vertex_id].data,
    {
        let i = match graph.find(self.vertex_id) {
            Some(i) => i,
            None => {
                proof {
                    lemma_idx(graph.vertices@, self.vertex_id);
                    assert(false);
                }
                0
            },
        };
        proof {
            lemma_idx(graph.vertices@, self.vertex_id);
        }
        &graph.vertices[i].data
    }

    /// Insert the edge from this vertex to `id`; both must be live.
    pub fn add_outgoing(&self, graph: &mut Graph, id: Id)
        requires
            old(graph).wf(),
            old(graph)@.dom().contains(self.vertex_id),
            old(graph)@.dom().contains(id),
        ensures
            final(graph).wf(),
            final(graph)@ == spec_add_edge(old(graph)@, self.vertex_id, id),
    {
        let r = graph.add_edge(self.vertex_id, id);
    }

    /// Insert the edge from `id` to this vertex; both must be live.
    pub fn add_incoming(&self, graph: &mut Graph, id: Id)
        requires
            old(graph).wf(),
            old(graph)@.dom().contains(self.vertex_id),
            old(graph)@.dom().contains(id),
        ensures
            final(graph).wf(),
            final(graph)@ == spec_add_edge(old(graph)@, id, self.vertex_id),
    {
        let r = graph.add_edge(id, self.vertex_id);
    }
}

impl VacantVertexEntry {
    pub fn id(&self) -> (r: Id)
        ensures
            r == self.vertex_id,
    {
        self.vertex_id
    }

    /// Insert a vertex with no edges under this entry's id, which must
    /// still be free.
    pub fn occupy(self, graph: &mut Graph, data: VertexData) -> (r: OccupiedVertexEntry)
        requires
            old(graph).wf(),
            data.center.in_range(),
            !old(graph)@.dom().contains(self.vertex_id),
            self.vertex_id >= 1,
        ensures
            final(graph).wf(),
            r.vertex_id == self.vertex_id,
            final(graph)@ == old(graph)@.insert(self.vertex_id, empty_vertex_view(data)),
    {
        let done = graph.occupy(self.vertex_id, data);
        OccupiedVertexEntry { vertex_id: self.vertex_id }
    }
}

/// A cursor over the graph's vertices in ascending id order, yielding an
/// occupied handle for each.
pub struct VerticesIter<'a> {
    pub graph: &'a Graph,
    pub index: usize,
}

impl<'a> VerticesIter<'a> {
    pub fn new(graph: &'a Graph) -> (r: Self)
        ensures
            r.graph == graph,
            r.index == 0,
    {
        VerticesIter { graph, index: 0 }
    }

    /// The next vertex handle, or nothing once all have been yielded.
    pub fn next(&mut self) -> (r: Option<OccupiedVertexEntry>)
        requires
            old(self).graph.wf(),
        ensures
            final(self).graph == old(self).graph,
            old(self).index < old(self).graph.vertices@.len() ==> r == Some(
                (OccupiedVertexEntry {
                    vertex_id: old(self).graph.vertices@[old(self).index as int].id,
                }),
            ) && final(self).index == old(self).index + 1 && old(self).graph@.dom().contains(
                old(self).graph.vertices@[old(self).index as int].id,
            ),
            old(self).index >= old(self).graph.vertices@.len() ==> r is None && final(self).index
                == old(self).index,
    {
        if self.index < self.graph.vertices.len() {
            let id = self.graph.vertices[self.index].id;
            proof {
                assert(crate::graph::seq_has_id(self.graph.vertices@, id));
                lemma_idx(self.graph.vertices@, id);
            }
            self.index = self.index + 1;
            Some(OccupiedVertexEntry { vertex_id: id })
        } else {
            None
        }
    }
}

impl Graph {
    /// A handle for the vertex with this id, when it is live.
    pub fn entry(&self, id: Id) -> (r: Option<OccupiedVertexEntry>)
        requires
            self.wf(),
        ensures
            self@.dom().contains(id) ==> r == Some((OccupiedVertexEntry { vertex_id: id })),
            !self@.dom().contains(id) ==> r is None,
    {
        if self.contains(id) {
            Some(OccupiedVertexEntry { vertex_id: id })
        } else {
            None
        }
    }

    /// A cursor over all vertices, in ascending id order.
    pub fn iter_vertices<'a>(&'a self) -> (r: VerticesIter<'a>)
        ensures
            r.graph == self,
            r.index == 0,
    {
        VerticesIter::new(self)
    }
}

} // verus!
