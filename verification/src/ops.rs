use vstd::prelude::*;

use crate::block::VertexData;
use crate::coords::BoardCoords;
use crate::graph::{
    lemma_add_edge_wf, spec_add_edge, spec_remove_vertex, Graph, GraphView, VertexView,
};
use crate::ids::Id;
use crate::selection::spec_clear_selection;

verus! {

/// The ids of the currently selected vertices, as a set.
pub open spec fn selected_set(g: GraphView) -> Set<Id> {
    Set::new(|s: Id| g.dom().contains(s) && g[s].data.selected)
}

/// The ids among the first `i` entries of a sequence.
pub open spec fn prefix_set(s: Seq<Id>, i: int) -> Set<Id> {
    Set::new(|x: Id| exists|j: int| 0 <= j < i && s[j] == x)
}

/// Graph model after arrows have been committed from the selected sources
/// in `done` to `end`: each such source's outgoing set gains `end`, and
/// `end`'s incoming set gains those sources.
pub open spec fn spec_commit_partial(g: GraphView, end: Id, done: Set<Id>) -> GraphView {
    Map::new(
        |k: Id| g.dom().contains(k),
        |k: Id|
            (VertexView {
                data: g[k].data,
                outgoing: if g[k].data.selected && done.contains(k) {
                    g[k].outgoing.insert(end)
                } else {
                    g[k].outgoing
                },
                incoming: if k == end {
                    g[k].incoming.union(selected_set(g).intersect(done))
                } else {
                    g[k].incoming
                },
            }),
    )
}

/// Model of a committed arrow-creation gesture: an edge from every
/// selected vertex to `end`; nothing when `end` is no longer live.
pub open spec fn spec_commit(g: GraphView, end: Id) -> GraphView {
    if g.dom().contains(end) {
        spec_commit_partial(g, end, Set::full())
    } else {
        g
    }
}

/// Graph model after the vertices in `rem` have been removed: they leave
/// the domain and every adjacency set loses any reference to them.
pub open spec fn spec_remove_set(g: GraphView, rem: Set<Id>) -> GraphView {
    Map::new(
        |k: Id| g.dom().contains(k) && !rem.contains(k),
        |k: Id|
            (VertexView {
                data: g[k].data,
                incoming: g[k].incoming.difference(rem),
                outgoing: g[k].outgoing.difference(rem),
            }),
    )
}

/// Model of the delete gesture: every selected vertex is removed, with all
/// its incident edges.
pub open spec fn spec_remove_selected(g: GraphView) -> GraphView {
    spec_remove_set(g, selected_set(g))
}

/// Model of placing a new block: the old selection is cleared and the new
/// vertex enters with no edges, selected.
pub open spec fn spec_create_block(g: GraphView, id: Id, center: BoardCoords) -> GraphView {
    spec_clear_selection(g).insert(
        id,
        (VertexView {
            data: (VertexData { center, selected: true }),
            incoming: Set::empty(),
            outgoing: Set::empty(),
        }),
    )
}

/// Committing one more selected source is one `add_edge` step.
proof fn lemma_commit_step(g: GraphView, end: Id, done: Set<Id>, src: Id)
    requires
        g.dom().contains(end),
        g.dom().contains(src),
        g[src].data.selected,
        !done.contains(src),
    ensures
        spec_add_edge(spec_commit_partial(g, end, done), src, end) =~~= spec_commit_partial(
            g,
            end,
            done.insert(src),
        ),
{
}

/// Removing one more vertex from a partially removed graph removes it from
/// the pending set as a whole.
proof fn lemma_remove_step(g: GraphView, rem: Set<Id>, id: Id)
    ensures
        spec_remove_vertex(spec_remove_set(g, rem), id) =~~= spec_remove_set(g, rem.insert(id)),
{
}

impl Graph {
    /// Commit an arrow-creation gesture: insert a directed edge from every
    /// selected vertex to `end` (idempotently, by the set semantics of
    /// adjacency).  When `end` is no longer live, nothing changes.
    pub fn commit_edges(&mut self, end: Id)
        requires
            old(self).wf(),
        ensures
            final(self).wf(),
            final(self).id_gen == old(self).id_gen,
            final(self)@ == spec_commit(old(self)@, end),
    {
        if !self.contains(end) {
            return ;
        }
        let ids = self.selected_ids();
        let ghost g0 = self@;
        proof {
            assert(self@ =~~= spec_commit_partial(g0, end, prefix_set(ids@, 0)));
        }
        let n = ids.len();
        let mut i: usize = 0;
        while i < n
            invariant
                n == ids@.len(),
                0 <= i <= n,
                self.wf(),
                self.id_gen == old(self).id_gen,
                g0 == old(self)@,
                forall|x: Id| #[trigger]
                    ids@.contains(x) == (g0.dom().contains(x) && g0[x].data.selected),
                forall|p: int, q: int| 0 <= p < q < n ==> ids@[p] < ids@[q],
                g0.dom().contains(end),
                self@ == spec_commit_partial(g0, end, prefix_set(ids@, i as int)),
            decreases n - i,
        {
            let src = ids[i];
            proof {
                assert(ids@.contains(src));
                assert(g0.dom().contains(src) && g0[src].data.selected);
                assert(!prefix_set(ids@, i as int).contains(src)) by {
                    if exists|j: int| 0 <= j < i && ids@[j] == src {
                        let j = choose|j: int| 0 <= j < i && ids@[j] == src;
                        assert(ids@[j] < ids@[i as int]);
                    }
                }
                assert(self@.dom().contains(src) && self@.dom().contains(end));
            }
            let res = self.add_edge(src, end);
            proof {
                lemma_commit_step(g0, end, prefix_set(ids@, i as int), src);
                assert(prefix_set(ids@, i + 1) =~= prefix_set(ids@, i as int).insert(src)) by {
                    assert forall|x: Id|
                        prefix_set(ids@, i + 1).contains(x) == prefix_set(
                            ids@,
                            i as int,
                        ).insert(src).contains(x) by {
                        if prefix_set(ids@, i + 1).contains(x) {
                            let j = choose|j: int| 0 <= j < i + 1 && ids@[j] == x;
                            if j == i {
                                assert(x == src);
                            }
                        }
                        if x == src {
                            assert(ids@[i as int] == x);
                        }
                    }
                }
                assert(self@ == spec_commit_partial(g0, end, prefix_set(ids@, i + 1)));
            }
            i = i + 1;
        }
        proof {
            assert(self@ =~~= spec_commit_partial(g0, end, Set::full())) by {
                assert(selected_set(g0).intersect(prefix_set(ids@, n as int)) =~= selected_set(
                    g0,
                ).intersect(Set::full())) by {
                    assert forall|x: Id|
                        selected_set(g0).contains(x) implies prefix_set(ids@, n as int).contains(
                        x,
                    ) by {
                        assert(ids@.contains(x));
                        let j = choose|j: int| 0 <= j < n && ids@[j] == x;
                    }
                }
                assert forall|k: Id| #[trigger] g0.dom().contains(k) implies spec_commit_partial(
                    g0,
                    end,
                    prefix_set(ids@, n as int),
                )[k] =~~= spec_commit_partial(g0, end, Set::full())[k] by {
                    if g0[k].data.selected {
                        assert(selected_set(g0).contains(k));
                        assert(ids@.contains(k));
                        let j = choose|j: int| 0 <= j < n && ids@[j] == k;
                        assert(prefix_set(ids@, n as int).contains(k));
                    }
                }
            }
        }
    }

    /// Remove every selected vertex, cascading edge cleanup: afterwards no
    /// vertex is selected, and nothing references a removed id.
    pub fn remove_selected(&mut self)
        requires
            old(self).wf(),
        ensures
            final(self).wf(),
            final(self).id_gen == old(self).id_gen,
            final(self)@ == spec_remove_selected(old(self)@),
            forall|k: Id| #[trigger] final(self)@.dom().contains(k) ==> !final(self)@[k].data.selected,
    {
        let ids = self.selected_ids();
        let ghost g0 = self@;
        proof {
            assert(self@ =~~= spec_remove_set(g0, prefix_set(ids@, 0)));
        }
        let n = ids.len();
        let mut i: usize = 0;
        while i < n
            invariant
                n == ids@.len(),
                0 <= i <= n,
                self.wf(),
                self.id_gen == old(self).id_gen,
                g0 == old(self)@,
                forall|x: Id| #[trigger]
                    ids@.contains(x) == (g0.dom().contains(x) && g0[x].data.selected),
                forall|p: int, q: int| 0 <= p < q < n ==> ids@[p] < ids@[q],
                self@ == spec_remove_set(g0, prefix_set(ids@, i as int)),
            decreases n - i,
        {
            let id = ids[i];
            proof {
                assert(ids@.contains(id));
                assert(g0.dom().contains(id));
                assert(!prefix_set(ids@, i as int).contains(id)) by {
                    if exists|j: int| 0 <= j < i && ids@[j] == id {
                        let j = choose|j: int| 0 <= j < i && ids@[j] == id;
                        assert(ids@[j] < ids@[i as int]);
                    }
                }
                assert(self@.dom().contains(id));
            }
            self.remove_vertex(id);
            proof {
                lemma_remove_step(g0, prefix_set(ids@, i as int), id);
                assert(prefix_set(ids@, i + 1) =~= prefix_set(ids@, i as int).insert(id)) by {
                    assert forall|x: Id|
                        prefix_set(ids@, i + 1).contains(x) == prefix_set(
                            ids@,
                            i as int,
                        ).insert(id).contains(x) by {
                        if prefix_set(ids@, i + 1).contains(x) {
                            let j = choose|j: int| 0 <= j < i + 1 && ids@[j] == x;
                            if j == i {
                                assert(x == id);
                            }
                        }
                        if x == id {
                            assert(ids@[i as int] == x);
                        }
                    }
                }
                assert(self@ == spec_remove_set(g0, prefix_set(ids@, i + 1)));
            }
            i = i + 1;
        }
        proof {
            assert(self@ =~~= spec_remove_set(g0, selected_set(g0))) by {
                assert forall|x: Id|
                    prefix_set(ids@, n as int).contains(x) == selected_set(g0).contains(x) by {
                    if prefix_set(ids@, n as int).contains(x) {
                        let j = choose|j: int| 0 <= j < n && ids@[j] == x;
                        assert(ids@.contains(x));
                    }
                    if selected_set(g0).contains(x) {
                        assert(ids@.contains(x));
                        let j = choose|j: int| 0 <= j < n && ids@[j] == x;
                    }
                }
                assert(prefix_set(ids@, n as int) =~= selected_set(g0));
            }
        }
    }

    /// Place a new block centered at `center`: clear the old selection,
    /// create the vertex, select it.  Returns its fresh id, or nothing
    /// once the id space is exhausted (then nothing changes at all).
    pub fn create_block(&mut self, center: BoardCoords) -> (r: Option<Id>)
        requires
            old(self).wf(),
            center.in_range(),
        ensures
            final(self).wf(),
            old(self).id_gen.last < i64::MAX ==> r == Some((old(self).id_gen.last + 1) as Id)
                && final(self)@ == spec_create_block(
                old(self)@,
                (old(self).id_gen.last + 1) as Id,
                center,
            ) && final(self).id_gen.last == old(self).id_gen.last + 1,
            old(self).id_gen.last == i64::MAX ==> r is None && *final(self) == *old(self),
    {
        if self.id_gen.last == i64::MAX {
            return None;
        }
        let ghost g0 = self@;
        self.clear_selection();
        let r = self.new_vertex(VertexData::from(center));
        let id = match r {
            Some(id) => id,
            None => {
                proof {
                    assert(false);
                }
                return None;
            },
        };
        self.set_selected(id, true);
        proof {
            assert(self@ =~~= spec_create_block(g0, id, center));
        }
        Some(id)
    }
}

} // verus!
