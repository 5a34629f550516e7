use vstd::prelude::*;

use crate::block::BLOCK_HALF_SPAN;
use crate::coords::BoardCoords;
use crate::graph::{Edge, Graph};
use crate::ids::Id;

verus! {

/// An endpoint of an arrow's curve: where it attaches to a block, and the
/// control vector that shapes the curve there.
#[derive(Clone, Copy, PartialEq, Eq, Structural, Debug)]
pub struct ControlPoint {
    pub point: BoardCoords,
    pub vector: BoardCoords,
}

/// An arrow to render: the ids of its two blocks and whether it is a ghost
/// (preview) arrow.
#[derive(Clone, Copy, PartialEq, Eq, Structural, Debug)]
pub struct Arrow {
    pub start: Id,
    pub end: Id,
    pub preview: bool,
}

/// Where an arrow leaves a block centered at `c`: the middle of its right
/// edge, pointing right.
pub open spec fn spec_control_point_out(c: BoardCoords) -> ControlPoint {
    ControlPoint {
        point: BoardCoords { x: (c.x + BLOCK_HALF_SPAN) as i64, y: c.y },
        vector: BoardCoords { x: BLOCK_HALF_SPAN, y: 0 },
    }
}

/// Where an arrow enters a block centered at `c`: the middle of its left
/// edge, pointing left.
pub open spec fn spec_control_point_in(c: BoardCoords) -> ControlPoint {
    ControlPoint {
        point: BoardCoords { x: (c.x - BLOCK_HALF_SPAN) as i64, y: c.y },
        vector: BoardCoords { x: (-BLOCK_HALF_SPAN) as i64, y: 0 },
    }
}

impl Arrow {
    /// An arrow for a stored edge.  Yields nothing when either endpoint is
    /// no longer live.
    pub fn from(edge: Edge, graph: &Graph, preview: bool) -> (r: Option<Arrow>)
        requires
            graph.wf(),
        ensures
            graph@.dom().contains(edge.0) && graph@.dom().contains(edge.1) ==> r == Some(
                (Arrow { start: edge.0, end: edge.1, preview }),
            ),
            !(graph@.dom().contains(edge.0) && graph@.dom().contains(edge.1)) ==> r is None,
    {
        if graph.contains(edge.0) && graph.contains(edge.1) {
            Some(Arrow { start: edge.0, end: edge.1, preview })
        } else {
            None
        }
    }

    /// The outgoing control point at this arrow's start block.
    pub fn control_point_out(&self, graph: &Graph) -> (r: Option<ControlPoint>)
        requires
            graph.wf(),
        ensures
            graph@.dom().contains(self.start) ==> r == Some(
                spec_control_point_out(graph@[self.start].data.center),
            ),
            !graph@.dom().contains(self.start) ==> r is None,
    {
        match graph.get(self.start) {
            Some(d) => Some(
                ControlPoint {
                    point: BoardCoords { x: d.center.x + BLOCK_HALF_SPAN, y: d.center.y },
                    vector: BoardCoords { x: BLOCK_HALF_SPAN, y: 0 },
                },
            ),
            None => None,
        }
    }

    /// The incoming control point at this arrow's end block.
    pub fn control_point_in(&self, graph: &Graph) -> (r: Option<ControlPoint>)
        requires
            graph.wf(),
        ensures
            graph@.dom().contains(self.end) ==> r == Some(
                spec_control_point_in(graph@[self.end].data.center),
            ),
            !graph@.dom().contains(self.end) ==> r is None,
    {
        match graph.get(self.end) {
            Some(d) => Some(
                ControlPoint {
                    point: BoardCoords { x: d.center.x - BLOCK_HALF_SPAN, y: d.center.y },
                    vector: BoardCoords { x: -BLOCK_HALF_SPAN, y: 0 },
                },
            ),
            None => None,
        }
    }
}

} // verus!
