use vstd::prelude::*;

use crate::coords::{BoardCoords, SUBUNIT};
use crate::ids::Id;

verus! {

/// Side length of a block, in board units.
pub const BLOCK_SIZE_UNITS: i64 = 150;

/// Half of a block's side length, in board subunits.
pub const BLOCK_HALF_SPAN: i64 = 75 * SUBUNIT;

/// Payload carried by every vertex: the block's center in board space and
/// its selection flag.
#[derive(Clone, Copy, PartialEq, Eq, Structural, Debug)]
pub struct VertexData {
    pub center: BoardCoords,
    pub selected: bool,
}

impl VertexData {
    /// A freshly placed block: centered at `center`, not selected.
    pub fn from(center: BoardCoords) -> (r: Self)
        ensures
            r.center == center,
            r.selected == false,
    {
        VertexData { center, selected: false }
    }
}

/// Top-left corner of the block centered at `c`.
pub open spec fn spec_block_top_left(c: BoardCoords) -> BoardCoords {
    BoardCoords { x: (c.x - BLOCK_HALF_SPAN) as i64, y: (c.y - BLOCK_HALF_SPAN) as i64 }
}

/// Bottom-right corner of the block centered at `c`.
pub open spec fn spec_block_bottom_right(c: BoardCoords) -> BoardCoords {
    BoardCoords { x: (c.x + BLOCK_HALF_SPAN) as i64, y: (c.y + BLOCK_HALF_SPAN) as i64 }
}

/// The square footprint of every block, as a vector.
pub fn block_size() -> (r: BoardCoords)
    ensures
        r.x == 2 * BLOCK_HALF_SPAN,
        r.y == 2 * BLOCK_HALF_SPAN,
        r.x == BLOCK_SIZE_UNITS * SUBUNIT,
{
    BoardCoords { x: 2 * BLOCK_HALF_SPAN, y: 2 * BLOCK_HALF_SPAN }
}

/// A self-contained snapshot of one block, detached from the graph, for
/// rendering and inspection.
#[derive(Clone, Copy, PartialEq, Eq, Structural, Debug)]
pub struct StateDump {
    pub id: Id,
    pub vertex_data: VertexData,
}

impl StateDump {
    pub fn new(id: Id, vertex_data: VertexData) -> (r: Self)
        ensures
            r.id == id,
            r.vertex_data == vertex_data,
    {
        StateDump { id, vertex_data }
    }

    pub fn id(&self) -> (r: Id)
        ensures
            r == self.id,
    {
        self.id
    }

    pub fn selected(&self) -> (r: bool)
        ensures
            r == self.vertex_data.selected,
    {
        self.vertex_data.selected
    }

    pub fn center(&self) -> (r: BoardCoords)
        ensures
            r == self.vertex_data.center,
    {
        self.vertex_data.center
    }

    pub fn size(&self) -> (r: BoardCoords)
        ensures
            r.x == 2 * BLOCK_HALF_SPAN,
            r.y == 2 * BLOCK_HALF_SPAN,
    {
        block_size()
    }

    pub fn top_left(&self) -> (r: BoardCoords)
        requires
            self.vertex_data.center.in_range(),
        ensures
            r == spec_block_top_left(self.vertex_data.center),
    {
        BoardCoords {
            x: self.vertex_data.center.x - BLOCK_HALF_SPAN,
            y: self.vertex_data.center.y - BLOCK_HALF_SPAN,
        }
    }

    pub fn bottom_right(&self) -> (r: BoardCoords)
        requires
            self.vertex_data.center.in_range(),
        ensures
            r == spec_block_bottom_right(self.vertex_data.center),
    {
        BoardCoords {
            x: self.vertex_data.center.x + BLOCK_HALF_SPAN,
            y: self.vertex_data.center.y + BLOCK_HALF_SPAN,
        }
    }
}

} // verus!
