use vstd::prelude::*;

use crate::coords::AppCoords;
use crate::ids::Id;

verus! {

/// The keys the state machine reacts to.  Everything else arrives as
/// `Other` and is ignored.
#[derive(Clone, Copy, PartialEq, Eq, Structural, Debug)]
pub enum Key {
    A,
    N,
    Delete,
    Escape,
    Other,
}

/// Whether a block click replaces the selection or adds to it (control key
/// held).
#[derive(Clone, Copy, PartialEq, Eq, Structural, Debug)]
pub enum SelectionModifier {
    Replace,
    Add,
}

/// Events originating from a block's hit area.  They are pre-filtered by
/// the input layer: a block mouse-down does not also arrive as a canvas
/// mouse-down.
#[derive(Clone, Copy, PartialEq, Eq, Structural, Debug)]
pub enum BlockEvent {
    MouseDown { button: u8, modifier: SelectionModifier, id: Id },
    MouseOver { id: Id },
    MouseLeave,
}

/// Normalized input events consumed by the editor.  Button convention:
/// 0 is the primary (left) button, 1 the auxiliary (middle) one; other
/// values are ignored.
#[derive(Clone, Copy, PartialEq, Eq, Structural, Debug)]
pub enum Event {
    CursorMove { new_pos: AppCoords },
    MouseDown { button: u8 },
    MouseUp { button: u8 },
    MouseWheel { delta: i64 },
    KeyDown { key: Key },
    BoardEvent(BlockEvent),
}

} // verus!
