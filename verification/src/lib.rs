//! Core of an interactive node-and-arrow diagram editor.
//!
//! Users place rectangular blocks on an infinite board, connect them with
//! directed arrows, drag, select and delete them, and pan and zoom the
//! viewport.  This crate holds the pieces that editing semantics depend on:
//! the directed graph of blocks, the viewport-to-board coordinate transform,
//! and the interaction state machine that interprets normalized input
//! events.  Rendering, window management and raw input capture live outside.

use vstd::prelude::*;

pub mod arrow;
pub mod block;
pub mod coords;
pub mod editor;
pub mod event;
pub mod graph;
pub mod id_set;
pub mod ops;
pub mod queries;
pub mod ids;
pub mod rect;
pub mod selection;
pub mod state;
pub mod vertex_entry;
pub mod viewbox;

verus! {

} // verus!
