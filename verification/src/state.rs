use vstd::prelude::*;

use crate::block::VertexData;
use crate::coords::BoardCoords;
use crate::event::{BlockEvent, Key, SelectionModifier};
use crate::graph::{Graph, GraphView};
use crate::ids::Id;
use crate::ops::{spec_commit, spec_create_block, spec_remove_selected};
use crate::selection::{
    spec_clear_selection, spec_move_selected, spec_select_rect, spec_set_selected,
};

verus! {

/// The stages of an arrow-creation gesture: waiting for a hover target,
/// previewing ghost arrows onto a candidate, or holding a locked target
/// until mouse-up commits.
#[derive(Clone, Copy, PartialEq, Eq, Structural, Debug)]
pub enum StateStages {
    Start,
    Preview { end_block: Id },
    Finish { end_block: Id },
}

/// The interaction phase the board machine is in, with the data owned by
/// that phase alone.
#[derive(Clone, Copy, PartialEq, Eq, Structural, Debug)]
pub enum Phase {
    Basic,
    PredragBlocks { clicked_block: Id, selection_modifier: SelectionModifier },
    DraggingBlocks,
    RectangleSelection { start: BoardCoords, end: BoardCoords },
    ArrowCreation { stage: StateStages },
}

/// The board interaction state machine: the graph of blocks plus the
/// current phase.  All editing semantics flow through its handlers.
#[derive(Debug)]
pub struct State {
    pub graph: Graph,
    pub phase: Phase,
}

/// Mathematical model of the machine: graph model, id watermark, phase.
#[verifier::ext_equal]
pub ghost struct StateView {
    pub g: GraphView,
    pub last: Id,
    pub phase: Phase,
}

impl State {
    pub open spec fn view_spec(self) -> StateView {
        StateView { g: self.graph@, last: self.graph.id_gen.last, phase: self.phase }
    }

    pub open spec fn wf(self) -> bool {
        self.graph.wf()
    }

    pub fn new() -> (r: Self)
        ensures
            r.wf(),
            r.view_spec().g == GraphView::empty(),
            r.view_spec().last == 0,
            r.phase == Phase::Basic,
    {
        State { graph: Graph::new(), phase: Phase::Basic }
    }
}

impl Default for State {
    fn default() -> (r: Self)
        ensures
            r.wf(),
            r.view_spec().g == GraphView::empty(),
            r.view_spec().last == 0,
            r.phase == Phase::Basic,
    {
        State::new()
    }
}

/// Model of a finished move event: what the graph and phase become when
/// the cursor moves by `delta` (in board space) to `new_pos`.
pub open spec fn spec_handle_mouse_move(
    s: StateView,
    new_pos: BoardCoords,
    delta: BoardCoords,
) -> (StateView, bool) {
    match s.phase {
        Phase::PredragBlocks { .. } => (
            StateView { g: spec_move_selected(s.g, delta), phase: Phase::DraggingBlocks, ..s },
            true,
        ),
        Phase::DraggingBlocks => (
            StateView { g: spec_move_selected(s.g, delta), phase: Phase::DraggingBlocks, ..s },
            true,
        ),
        Phase::RectangleSelection { start, .. } => (
            StateView {
                g: spec_select_rect(s.g, start, new_pos),
                phase: Phase::RectangleSelection { start, end: new_pos },
                ..s
            },
            true,
        ),
        _ => (s, false),
    }
}

/// Model of a left mouse press on empty canvas: from Basic, clear the
/// selection and open a zero-area marquee at the press point.
pub open spec fn spec_handle_left_press(s: StateView, cursor: BoardCoords) -> (StateView, bool) {
    match s.phase {
        Phase::Basic => (
            StateView {
                g: spec_clear_selection(s.g),
                phase: Phase::RectangleSelection { start: cursor, end: cursor },
                ..s
            },
            false,
        ),
        _ => (s, false),
    }
}

/// Model of the release step of a click-without-drag: with the additive
/// modifier the clicked block is toggled off; without it the clicked block
/// becomes the sole selection.  A stale clicked id leaves the graph as the
/// clearing step alone determines.
pub open spec fn spec_deselect(g: GraphView, clicked: Id, modifier: SelectionModifier) -> GraphView {
    match modifier {
        SelectionModifier::Add => if g.dom().contains(clicked) {
            spec_set_selected(g, clicked, false)
        } else {
            g
        },
        SelectionModifier::Replace => {
            let g1 = spec_clear_selection(g);
            if g1.dom().contains(clicked) {
                spec_set_selected(g1, clicked, true)
            } else {
                g1
            }
        },
    }
}

/// Model of a block press in Basic state: selection is applied immediately;
/// a drag is anticipated (Predrag) except for an additive click on an
/// unselected block, which only adds to the selection.  A stale id is
/// ignored.
pub open spec fn spec_hold_block(
    s: StateView,
    id: Id,
    modifier: SelectionModifier,
) -> (StateView, bool) {
    if !s.g.dom().contains(id) {
        (s, false)
    } else if !s.g[id].data.selected {
        match modifier {
            SelectionModifier::Replace => (
                StateView {
                    g: spec_set_selected(spec_clear_selection(s.g), id, true),
                    phase: Phase::PredragBlocks { clicked_block: id, selection_modifier: modifier },
                    ..s
                },
                true,
            ),
            SelectionModifier::Add => (
                StateView { g: spec_set_selected(s.g, id, true), phase: Phase::Basic, ..s },
                true,
            ),
        }
    } else {
        (
            StateView {
                phase: Phase::PredragBlocks { clicked_block: id, selection_modifier: modifier },
                ..s
            },
            true,
        )
    }
}

/// Model of a block-originated event.
pub open spec fn spec_handle_board_event(s: StateView, be: BlockEvent) -> (StateView, bool) {
    match be {
        BlockEvent::MouseDown { button, modifier, id } => {
            if button != 0 {
                (s, false)
            } else {
                match s.phase {
                    Phase::ArrowCreation { stage: StateStages::Preview { end_block } } => (
                        StateView {
                            phase: Phase::ArrowCreation {
                                stage: StateStages::Finish { end_block },
                            },
                            ..s
                        },
                        true,
                    ),
                    Phase::Basic => spec_hold_block(s, id, modifier),
                    _ => (s, false),
                }
            }
        },
        BlockEvent::MouseOver { id } => match s.phase {
            Phase::ArrowCreation { stage: StateStages::Start } => (
                StateView {
                    phase: Phase::ArrowCreation { stage: StateStages::Preview { end_block: id } },
                    ..s
                },
                true,
            ),
            _ => (s, false),
        },
        BlockEvent::MouseLeave => match s.phase {
            Phase::ArrowCreation { stage: StateStages::Preview { .. } } => (
                StateView { phase: Phase::ArrowCreation { stage: StateStages::Start }, ..s },
                true,
            ),
            _ => (s, false),
        },
    }
}

impl State {
    /// The marquee rectangle while a rectangle selection is in progress.
    pub fn marquee(&self) -> (r: Option<(BoardCoords, BoardCoords)>)
        ensures
            match self.phase {
                Phase::RectangleSelection { start, end } => r == Some((start, end)),
                _ => r is None,
            },
    {
        match self.phase {
            Phase::RectangleSelection { start, end } => Some((start, end)),
            _ => None,
        }
    }

    /// The hovered target while an arrow preview is in progress.
    pub fn preview_target(&self) -> (r: Option<Id>)
        ensures
            match self.phase {
                Phase::ArrowCreation { stage: StateStages::Preview { end_block } } => r == Some(
                    end_block,
                ),
                _ => r is None,
            },
    {
        match self.phase {
            Phase::ArrowCreation { stage: StateStages::Preview { end_block } } => Some(end_block),
            _ => None,
        }
    }

    /// The ghost arrows to draw while previewing: one from each selected
    /// source to the hovered target, in ascending source order.  Empty in
    /// every other phase.
    pub fn preview_edges(&self) -> (r: Vec<crate::graph::Edge>)
        requires
            self.wf(),
        ensures
            match self.phase {
                Phase::ArrowCreation { stage: StateStages::Preview { end_block } } => (forall|
                    e: crate::graph::Edge,
                | #[trigger]
                    r@.contains(e) == (self.graph@.dom().contains(e.0)
                        && self.graph@[e.0].data.selected && e.1 == end_block)) && (forall|
                    p: int,
                    q: int,
                |
                    0 <= p < q < r@.len() ==> r@[p].0 < r@[q].0),
                _ => r@.len() == 0,
            },
    {
        match self.phase {
            Phase::ArrowCreation { stage: StateStages::Preview { end_block } } => {
                let ids = self.graph.selected_ids();
                let n = ids.len();
                let mut r: Vec<crate::graph::Edge> = Vec::new();
                let mut i: usize = 0;
                while i < n
                    invariant
                        n == ids@.len(),
                        0 <= i <= n,
                        r@.len() == i,
                        forall|k: int| 0 <= k < i ==> r@[k] == (ids@[k], end_block),
                        forall|p: int, q: int| 0 <= p < q < n ==> ids@[p] < ids@[q],
                    decreases n - i,
                {
                    r.push((ids[i], end_block));
                    i = i + 1;
                }
                proof {
                    assert forall|e: crate::graph::Edge| #[trigger]
                        r@.contains(e) == (self.graph@.dom().contains(e.0)
                            && self.graph@[e.0].data.selected && e.1 == end_block) by {
                        if r@.contains(e) {
                            let k = choose|k: int| 0 <= k < r@.len() && r@[k] == e;
                            assert(ids@[k] == e.0 && end_block == e.1);
                            assert(ids@.contains(e.0));
                        }
                        if self.graph@.dom().contains(e.0) && self.graph@[e.0].data.selected
                            && e.1 == end_block {
                            assert(ids@.contains(e.0));
                            let k = choose|k: int| 0 <= k < ids@.len() && ids@[k] == e.0;
                            assert(r@[k] == e);
                            assert(r@.contains(e));
                        }
                    }
                }
                r
            },
            _ => Vec::new(),
        }
    }
}

/// Model of a left mouse release: commit a locked arrow target, settle a
/// click-without-drag, end a drag with the selection kept, or finalize a
/// marquee by applying the overlap test once more.
pub open spec fn spec_handle_left_release(s: StateView) -> (StateView, bool) {
    match s.phase {
        Phase::ArrowCreation { stage: StateStages::Finish { end_block } } => (
            StateView { g: spec_commit(s.g, end_block), phase: Phase::Basic, ..s },
            true,
        ),
        Phase::PredragBlocks { clicked_block, selection_modifier } => (
            StateView {
                g: spec_deselect(s.g, clicked_block, selection_modifier),
                phase: Phase::Basic,
                ..s
            },
            true,
        ),
        Phase::DraggingBlocks => (StateView { phase: Phase::Basic, ..s }, true),
        Phase::RectangleSelection { start, end } => (
            StateView { g: spec_select_rect(s.g, start, end), phase: Phase::Basic, ..s },
            true,
        ),
        _ => (s, false),
    }
}

/// Model of a key press.  In Basic: "a" opens arrow creation when anything
/// is selected, "n" places a new block under the cursor, Delete removes
/// the selected blocks; Escape at any arrow-creation stage abandons the
/// gesture.  Every other state/key pair is ignored.
pub open spec fn spec_handle_key(s: StateView, key: Key, cursor: BoardCoords) -> (StateView, bool) {
    match s.phase {
        Phase::Basic => match key {
            Key::A => if exists|k: Id| #[trigger] s.g.dom().contains(k) && s.g[k].data.selected {
                (
                    StateView { phase: Phase::ArrowCreation { stage: StateStages::Start }, ..s },
                    true,
                )
            } else {
                (s, false)
            },
            Key::N => if s.last < i64::MAX {
                (
                    StateView {
                        g: spec_create_block(s.g, (s.last + 1) as Id, cursor),
                        last: (s.last + 1) as Id,
                        phase: Phase::Basic,
                    },
                    true,
                )
            } else {
                (s, false)
            },
            Key::Delete => (StateView { g: spec_remove_selected(s.g), ..s }, true),
            _ => (s, false),
        },
        Phase::ArrowCreation { .. } => match key {
            Key::Escape => (StateView { phase: Phase::Basic, ..s }, false),
            _ => (s, false),
        },
        _ => (s, false),
    }
}

impl State {
    /// Left button released: what happens depends on the phase alone; see
    /// `spec_handle_left_release`.
    pub fn handle_left_mouse_button_release(self) -> (r: (State, bool))
        requires
            self.wf(),
        ensures
            r.0.wf(),
            (r.0.view_spec(), r.1) == spec_handle_left_release(self.view_spec()),
    {
        let State { mut graph, phase } = self;
        match phase {
            Phase::ArrowCreation { stage: StateStages::Finish { end_block } } => {
                graph.commit_edges(end_block);
                (State { graph, phase: Phase::Basic }, true)
            },
            Phase::PredragBlocks { clicked_block, selection_modifier } => {
                match selection_modifier {
                    SelectionModifier::Add => {
                        graph.set_selected(clicked_block, false);
                    },
                    SelectionModifier::Replace => {
                        graph.clear_selection();
                        graph.set_selected(clicked_block, true);
                    },
                }
                (State { graph, phase: Phase::Basic }, true)
            },
            Phase::DraggingBlocks => (State { graph, phase: Phase::Basic }, true),
            Phase::RectangleSelection { start, end } => {
                graph.select_in_rect(start, end);
                (State { graph, phase: Phase::Basic }, true)
            },
            _ => (State { graph, phase }, false),
        }
    }

    /// A key pressed, with the cursor's current board position; see
    /// `spec_handle_key`.
    pub fn handle_key_down(self, key: Key, cursor_pos: BoardCoords) -> (r: (State, bool))
        requires
            self.wf(),
            cursor_pos.in_range(),
        ensures
            r.0.wf(),
            (r.0.view_spec(), r.1) == spec_handle_key(self.view_spec(), key, cursor_pos),
    {
        let State { mut graph, phase } = self;
        match phase {
            Phase::Basic => match key {
                Key::A => {
                    if graph.any_selected() {
                        (
                            State {
                                graph,
                                phase: Phase::ArrowCreation { stage: StateStages::Start },
                            },
                            true,
                        )
                    } else {
                        (State { graph, phase: Phase::Basic }, false)
                    }
                },
                Key::N => {
                    match graph.create_block(cursor_pos) {
                        Option::Some(_) => (State { graph, phase: Phase::Basic }, true),
                        Option::None => (State { graph, phase: Phase::Basic }, false),
                    }
                },
                Key::Delete => {
                    graph.remove_selected();
                    (State { graph, phase: Phase::Basic }, true)
                },
                _ => (State { graph, phase: Phase::Basic }, false),
            },
            Phase::ArrowCreation { stage } => match key {
                Key::Escape => (State { graph, phase: Phase::Basic }, false),
                _ => (State { graph, phase: Phase::ArrowCreation { stage } }, false),
            },
            _ => (State { graph, phase }, false),
        }
    }

    /// Cursor moved: while predragging or dragging, shift the selected
    /// blocks by the board-space delta (a predrag becomes a drag, and the
    /// very move that triggered the transition is applied, so no movement
    /// is lost); while marquee-selecting, grow the marquee to the new
    /// position and re-derive the selection live.  Any other phase ignores
    /// the event.
    pub fn handle_mouse_move(self, old_cursor_pos: BoardCoords, new_cursor_pos: BoardCoords) -> (r:
        (State, bool))
        requires
            self.wf(),
            old_cursor_pos.in_range(),
            new_cursor_pos.in_range(),
        ensures
            r.0.wf(),
            (r.0.view_spec(), r.1) == spec_handle_mouse_move(
                self.view_spec(),
                new_cursor_pos,
                (BoardCoords {
                    x: (new_cursor_pos.x - old_cursor_pos.x) as i64,
                    y: (new_cursor_pos.y - old_cursor_pos.y) as i64,
                }),
            ),
    {
        let State { mut graph, phase } = self;
        match phase {
            Phase::PredragBlocks { .. } => {
                let delta = new_cursor_pos.minus(old_cursor_pos);
                graph.move_selected(delta);
                (State { graph, phase: Phase::DraggingBlocks }, true)
            },
            Phase::DraggingBlocks => {
                let delta = new_cursor_pos.minus(old_cursor_pos);
                graph.move_selected(delta);
                (State { graph, phase: Phase::DraggingBlocks }, true)
            },
            Phase::RectangleSelection { start, .. } => {
                graph.select_in_rect(start, new_cursor_pos);
                (
                    State {
                        graph,
                        phase: Phase::RectangleSelection { start, end: new_cursor_pos },
                    },
                    true,
                )
            },
            _ => (State { graph, phase }, false),
        }
    }

    /// Left button pressed on empty canvas: from Basic, clear the selection
    /// and start a marquee at the cursor.  Ignored in every other phase.
    pub fn handle_left_mouse_button_press(self, cursor_pos: BoardCoords) -> (r: (State, bool))
        requires
            self.wf(),
        ensures
            r.0.wf(),
            (r.0.view_spec(), r.1) == spec_handle_left_press(self.view_spec(), cursor_pos),
    {
        let State { mut graph, phase } = self;
        match phase {
            Phase::Basic => {
                graph.clear_selection();
                (
                    State {
                        graph,
                        phase: Phase::RectangleSelection { start: cursor_pos, end: cursor_pos },
                    },
                    false,
                )
            },
            _ => (State { graph, phase }, false),
        }
    }

    /// A block event: locking an arrow target, entering or leaving an arrow
    /// preview, or pressing a block in Basic state.
    pub fn handle_board_event(self, be: BlockEvent) -> (r: (State, bool))
        requires
            self.wf(),
        ensures
            r.0.wf(),
            (r.0.view_spec(), r.1) == spec_handle_board_event(self.view_spec(), be),
    {
        let State { mut graph, phase } = self;
        match be {
            BlockEvent::MouseDown { button, modifier, id } => {
                if button != 0 {
                    return (State { graph, phase }, false);
                }
                match phase {
                    Phase::ArrowCreation { stage: StateStages::Preview { end_block } } => (
                        State {
                            graph,
                            phase: Phase::ArrowCreation {
                                stage: StateStages::Finish { end_block },
                            },
                        },
                        true,
                    ),
                    Phase::Basic => {
                        match graph.get(id) {
                            Option::None => (State { graph, phase: Phase::Basic }, false),
                            Option::Some(d) => {
                                if !d.selected {
                                    match modifier {
                                        SelectionModifier::Replace => {
                                            graph.clear_selection();
                                            graph.set_selected(id, true);
                                            (
                                                State {
                                                    graph,
                                                    phase: Phase::PredragBlocks {
                                                        clicked_block: id,
                                                        selection_modifier: modifier,
                                                    },
                                                },
                                                true,
                                            )
                                        },
                                        SelectionModifier::Add => {
                                            graph.set_selected(id, true);
                                            (State { graph, phase: Phase::Basic }, true)
                                        },
                                    }
                                } else {
                                    (
                                        State {
                                            graph,
                                            phase: Phase::PredragBlocks {
                                                clicked_block: id,
                                                selection_modifier: modifier,
                                            },
                                        },
                                        true,
                                    )
                                }
                            },
                        }
                    },
                    _ => (State { graph, phase }, false),
                }
            },
            BlockEvent::MouseOver { id } => match phase {
                Phase::ArrowCreation { stage: StateStages::Start } => (
                    State {
                        graph,
                        phase: Phase::ArrowCreation {
                            stage: StateStages::Preview { end_block: id },
                        },
                    },
                    true,
                ),
                _ => (State { graph, phase }, false),
            },
            BlockEvent::MouseLeave => match phase {
                Phase::ArrowCreation { stage: StateStages::Preview { .. } } => (
                    State { graph, phase: Phase::ArrowCreation { stage: StateStages::Start } },
                    true,
                ),
                _ => (State { graph, phase }, false),
            },
        }
    }
}

} // verus!
