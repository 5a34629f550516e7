use vstd::prelude::*;

use crate::coords::{clamped, AppCoords, BoardCoords};
use crate::event::Event;
use crate::state::{
    spec_handle_board_event, spec_handle_key, spec_handle_left_press, spec_handle_left_release,
    spec_handle_mouse_move, State, StateView,
};
use crate::viewbox::{spec_zoomed, Viewbox, ViewboxState};

verus! {

/// Last known cursor position, in viewport space.
#[derive(Clone, Copy, PartialEq, Eq, Structural, Debug)]
pub struct Cursor {
    pub pos: AppCoords,
}

impl Cursor {
    pub fn new() -> (r: Self)
        ensures
            r.pos.x == 0,
            r.pos.y == 0,
    {
        Cursor { pos: AppCoords { x: 0, y: 0 } }
    }

    /// Record a new position; hands back the previous one.
    pub fn update(&mut self, new_pos: AppCoords) -> (r: AppCoords)
        ensures
            final(self).pos == new_pos,
            r == old(self).pos,
    {
        let pos = self.pos;
        self.pos = new_pos;
        pos
    }

    pub fn get(&self) -> (r: AppCoords)
        ensures
            r == self.pos,
    {
        self.pos
    }
}

/// The whole editor: viewport mapping, board interaction machine, cursor.
#[derive(Debug)]
pub struct Editor {
    pub viewbox: ViewboxState,
    pub board: State,
    pub cursor: Cursor,
}

/// Mathematical model of the whole editor.
#[verifier::ext_equal]
pub ghost struct EditorView {
    pub vb: Viewbox,
    pub vb_dragged: bool,
    pub cursor: AppCoords,
    pub board: StateView,
}

/// Model of one editor step: which sub-machine the event reaches and what
/// it does there.  Returns the successor state and whether a redraw is
/// called for.  Events whose cursor position lies outside the accepted
/// pixel range are ignored; so is every event/state pair with no listed
/// meaning — the machine is total.
pub open spec fn spec_update(e: EditorView, ev: Event) -> (EditorView, bool) {
    match ev {
        Event::CursorMove { new_pos } => {
            if !new_pos.in_pixel_range() {
                (e, false)
            } else {
                let ob = e.vb.spec_to_board(e.cursor);
                let nb = e.vb.spec_to_board(new_pos);
                if e.vb_dragged {
                    let vb2 = Viewbox {
                        pos: BoardCoords {
                            x: clamped(e.vb.pos.x + (ob.x - nb.x)) as i64,
                            y: clamped(e.vb.pos.y + (ob.y - nb.y)) as i64,
                        },
                        scale_index: e.vb.scale_index,
                    };
                    ((EditorView { vb: vb2, cursor: new_pos, ..e }), true)
                } else {
                    let br = spec_handle_mouse_move(
                        e.board,
                        nb,
                        (BoardCoords { x: (nb.x - ob.x) as i64, y: (nb.y - ob.y) as i64 }),
                    );
                    ((EditorView { cursor: new_pos, board: br.0, ..e }), br.1)
                }
            }
        },
        Event::MouseDown { button } => {
            if button == 0 {
                let br = spec_handle_left_press(e.board, e.vb.spec_to_board(e.cursor));
                ((EditorView { board: br.0, ..e }), br.1)
            } else if button == 1 {
                ((EditorView { vb_dragged: true, ..e }), false)
            } else {
                (e, false)
            }
        },
        Event::MouseUp { button } => {
            if button == 0 {
                let br = spec_handle_left_release(e.board);
                ((EditorView { board: br.0, ..e }), br.1)
            } else if button == 1 {
                ((EditorView { vb_dragged: false, ..e }), false)
            } else {
                (e, false)
            }
        },
        Event::MouseWheel { delta } => (
            (EditorView { vb: spec_zoomed(e.vb, e.cursor, delta as int), ..e }),
            true,
        ),
        Event::KeyDown { key } => {
            let br = spec_handle_key(e.board, key, e.vb.spec_to_board(e.cursor));
            ((EditorView { board: br.0, ..e }), br.1)
        },
        Event::BoardEvent(be) => {
            let br = spec_handle_board_event(e.board, be);
            ((EditorView { board: br.0, ..e }), br.1)
        },
    }
}

impl Editor {
    pub open spec fn view_spec(self) -> EditorView {
        EditorView {
            vb: self.viewbox.viewbox(),
            vb_dragged: self.viewbox.is_dragged(),
            cursor: self.cursor.pos,
            board: self.board.view_spec(),
        }
    }

    pub open spec fn wf(self) -> bool {
        self.viewbox.wf() && self.board.wf() && self.cursor.pos.in_pixel_range()
    }

    pub fn new() -> (r: Self)
        ensures
            r.wf(),
            r.view_spec().vb == Viewbox::new_spec(),
            !r.view_spec().vb_dragged,
            r.view_spec().cursor == (AppCoords { x: 0, y: 0 }),
            r.view_spec().board.g == Map::<crate::ids::Id, crate::graph::VertexView>::empty(),
            r.view_spec().board.last == 0,
            r.view_spec().board.phase == crate::state::Phase::Basic,
    {
        Editor { viewbox: ViewboxState::new(), board: State::new(), cursor: Cursor::new() }
    }

    /// Process one normalized input event to completion and report whether
    /// a redraw is called for.
    pub fn update(self, ev: Event) -> (r: (Editor, bool))
        requires
            self.wf(),
        ensures
            r.0.wf(),
            (r.0.view_spec(), r.1) == spec_update(self.view_spec(), ev),
    {
        let Editor { mut viewbox, board, mut cursor } = self;
        match ev {
            Event::CursorMove { new_pos } => {
                if !(new_pos.x >= -crate::coords::PIXEL_LIMIT && new_pos.x
                    <= crate::coords::PIXEL_LIMIT && new_pos.y >= -crate::coords::PIXEL_LIMIT
                    && new_pos.y <= crate::coords::PIXEL_LIMIT) {
                    return ((Editor { viewbox, board, cursor }), false);
                }
                let old_value = cursor.update(new_pos);
                let ob = viewbox.to_board_coords(old_value);
                let nb = viewbox.to_board_coords(new_pos);
                if viewbox.dragging() {
                    let delta = ob.minus(nb);
                    viewbox.move_viewbox(delta);
                    ((Editor { viewbox, board, cursor }), true)
                } else {
                    let (b2, rend) = board.handle_mouse_move(ob, nb);
                    ((Editor { viewbox, board: b2, cursor }), rend)
                }
            },
            Event::MouseDown { button } => {
                if button == 0 {
                    let cb = viewbox.to_board_coords(cursor.get());
                    let (b2, rend) = board.handle_left_mouse_button_press(cb);
                    ((Editor { viewbox, board: b2, cursor }), rend)
                } else if button == 1 {
                    let rend = viewbox.handle_middle_mouse_button_press();
                    ((Editor { viewbox, board, cursor }), rend)
                } else {
                    ((Editor { viewbox, board, cursor }), false)
                }
            },
            Event::MouseUp { button } => {
                if button == 0 {
                    let (b2, rend) = board.handle_left_mouse_button_release();
                    ((Editor { viewbox, board: b2, cursor }), rend)
                } else if button == 1 {
                    let rend = viewbox.handle_middle_mouse_button_release();
                    ((Editor { viewbox, board, cursor }), rend)
                } else {
                    ((Editor { viewbox, board, cursor }), false)
                }
            },
            Event::MouseWheel { delta } => {
                viewbox.handle_mouse_wheel(cursor.get(), delta);
                ((Editor { viewbox, board, cursor }), true)
            },
            Event::KeyDown { key } => {
                let cb = viewbox.to_board_coords(cursor.get());
                let (b2, rend) = board.handle_key_down(key, cb);
                ((Editor { viewbox, board: b2, cursor }), rend)
            },
            Event::BoardEvent(be) => {
                let (b2, rend) = board.handle_board_event(be);
                ((Editor { viewbox, board: b2, cursor }), rend)
            },
        }
    }
}

/// Zoom anchor invariant at the editor's boundary: one wheel event never
/// moves the board point under the cursor, wherever the cursor sits in the
/// viewport and whichever way the wheel turns, as long as the pan offset is
/// not within one zoom step's correction of the extreme coordinate range.
pub proof fn lemma_editor_zoom_anchor(e: EditorView, delta: i64)
    requires
        e.vb.scale_index < crate::viewbox::NUM_SCALES,
        e.cursor.in_pixel_range(),
        -(crate::coords::COORD_LIMIT as int) + crate::viewbox::ZOOM_MARGIN as int <= e.vb.pos.x
            as int <= crate::coords::COORD_LIMIT as int - crate::viewbox::ZOOM_MARGIN as int,
        -(crate::coords::COORD_LIMIT as int) + crate::viewbox::ZOOM_MARGIN as int <= e.vb.pos.y
            as int <= crate::coords::COORD_LIMIT as int - crate::viewbox::ZOOM_MARGIN as int,
    ensures
        spec_update(e, Event::MouseWheel { delta }).0.vb.spec_to_board(e.cursor)
            == e.vb.spec_to_board(e.cursor),
{
    crate::viewbox::lemma_zoom_anchor(e.vb, e.cursor, delta as int);
}

impl Default for Editor {
    fn default() -> (r: Self)
        ensures
            r.wf(),
            !r.view_spec().vb_dragged,
            r.view_spec().board.phase == crate::state::Phase::Basic,
    {
        Editor::new()
    }
}

} // verus!
