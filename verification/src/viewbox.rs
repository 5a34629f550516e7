use vstd::prelude::*;

use crate::coords::{
    add_clamped, clamped, AppCoords, BoardCoords, COORD_LIMIT, PIXEL_LIMIT,
};

verus! {

/// Number of discrete zoom steps.
pub const NUM_SCALES: usize = 13;

/// Zoom step the editor starts at: scale 1.0, one board unit per pixel.
pub const DEFAULT_SCALE_INDEX: usize = 6;

/// Margin kept free below COORD_LIMIT so that one zoom step's anchor
/// correction can never be clamped (it is bounded by two pixel spans of a
/// full viewport, well under 2^40).
pub const ZOOM_MARGIN: i64 = 0x100_0000_0000;

/// Board subunits spanned by one viewport pixel at each zoom step.
///
/// The table realizes the zoom factors 0.25, 0.33, 0.5, 0.66, 0.75, 0.9,
/// 1.0, 1.1, 1.2, 1.5, 2.0, 3.0, 4.0 exactly: the entry for factor f/100 is
/// 100 * SUBUNIT / f, a whole number for every listed factor.  Smaller
/// indices span more board per pixel (zoomed out).
pub open spec fn spec_pixel_span(i: int) -> int {
    if i <= 0 {
        158400
    } else if i == 1 {
        120000
    } else if i == 2 {
        79200
    } else if i == 3 {
        60000
    } else if i == 4 {
        52800
    } else if i == 5 {
        44000
    } else if i == 6 {
        39600
    } else if i == 7 {
        36000
    } else if i == 8 {
        33000
    } else if i == 9 {
        26400
    } else if i == 10 {
        19800
    } else if i == 11 {
        13200
    } else {
        9900
    }
}

pub fn pixel_span(i: usize) -> (r: i64)
    requires
        i < NUM_SCALES,
    ensures
        r as int == spec_pixel_span(i as int),
        9900 <= r <= 158400,
{
    if i == 0 {
        158400
    } else if i == 1 {
        120000
    } else if i == 2 {
        79200
    } else if i == 3 {
        60000
    } else if i == 4 {
        52800
    } else if i == 5 {
        44000
    } else if i == 6 {
        39600
    } else if i == 7 {
        36000
    } else if i == 8 {
        33000
    } else if i == 9 {
        26400
    } else if i == 10 {
        19800
    } else if i == 11 {
        13200
    } else {
        9900
    }
}

/// The viewport-to-board mapping: the board point at the viewport's
/// top-left corner, and the current zoom step.
#[derive(Clone, Copy, PartialEq, Eq, Structural, Debug)]
pub struct Viewbox {
    pub pos: BoardCoords,
    pub scale_index: usize,
}

/// Zoom step after one wheel event: a positive delta steps toward index 0,
/// a negative one toward the last index, both clamped at the table bounds.
pub open spec fn spec_zoom_index(i: int, factor: int) -> int {
    if factor > 0 && i > 0 {
        i - 1
    } else if factor < 0 && i < NUM_SCALES - 1 {
        i + 1
    } else {
        i
    }
}

/// The whole viewbox after one anchored zoom step: the scale index moves by
/// one step, and the pan offset is corrected so the board point under the
/// cursor stays put.
pub open spec fn spec_zoomed(vb: Viewbox, cursor: AppCoords, factor: int) -> Viewbox {
    let vb1 = Viewbox {
        pos: vb.pos,
        scale_index: spec_zoom_index(vb.scale_index as int, factor) as usize,
    };
    let cb = vb.spec_to_board(cursor);
    let nb = vb1.spec_to_board(cursor);
    Viewbox {
        pos: BoardCoords {
            x: clamped(vb.pos.x + (cb.x - nb.x)) as i64,
            y: clamped(vb.pos.y + (cb.y - nb.y)) as i64,
        },
        scale_index: vb1.scale_index,
    }
}

impl Viewbox {
    pub open spec fn wf(self) -> bool {
        self.pos.in_range() && self.scale_index < NUM_SCALES
    }

    /// The board point under a viewport point: pixels times the current
    /// span, shifted by the pan offset, clamped into the stored range.
    pub open spec fn spec_to_board(self, p: AppCoords) -> BoardCoords {
        BoardCoords {
            x: clamped(p.x * spec_pixel_span(self.scale_index as int) + self.pos.x) as i64,
            y: clamped(p.y * spec_pixel_span(self.scale_index as int) + self.pos.y) as i64,
        }
    }

    pub fn new() -> (r: Self)
        ensures
            r.wf(),
            r == Viewbox::new_spec(),
            r.pos.x == 0,
            r.pos.y == 0,
            r.scale_index == DEFAULT_SCALE_INDEX,
    {
        Viewbox { pos: BoardCoords { x: 0, y: 0 }, scale_index: DEFAULT_SCALE_INDEX }
    }

    pub fn to_board_coords(&self, p: AppCoords) -> (r: BoardCoords)
        requires
            self.wf(),
            p.in_pixel_range(),
        ensures
            r == self.spec_to_board(p),
            r.in_range(),
    {
        let m = pixel_span(self.scale_index);
        proof {
            lemma_span_product_bounded(p.x as int, m as int);
            lemma_span_product_bounded(p.y as int, m as int);
        }
        BoardCoords { x: add_clamped(p.x * m, self.pos.x), y: add_clamped(p.y * m, self.pos.y) }
    }

    /// Inverse transform, exposed for completeness: the viewport point of a
    /// board point, rounding each component down to the next pixel.
    pub fn to_app_coords(&self, b: BoardCoords) -> (r: AppCoords)
        requires
            self.wf(),
            b.in_range(),
        ensures
            r.x as int == (b.x - self.pos.x) as int / spec_pixel_span(self.scale_index as int),
            r.y as int == (b.y - self.pos.y) as int / spec_pixel_span(self.scale_index as int),
    {
        let m = pixel_span(self.scale_index);
        AppCoords { x: div_floor(b.x - self.pos.x, m), y: div_floor(b.y - self.pos.y, m) }
    }

    /// The board-space rectangle shown by a viewport of the given pixel
    /// size: origin x, origin y, width, height, all in board subunits.
    pub fn make_viewbox_tuple(&self, window: AppCoords) -> (r: (i64, i64, i64, i64))
        requires
            self.wf(),
            window.in_pixel_range(),
        ensures
            r.0 == self.pos.x,
            r.1 == self.pos.y,
            r.2 as int == window.x * spec_pixel_span(self.scale_index as int),
            r.3 as int == window.y * spec_pixel_span(self.scale_index as int),
    {
        let m = pixel_span(self.scale_index);
        proof {
            lemma_span_product_bounded(window.x as int, m as int);
            lemma_span_product_bounded(window.y as int, m as int);
        }
        (self.pos.x, self.pos.y, window.x * m, window.y * m)
    }

    /// Pan by a board-space displacement, clamped into the stored range.
    pub fn move_box(&mut self, delta: BoardCoords)
        requires
            old(self).wf(),
            -3 * (COORD_LIMIT as int) <= delta.x as int <= 3 * (COORD_LIMIT as int),
            -3 * (COORD_LIMIT as int) <= delta.y as int <= 3 * (COORD_LIMIT as int),
        ensures
            final(self).wf(),
            final(self).scale_index == old(self).scale_index,
            final(self).pos.x as int == clamped(old(self).pos.x + delta.x),
            final(self).pos.y as int == clamped(old(self).pos.y + delta.y),
    {
        self.pos = self.pos.plus_clamped(delta);
    }

    /// One anchored zoom step at the given cursor position.  The wheel
    /// delta only matters through its sign.
    pub fn scale(&mut self, cursor: AppCoords, factor: i64)
        requires
            old(self).wf(),
            cursor.in_pixel_range(),
        ensures
            final(self).wf(),
            *final(self) == spec_zoomed(*old(self), cursor, factor as int),
    {
        let cursor_board = self.to_board_coords(cursor);
        if factor > 0 && self.scale_index > 0 {
            self.scale_index = self.scale_index - 1;
        } else if factor < 0 && self.scale_index < NUM_SCALES - 1 {
            self.scale_index = self.scale_index + 1;
        }
        let new_cursor_board = self.to_board_coords(cursor);
        let adj = cursor_board.minus(new_cursor_board);
        self.pos = self.pos.plus_clamped(adj);
    }
}

impl Default for Viewbox {
    fn default() -> (r: Self)
        ensures
            r.wf(),
            r.pos.x == 0,
            r.pos.y == 0,
            r.scale_index == DEFAULT_SCALE_INDEX,
    {
        Viewbox::new()
    }
}

/// A pixel coordinate times a table span stays well below 2^38.
proof fn lemma_span_product_bounded(p: int, m: int)
    requires
        -(PIXEL_LIMIT as int) <= p <= PIXEL_LIMIT as int,
        9900 <= m <= 158400,
    ensures
        -0x4000_0000_0000 <= p * m <= 0x4000_0000_0000,
{
    assert(-0x4000_0000_0000 <= p * m <= 0x4000_0000_0000) by (nonlinear_arith)
        requires
            -(PIXEL_LIMIT as int) <= p <= PIXEL_LIMIT as int,
            9900 <= m <= 158400,
    ;
}

/// Floor division of a coordinate difference by a positive span.
fn div_floor(d: i64, m: i64) -> (q: i64)
    requires
        1 <= m as int <= 158400,
        -4 * (COORD_LIMIT as int) <= d as int <= 4 * (COORD_LIMIT as int),
    ensures
        q as int == d as int / m as int,
{
    if d >= 0 {
        let du: u64 = d as u64;
        let mu: u64 = m as u64;
        let qu: u64 = du / mu;
        qu as i64
    } else {
        let du: u64 = (-d) as u64;
        let mu: u64 = m as u64;
        let qu: u64 = (du + (mu - 1)) / mu;
        proof {
            lemma_neg_div(d as int, m as int, qu as int);
        }
        -(qu as i64)
    }
}

/// Rounding the magnitude of a negative dividend up gives Euclidean
/// division after negation.
proof fn lemma_neg_div(d: int, m: int, qu: int)
    requires
        d < 0,
        1 <= m,
        qu == (m - 1 - d) / m,
    ensures
        -qu == d / m,
{
    let r = (m - 1 - d) % m;
    assert(m * qu + r == m - 1 - d) by (nonlinear_arith)
        requires
            1 <= m,
            qu == (m - 1 - d) / m,
            r == (m - 1 - d) % m,
    ;
    assert(0 <= r < m);
    let r2 = m - 1 - r;
    assert(m * (-qu) == -(m * qu)) by (nonlinear_arith);
    assert(m * (-qu) + r2 == d);
    assert(0 <= r2 < m);
    assert(d / m == -qu && d % m == r2) by (nonlinear_arith)
        requires
            1 <= m,
            m * (-qu) + r2 == d,
            0 <= r2 < m,
    ;
}

/// The viewbox's own small state machine: idle, or panning with the middle
/// mouse button held.
#[derive(Clone, Copy, PartialEq, Eq, Structural, Debug)]
pub enum ViewboxState {
    Basic(Viewbox),
    Dragged(Viewbox),
}

impl ViewboxState {
    /// The viewbox carried by either state.
    pub open spec fn viewbox(self) -> Viewbox {
        match self {
            ViewboxState::Basic(v) => v,
            ViewboxState::Dragged(v) => v,
        }
    }

    pub open spec fn is_dragged(self) -> bool {
        self is Dragged
    }

    pub open spec fn wf(self) -> bool {
        self.viewbox().wf()
    }

    pub fn new() -> (r: Self)
        ensures
            r.wf(),
            !r.is_dragged(),
            r.viewbox() == Viewbox::new_spec(),
    {
        ViewboxState::Basic(Viewbox::new())
    }

    pub fn dragging(&self) -> (r: bool)
        ensures
            r == self.is_dragged(),
    {
        match self {
            ViewboxState::Basic(_) => false,
            ViewboxState::Dragged(_) => true,
        }
    }

    pub fn get_viewbox(&self) -> (r: Viewbox)
        ensures
            r == self.viewbox(),
    {
        match self {
            ViewboxState::Basic(v) => *v,
            ViewboxState::Dragged(v) => *v,
        }
    }

    pub fn to_board_coords(&self, p: AppCoords) -> (r: BoardCoords)
        requires
            self.wf(),
            p.in_pixel_range(),
        ensures
            r == self.viewbox().spec_to_board(p),
            r.in_range(),
    {
        self.get_viewbox().to_board_coords(p)
    }

    /// Middle button pressed: start panning.  Pressing while already
    /// panning changes nothing.  Never triggers a redraw.
    pub fn handle_middle_mouse_button_press(&mut self) -> (r: bool)
        ensures
            final(self).viewbox() == old(self).viewbox(),
            final(self).is_dragged(),
            r == false,
    {
        let vb = self.get_viewbox();
        *self = ViewboxState::Dragged(vb);
        false
    }

    /// Middle button released: stop panning.  Releasing while idle changes
    /// nothing.  Never triggers a redraw.
    pub fn handle_middle_mouse_button_release(&mut self) -> (r: bool)
        ensures
            final(self).viewbox() == old(self).viewbox(),
            !final(self).is_dragged(),
            r == false,
    {
        let vb = self.get_viewbox();
        *self = ViewboxState::Basic(vb);
        false
    }

    /// One anchored zoom step; works in either sub-state.
    pub fn zoom_at_cursor(&mut self, cursor_pos: AppCoords, factor: i64)
        requires
            old(self).wf(),
            cursor_pos.in_pixel_range(),
        ensures
            final(self).wf(),
            final(self).is_dragged() == old(self).is_dragged(),
            final(self).viewbox() == spec_zoomed(old(self).viewbox(), cursor_pos, factor as int),
    {
        let r = self.handle_mouse_wheel(cursor_pos, factor);
    }

    /// One anchored zoom step; works in either sub-state.
    pub fn handle_mouse_wheel(&mut self, cursor: AppCoords, delta: i64) -> (r: bool)
        requires
            old(self).wf(),
            cursor.in_pixel_range(),
        ensures
            final(self).wf(),
            final(self).is_dragged() == old(self).is_dragged(),
            final(self).viewbox() == spec_zoomed(old(self).viewbox(), cursor, delta as int),
            r == true,
    {
        let mut vb = self.get_viewbox();
        vb.scale(cursor, delta);
        if self.dragging() {
            *self = ViewboxState::Dragged(vb);
        } else {
            *self = ViewboxState::Basic(vb);
        }
        true
    }

    /// Pan by a board-space displacement, whichever sub-state holds.
    pub fn move_viewbox(&mut self, delta: BoardCoords)
        requires
            old(self).wf(),
            -3 * (COORD_LIMIT as int) <= delta.x as int <= 3 * (COORD_LIMIT as int),
            -3 * (COORD_LIMIT as int) <= delta.y as int <= 3 * (COORD_LIMIT as int),
        ensures
            final(self).wf(),
            final(self).is_dragged() == old(self).is_dragged(),
            final(self).viewbox().scale_index == old(self).viewbox().scale_index,
            final(self).viewbox().pos.x as int == clamped(
                old(self).viewbox().pos.x + delta.x,
            ),
            final(self).viewbox().pos.y as int == clamped(
                old(self).viewbox().pos.y + delta.y,
            ),
    {
        let mut vb = self.get_viewbox();
        vb.move_box(delta);
        if self.dragging() {
            *self = ViewboxState::Dragged(vb);
        } else {
            *self = ViewboxState::Basic(vb);
        }
    }
}

impl Viewbox {
    /// The starting viewbox: origin at the top-left, default zoom.
    pub open spec fn new_spec() -> Viewbox {
        Viewbox { pos: BoardCoords { x: 0, y: 0 }, scale_index: DEFAULT_SCALE_INDEX }
    }
}

/// Zoom anchor invariant: away from the extreme edge of the coordinate
/// range, the board point under the cursor is identical before and after a
/// single wheel step, whichever direction it goes and whether or not the
/// step was clamped at the end of the zoom table.
pub proof fn lemma_zoom_anchor(vb: Viewbox, cursor: AppCoords, factor: int)
    requires
        vb.scale_index < NUM_SCALES,
        cursor.in_pixel_range(),
        -(COORD_LIMIT as int) + ZOOM_MARGIN as int <= vb.pos.x as int <= COORD_LIMIT as int
            - ZOOM_MARGIN as int,
        -(COORD_LIMIT as int) + ZOOM_MARGIN as int <= vb.pos.y as int <= COORD_LIMIT as int
            - ZOOM_MARGIN as int,
    ensures
        spec_zoomed(vb, cursor, factor).spec_to_board(cursor) == vb.spec_to_board(cursor),
{
    let vb2 = spec_zoomed(vb, cursor, factor);
    let m0 = spec_pixel_span(vb.scale_index as int);
    let m1 = spec_pixel_span(vb2.scale_index as int);
    lemma_span_product_bounded(cursor.x as int, m0);
    lemma_span_product_bounded(cursor.y as int, m0);
    lemma_span_product_bounded(cursor.x as int, m1);
    lemma_span_product_bounded(cursor.y as int, m1);
}

} // verus!
