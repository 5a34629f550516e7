use board_editor::arrow::Arrow;
use board_editor::block::{block_size, StateDump, VertexData, BLOCK_HALF_SPAN};
use board_editor::coords::{add_clamped, AppCoords, BoardCoords, COORD_LIMIT, SUBUNIT};
use board_editor::graph::Graph;
use board_editor::rect::{rectangles_overlap, sort_rectangle_coordinates};
use board_editor::viewbox::{Viewbox, ViewboxState, DEFAULT_SCALE_INDEX, NUM_SCALES};

fn units(x: i64, y: i64) -> BoardCoords {
    BoardCoords::from_units(x, y)
}

#[test]
fn board_coords_arithmetic_is_exact() {
    let a = BoardCoords::new(10, -3);
    let b = BoardCoords::new(5, 8);
    assert_eq!(a.plus(b), BoardCoords::new(15, 5));
    assert_eq!(a.minus(b), BoardCoords::new(5, -11));
    assert_eq!(units(2, 3), BoardCoords::new(2 * SUBUNIT, 3 * SUBUNIT));
}

#[test]
fn clamped_addition_saturates_at_the_coordinate_limit() {
    assert_eq!(add_clamped(COORD_LIMIT, 5), COORD_LIMIT);
    assert_eq!(add_clamped(-COORD_LIMIT, -5), -COORD_LIMIT);
    assert_eq!(add_clamped(100, 23), 123);
}

#[test]
fn sorting_normalizes_any_corner_order() {
    let (tl, br) = sort_rectangle_coordinates(BoardCoords::new(10, -2), BoardCoords::new(-5, 7));
    assert_eq!(tl, BoardCoords::new(-5, -2));
    assert_eq!(br, BoardCoords::new(10, 7));
}

#[test]
fn overlap_is_symmetric_on_samples() {
    let cases = [
        (
            BoardCoords::new(0, 0),
            BoardCoords::new(10, 10),
            BoardCoords::new(5, 5),
            BoardCoords::new(20, 20),
        ),
        (
            BoardCoords::new(0, 0),
            BoardCoords::new(10, 10),
            BoardCoords::new(11, 11),
            BoardCoords::new(20, 20),
        ),
        (
            BoardCoords::new(3, 9),
            BoardCoords::new(-4, -1),
            BoardCoords::new(2, 2),
            BoardCoords::new(2, 2),
        ),
    ];
    for (a1, a2, b1, b2) in cases {
        assert_eq!(
            rectangles_overlap(a1, a2, b1, b2),
            rectangles_overlap(b1, b2, a1, a2),
            "overlap must not depend on argument order"
        );
        assert_eq!(
            rectangles_overlap(a1, a2, b1, b2),
            rectangles_overlap(a2, a1, b2, b1),
            "overlap must not depend on corner order"
        );
    }
}

#[test]
fn touching_edges_count_as_overlapping() {
    let a1 = BoardCoords::new(0, 0);
    let a2 = BoardCoords::new(10, 10);
    assert!(rectangles_overlap(a1, a2, BoardCoords::new(10, 0), BoardCoords::new(20, 10)));
    assert!(rectangles_overlap(a1, a2, BoardCoords::new(0, 10), BoardCoords::new(10, 20)));
    assert!(!rectangles_overlap(a1, a2, BoardCoords::new(11, 0), BoardCoords::new(20, 10)));
}

#[test]
fn point_overlaps_rectangle_iff_inside_inclusive() {
    let b1 = BoardCoords::new(0, 0);
    let b2 = BoardCoords::new(10, 10);
    for (px, py, expect) in [
        (5, 5, true),
        (0, 0, true),
        (10, 10, true),
        (0, 10, true),
        (11, 5, false),
        (5, -1, false),
    ] {
        let p = BoardCoords::new(px, py);
        assert_eq!(rectangles_overlap(p, p, b1, b2), expect, "point ({px},{py})");
    }
}

#[test]
fn block_geometry_is_centered_and_sized() {
    assert_eq!(block_size().x, 150 * SUBUNIT);
    assert_eq!(block_size().y, 150 * SUBUNIT);
    let dump = StateDump::new(1, VertexData::from(units(100, 100)));
    assert_eq!(dump.top_left(), units(25, 25));
    assert_eq!(dump.bottom_right(), units(175, 175));
    assert_eq!(dump.center(), units(100, 100));
    assert_eq!(BLOCK_HALF_SPAN, 75 * SUBUNIT);
}

#[test]
fn default_viewbox_maps_pixels_to_board_units() {
    let vb = Viewbox::new();
    assert_eq!(vb.scale_index, DEFAULT_SCALE_INDEX);
    let b = vb.to_board_coords(AppCoords::new(300, -7));
    assert_eq!(b, units(300, -7));
}

#[test]
fn pan_shifts_the_transform() {
    let mut vb = Viewbox::new();
    vb.move_box(units(10, 20));
    assert_eq!(vb.pos, units(10, 20));
    assert_eq!(vb.to_board_coords(AppCoords::new(0, 0)), units(10, 20));
    assert_eq!(vb.to_board_coords(AppCoords::new(5, 5)), units(15, 25));
}

#[test]
fn to_app_coords_inverts_the_default_transform() {
    let mut vb = Viewbox::new();
    vb.move_box(units(10, 20));
    let b = vb.to_board_coords(AppCoords::new(123, -45));
    let back = vb.to_app_coords(b);
    assert_eq!(back, AppCoords::new(123, -45));
}

#[test]
fn wheel_up_steps_toward_index_zero_and_down_back() {
    let mut vb = Viewbox::new();
    vb.scale(AppCoords::new(0, 0), 1);
    assert_eq!(vb.scale_index, DEFAULT_SCALE_INDEX - 1);
    vb.scale(AppCoords::new(0, 0), -1);
    assert_eq!(vb.scale_index, DEFAULT_SCALE_INDEX);
    vb.scale(AppCoords::new(0, 0), 0);
    assert_eq!(vb.scale_index, DEFAULT_SCALE_INDEX, "zero delta does not zoom");
}

#[test]
fn zoom_clamps_at_both_ends_of_the_table() {
    let mut vb = Viewbox::new();
    for _ in 0..20 {
        vb.scale(AppCoords::new(50, 50), 1);
    }
    assert_eq!(vb.scale_index, 0);
    let pos = vb.pos;
    vb.scale(AppCoords::new(50, 50), 1);
    assert_eq!(vb.scale_index, 0);
    assert_eq!(vb.pos, pos, "clamped zoom moves nothing");
    for _ in 0..30 {
        vb.scale(AppCoords::new(50, 50), -1);
    }
    assert_eq!(vb.scale_index, NUM_SCALES - 1);
}

#[test]
fn zoom_keeps_the_board_point_under_the_cursor() {
    let cursors = [
        AppCoords::new(0, 0),
        AppCoords::new(640, 480),
        AppCoords::new(-17, 1000),
    ];
    let mut vb = Viewbox::new();
    vb.move_box(units(37, -12));
    for c in cursors {
        for delta in [1i64, -1, 1, 1, -1, -1, -1, 1] {
            let before = vb.to_board_coords(c);
            vb.scale(c, delta);
            let after = vb.to_board_coords(c);
            assert_eq!(before, after, "anchor must not move under the cursor");
        }
    }
}

#[test]
fn viewbox_tuple_reports_origin_and_span() {
    let mut vb = Viewbox::new();
    vb.move_box(units(3, 4));
    let (x, y, w, h) = vb.make_viewbox_tuple(AppCoords::new(800, 600));
    assert_eq!(x, 3 * SUBUNIT);
    assert_eq!(y, 4 * SUBUNIT);
    assert_eq!(w, 800 * SUBUNIT);
    assert_eq!(h, 600 * SUBUNIT);
    vb.scale(AppCoords::new(0, 0), -1);
    let (_, _, w2, _) = vb.make_viewbox_tuple(AppCoords::new(800, 600));
    assert_eq!(w2, 800 * 36000, "one step down the table: 36000 subunits per pixel");
}

#[test]
fn viewbox_state_tracks_dragging() {
    let mut s = ViewboxState::new();
    assert!(!s.dragging());
    assert!(!s.handle_middle_mouse_button_press());
    assert!(s.dragging());
    assert!(!s.handle_middle_mouse_button_release());
    assert!(!s.dragging());
}

#[test]
fn viewbox_state_zooms_in_either_substate() {
    let mut s = ViewboxState::new();
    s.handle_middle_mouse_button_press();
    assert!(s.handle_mouse_wheel(AppCoords::new(10, 10), -3));
    assert!(s.dragging());
    assert_eq!(s.get_viewbox().scale_index, DEFAULT_SCALE_INDEX + 1);
}

#[test]
fn arrow_control_points_sit_on_the_block_edges() {
    let mut g = Graph::new();
    let a = g.new_vertex(VertexData::from(units(0, 0))).unwrap();
    let b = g.new_vertex(VertexData::from(units(300, 0))).unwrap();
    g.add_edge(a, b).unwrap();
    let arrow = Arrow::from((a, b), &g, false).expect("both endpoints live");
    assert!(!arrow.preview);
    let out = arrow.control_point_out(&g).unwrap();
    assert_eq!(out.point, units(75, 0));
    assert_eq!(out.vector, units(75, 0));
    let inp = arrow.control_point_in(&g).unwrap();
    assert_eq!(inp.point, units(225, 0));
    assert_eq!(inp.vector, units(-75, 0));
    assert!(Arrow::from((a, 99), &g, false).is_none());
}
