use vstd::prelude::*;

use crate::coords::BoardCoords;

verus! {

/// The corner pair (top-left, bottom-right) obtained by componentwise
/// min/max normalization of two arbitrary corners.
pub open spec fn spec_sorted_corners(a: BoardCoords, b: BoardCoords) -> (BoardCoords, BoardCoords) {
    (
        BoardCoords {
            x: if a.x <= b.x { a.x } else { b.x },
            y: if a.y <= b.y { a.y } else { b.y },
        },
        BoardCoords {
            x: if a.x <= b.x { b.x } else { a.x },
            y: if a.y <= b.y { b.y } else { a.y },
        },
    )
}

/// Whether the rectangle spanned by corners a1, a2 overlaps the rectangle
/// spanned by corners b1, b2.  Each pair is min/max-normalized first; the
/// rectangles overlap unless one lies entirely to the left, right, above or
/// below the other.  Touching edges count as overlapping.
pub open spec fn spec_rectangles_overlap(
    a1: BoardCoords,
    a2: BoardCoords,
    b1: BoardCoords,
    b2: BoardCoords,
) -> bool {
    let (tl1, br1) = spec_sorted_corners(a1, a2);
    let (tl2, br2) = spec_sorted_corners(b1, b2);
    !(tl1.x > br2.x || tl2.x > br1.x || br1.y < tl2.y || br2.y < tl1.y)
}

/// Normalize two corners to (top-left, bottom-right) by componentwise
/// min/max.
pub fn sort_rectangle_coordinates(first: BoardCoords, second: BoardCoords) -> (r: (
    BoardCoords,
    BoardCoords,
))
    ensures
        r == spec_sorted_corners(first, second),
{
    let top_left = BoardCoords {
        x: if first.x <= second.x {
            first.x
        } else {
            second.x
        },
        y: if first.y <= second.y {
            first.y
        } else {
            second.y
        },
    };
    let bottom_right = BoardCoords {
        x: if first.x <= second.x {
            second.x
        } else {
            first.x
        },
        y: if first.y <= second.y {
            second.y
        } else {
            first.y
        },
    };
    (top_left, bottom_right)
}

/// Axis-aligned bounding-box overlap test on two corner pairs.
pub fn rectangles_overlap(
    first_rect_one: BoardCoords,
    first_rect_two: BoardCoords,
    second_rect_one: BoardCoords,
    second_rect_two: BoardCoords,
) -> (r: bool)
    ensures
        r == spec_rectangles_overlap(first_rect_one, first_rect_two, second_rect_one,
            second_rect_two),
{
    let (top_left_one, bottom_right_one) = sort_rectangle_coordinates(first_rect_one,
        first_rect_two);
    let (top_left_two, bottom_right_two) = sort_rectangle_coordinates(second_rect_one,
        second_rect_two);
    if top_left_one.x > bottom_right_two.x || top_left_two.x > bottom_right_one.x {
        return false;
    }
    if bottom_right_one.y < top_left_two.y || bottom_right_two.y < top_left_one.y {
        return false;
    }
    true
}

/// The overlap test does not depend on the order of the two rectangles.
pub proof fn lemma_overlap_symmetric(
    a1: BoardCoords,
    a2: BoardCoords,
    b1: BoardCoords,
    b2: BoardCoords,
)
    ensures
        spec_rectangles_overlap(a1, a2, b1, b2) == spec_rectangles_overlap(b1, b2, a1, a2),
{
}

/// The overlap test does not depend on the order in which each rectangle's
/// two corners are given.
pub proof fn lemma_overlap_corner_order(
    a1: BoardCoords,
    a2: BoardCoords,
    b1: BoardCoords,
    b2: BoardCoords,
)
    ensures
        spec_rectangles_overlap(a1, a2, b1, b2) == spec_rectangles_overlap(a2, a1, b1, b2),
        spec_rectangles_overlap(a1, a2, b1, b2) == spec_rectangles_overlap(a1, a2, b2, b1),
{
}

/// A zero-area rectangle at point p overlaps a rectangle exactly when p lies
/// within the rectangle's normalized bounds, boundary included.
pub proof fn lemma_point_overlap(p: BoardCoords, b1: BoardCoords, b2: BoardCoords)
    ensures
        spec_rectangles_overlap(p, p, b1, b2) == {
            let (tl, br) = spec_sorted_corners(b1, b2);
            tl.x <= p.x <= br.x && tl.y <= p.y <= br.y
        },
{
}

} // verus!
