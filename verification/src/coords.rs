use vstd::prelude::*;

verus! {

/// Number of board-space subunits in one board unit.
///
/// Board geometry is stored in integer subunits so that every coordinate
/// transform is exact.  The value is the least common multiple of the
/// percentage entries of the zoom table (25, 33, 50, 66, 75, 90, 100, 110,
/// 120, 150, 200, 300, 400), so at every zoom step one viewport pixel spans
/// a whole number of subunits.
pub const SUBUNIT: i64 = 39600;

/// Bound on every stored coordinate component, in subunits.
///
/// Keeping all components inside [-COORD_LIMIT, COORD_LIMIT] leaves ample
/// headroom below i64::MAX for the sums and differences the editor forms,
/// while still covering about 2.9e13 board units in either direction.
pub const COORD_LIMIT: i64 = 0x1000_0000_0000_0000;

/// Bound on viewport (pixel) coordinates accepted from input events.
/// Events whose cursor position lies outside this range are ignored.
pub const PIXEL_LIMIT: i64 = 0x10_0000;

/// Clamp an unbounded integer into the stored coordinate range.
pub open spec fn clamped(v: int) -> int {
    if v > COORD_LIMIT as int {
        COORD_LIMIT as int
    } else if v < -(COORD_LIMIT as int) {
        -(COORD_LIMIT as int)
    } else {
        v
    }
}

/// A coordinate component that may be stored in board state.
pub open spec fn coord_in_range(v: int) -> bool {
    -(COORD_LIMIT as int) <= v <= COORD_LIMIT as int
}

/// Add two components and clamp the result into the stored range.
///
/// The bound on the arguments keeps the intermediate sum inside i64.
pub fn add_clamped(a: i64, b: i64) -> (r: i64)
    requires
        -3 * (COORD_LIMIT as int) <= a as int <= 3 * (COORD_LIMIT as int),
        -3 * (COORD_LIMIT as int) <= b as int <= 3 * (COORD_LIMIT as int),
    ensures
        r as int == clamped(a as int + b as int),
{
    let s: i64 = a + b;
    if s > COORD_LIMIT {
        COORD_LIMIT
    } else if s < -COORD_LIMIT {
        -COORD_LIMIT
    } else {
        s
    }
}

/// A point or displacement in board space, the logical, zoom- and
/// pan-independent coordinate system, measured in subunits.
#[derive(Clone, Copy, PartialEq, Eq, Structural, Debug)]
pub struct BoardCoords {
    pub x: i64,
    pub y: i64,
}

/// A point or displacement in viewport space: raw pixel coordinates as
/// delivered by input events.
#[derive(Clone, Copy, PartialEq, Eq, Structural, Debug)]
pub struct AppCoords {
    pub x: i64,
    pub y: i64,
}

impl BoardCoords {
    /// Both components lie in the stored coordinate range.
    pub open spec fn in_range(self) -> bool {
        coord_in_range(self.x as int) && coord_in_range(self.y as int)
    }

    pub fn new(x: i64, y: i64) -> (r: Self)
        ensures
            r.x == x,
            r.y == y,
    {
        BoardCoords { x, y }
    }

    /// A board point given in whole board units.
    pub fn from_units(x: i64, y: i64) -> (r: Self)
        requires
            -0x100_0000_0000 <= x as int <= 0x100_0000_0000,
            -0x100_0000_0000 <= y as int <= 0x100_0000_0000,
        ensures
            r.x as int == x as int * SUBUNIT as int,
            r.y as int == y as int * SUBUNIT as int,
            r.in_range(),
    {
        BoardCoords { x: x * SUBUNIT, y: y * SUBUNIT }
    }

    pub fn x(&self) -> (r: i64)
        ensures
            r == self.x,
    {
        self.x
    }

    pub fn y(&self) -> (r: i64)
        ensures
            r == self.y,
    {
        self.y
    }

    /// Componentwise sum, exact; the caller must know it fits.
    pub fn plus(self, o: Self) -> (r: Self)
        requires
            i64::MIN <= self.x as int + o.x as int <= i64::MAX,
            i64::MIN <= self.y as int + o.y as int <= i64::MAX,
        ensures
            r.x as int == self.x as int + o.x as int,
            r.y as int == self.y as int + o.y as int,
    {
        BoardCoords { x: self.x + o.x, y: self.y + o.y }
    }

    /// Componentwise difference, exact; the caller must know it fits.
    pub fn minus(self, o: Self) -> (r: Self)
        requires
            i64::MIN <= self.x as int - o.x as int <= i64::MAX,
            i64::MIN <= self.y as int - o.y as int <= i64::MAX,
        ensures
            r.x as int == self.x as int - o.x as int,
            r.y as int == self.y as int - o.y as int,
    {
        BoardCoords { x: self.x - o.x, y: self.y - o.y }
    }

    /// Componentwise sum clamped into the stored coordinate range.
    pub fn plus_clamped(self, o: Self) -> (r: Self)
        requires
            -3 * (COORD_LIMIT as int) <= self.x as int <= 3 * (COORD_LIMIT as int),
            -3 * (COORD_LIMIT as int) <= self.y as int <= 3 * (COORD_LIMIT as int),
            -3 * (COORD_LIMIT as int) <= o.x as int <= 3 * (COORD_LIMIT as int),
            -3 * (COORD_LIMIT as int) <= o.y as int <= 3 * (COORD_LIMIT as int),
        ensures
            r.x as int == clamped(self.x as int + o.x as int),
            r.y as int == clamped(self.y as int + o.y as int),
            r.in_range(),
    {
        BoardCoords { x: add_clamped(self.x, o.x), y: add_clamped(self.y, o.y) }
    }
}

impl AppCoords {
    /// Both components lie in the accepted viewport pixel range.
    pub open spec fn in_pixel_range(self) -> bool {
        -(PIXEL_LIMIT as int) <= self.x as int <= PIXEL_LIMIT as int
            && -(PIXEL_LIMIT as int) <= self.y as int <= PIXEL_LIMIT as int
    }

    pub fn new(x: i64, y: i64) -> (r: Self)
        ensures
            r.x == x,
            r.y == y,
    {
        AppCoords { x, y }
    }

    pub fn x(&self) -> (r: i64)
        ensures
            r == self.x,
    {
        self.x
    }

    pub fn y(&self) -> (r: i64)
        ensures
            r == self.y,
    {
        self.y
    }
}

} // verus!
