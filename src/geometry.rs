use vstd::prelude::*;

verus! {

/// Sub-pixel units in one pixel.
pub const AU_PER_PX: i32 = 60;

/// Whole pixels of a length, rounding toward zero.
pub open spec fn trunc_px(a: int) -> int {
    if a >= 0 {
        a / 60
    } else {
        -((-a) / 60)
    }
}

/// Whole pixels of a length, rounding up.
pub open spec fn ceil_px(a: int) -> int {
    (a + 59) / 60
}

/// A signed length in sub-pixel units (sixtieths of a pixel).
#[derive(Clone, Copy, Debug, PartialEq, Eq, Hash, Structural)]
pub struct Au(pub i32);

impl Au {
    /// The length of `px` whole pixels.
    pub fn from_px(px: i32) -> (r: Au)
        requires
            -35791394 <= px <= 35791394,
        ensures
            r.0 == px * 60,
    {
        Au(px * AU_PER_PX)
    }

    /// Whole pixels, rounding toward zero.
    pub fn to_px(self) -> (r: i32)
        ensures
            r == trunc_px(self.0 as int),
    {
        self.0 / AU_PER_PX
    }

    /// Whole pixels, rounding up.
    pub fn ceil_to_px(self) -> (r: i32)
        ensures
            r == ceil_px(self.0 as int),
    {
        let q = self.0 / AU_PER_PX;
        if self.0 % AU_PER_PX > 0 {
            q + 1
        } else {
            q
        }
    }
}

/// An axis-aligned rectangle: origin and extent, in sub-pixel units.
/// Two rectangles are equal when all four coordinates are.
#[derive(Clone, Copy, Debug, PartialEq, Eq, Hash, Structural)]
pub struct Rect {
    pub x: Au,
    pub y: Au,
    pub width: Au,
    pub height: Au,
}

/// A position, in sub-pixel units.
#[derive(Clone, Copy, Debug, PartialEq, Eq, Hash, Structural)]
pub struct Point {
    pub x: Au,
    pub y: Au,
}

/// Whether `p` lies in `r`, all four edges included.
pub open spec fn spec_contains(r: Rect, p: Point) -> bool {
    &&& r.x.0 <= p.x.0 <= r.x.0 + r.width.0
    &&& r.y.0 <= p.y.0 <= r.y.0 + r.height.0
}

impl Rect {
    pub fn new(x: Au, y: Au, width: Au, height: Au) -> (r: Rect)
        ensures
            r == (Rect { x, y, width, height }),
    {
        Rect { x, y, width, height }
    }

    /// Whether `p` lies in this rectangle, all four edges included.
    pub fn contains(&self, p: Point) -> (r: bool)
        ensures
            r == spec_contains(*self, p),
    {
        let x = p.x.0 as i64;
        let y = p.y.0 as i64;
        let left = self.x.0 as i64;
        let top = self.y.0 as i64;
        left <= x && x <= left + self.width.0 as i64 && top <= y && y <= top + self.height.0 as i64
    }
}

impl Point {
    pub fn new(x: Au, y: Au) -> (r: Point)
        ensures
            r == (Point { x, y }),
    {
        Point { x, y }
    }
}

} // verus!
