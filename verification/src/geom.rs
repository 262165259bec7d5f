//! Grid geometry: rectangles, squared distances, and the rounded unit step
//! used when a monster walks toward the player.

use vstd::prelude::*;

verus! {

/// Square of an integer.
pub open spec fn sq(a: int) -> int {
    a * a
}

/// Squared Euclidean distance between two grid cells.
pub open spec fn dist2(x0: int, y0: int, x1: int, y1: int) -> int {
    sq(x1 - x0) + sq(y1 - y0)
}

/// Division by two rounding toward zero, as `/ 2` behaves on machine integers.
pub open spec fn tdiv2(a: int) -> int {
    if a >= 0 {
        a / 2
    } else {
        -((-a) / 2)
    }
}

/// One coordinate of the rounded unit vector of `(d, other)`: the step a
/// monster takes along this axis when closing in on a target. It is `1`
/// (resp. `-1`) exactly when `d / sqrt(d^2 + other^2)` rounds away from
/// zero, which for integers amounts to `3 * d^2 >= other^2`.
pub open spec fn step_toward(d: int, other: int) -> int {
    if d > 0 && 3 * sq(d) >= sq(other) {
        1
    } else if d < 0 && 3 * sq(d) >= sq(other) {
        -1
    } else {
        0
    }
}

/// An axis-aligned room candidate. The carved interior is
/// `(x1+1 .. x2) x (y1+1 .. y2)`; the bounds themselves stay wall.
#[derive(Clone, Copy, Debug, PartialEq, Eq, Structural)]
pub struct Rect {
    pub x1: i32,
    pub y1: i32,
    pub x2: i32,
    pub y2: i32,
}

impl Rect {
    pub open spec fn spec_center(self) -> (int, int) {
        (tdiv2(self.x1 + self.x2), tdiv2(self.y1 + self.y2))
    }

    /// Two rectangles overlap when their closed bounding ranges overlap on
    /// both axes; abutting rectangles count as overlapping on purpose (a
    /// generation policy that keeps rooms apart).
    pub open spec fn spec_intersects(self, other: Rect) -> bool {
        self.x1 <= other.x2 && self.x2 >= other.x1 && self.y1 <= other.y2 && self.y2 >= other.y1
    }

    pub fn new(x: i32, y: i32, w: i32, h: i32) -> (r: Rect)
        requires
            i32::MIN <= x + w <= i32::MAX,
            i32::MIN <= y + h <= i32::MAX,
        ensures
            r.x1 == x,
            r.y1 == y,
            r.x2 == x + w,
            r.y2 == y + h,
    {
        Rect { x1: x, y1: y, x2: x + w, y2: y + h }
    }

    pub fn center(&self) -> (c: (i32, i32))
        requires
            i32::MIN < self.x1 + self.x2 <= i32::MAX,
            i32::MIN < self.y1 + self.y2 <= i32::MAX,
        ensures
            c.0 == self.spec_center().0,
            c.1 == self.spec_center().1,
    {
        let sx: i32 = self.x1 + self.x2;
        let sy: i32 = self.y1 + self.y2;
        let cx: i32 = if sx >= 0 {
            ((sx as u32) / 2) as i32
        } else {
            -((((-sx) as u32) / 2) as i32)
        };
        let cy: i32 = if sy >= 0 {
            ((sy as u32) / 2) as i32
        } else {
            -((((-sy) as u32) / 2) as i32)
        };
        (cx, cy)
    }

    pub fn intersects_with(&self, other: &Rect) -> (r: bool)
        ensures
            r == self.spec_intersects(*other),
    {
        (self.x1 <= other.x2) && (self.x2 >= other.x1) && (self.y1 <= other.y2) && (self.y2
            >= other.y1)
    }
}

/// Squared distance between two in-range grid cells, exact in `i64`.
pub fn distance_sq(x0: i32, y0: i32, x1: i32, y1: i32) -> (d: i64)
    requires
        -100000 <= x0 <= 100000,
        -100000 <= y0 <= 100000,
        -100000 <= x1 <= 100000,
        -100000 <= y1 <= 100000,
    ensures
        d == dist2(x0 as int, y0 as int, x1 as int, y1 as int),
{
    let dx: i64 = (x1 as i64) - (x0 as i64);
    let dy: i64 = (y1 as i64) - (y0 as i64);
    proof {
        assert(dx * dx <= 200000 * 200000 && dx * dx >= 0 && dy * dy <= 200000 * 200000 && dy * dy
            >= 0) by (nonlinear_arith)
            requires
                -200000 <= dx <= 200000,
                -200000 <= dy <= 200000,
        ;
    }
    dx * dx + dy * dy
}

/// The rounded unit vector from `(0,0)` toward `(dx, dy)`: each component
/// is `-1`, `0` or `1`.
pub fn unit_step(dx: i32, dy: i32) -> (s: (i32, i32))
    requires
        -1000 <= dx <= 1000,
        -1000 <= dy <= 1000,
    ensures
        s.0 == step_toward(dx as int, dy as int),
        s.1 == step_toward(dy as int, dx as int),
{
    proof {
        assert(0 <= dx * dx <= 1000 * 1000 && 0 <= dy * dy <= 1000 * 1000) by (nonlinear_arith)
            requires
                -1000 <= dx <= 1000,
                -1000 <= dy <= 1000,
        ;
    }
    let sqx: i32 = dx * dx;
    let sqy: i32 = dy * dy;
    let sx: i32 = if dx > 0 && 3 * sqx >= sqy {
        1
    } else if dx < 0 && 3 * sqx >= sqy {
        -1
    } else {
        0
    };
    let sy: i32 = if dy > 0 && 3 * sqy >= sqx {
        1
    } else if dy < 0 && 3 * sqy >= sqx {
        -1
    } else {
        0
    };
    (sx, sy)
}

} // verus!
