//! Rectangles of the note grid and the lanes.

use crate::fixed::{max_i64, max_of, min_i64, min_of};
use vstd::prelude::*;

verus! {

/// A rectangle in local coordinates.
#[derive(Debug, Clone, Copy, PartialEq, Eq, Structural)]
pub struct Rect {
    pub left: i64,
    pub top: i64,
    pub right: i64,
    pub bottom: i64,
}

impl Rect {
    /// The two rectangles share more than an edge.
    pub open spec fn meets(self, other: Rect) -> bool {
        self.left < other.right && self.right > other.left && self.top < other.bottom && self.bottom > other.top
    }
}

/// `true` when the rectangles share more than an edge.
pub fn rects_intersect(a: Rect, b: Rect) -> (r: bool)
    ensures
        r == a.meets(b),
{
    a.left < b.right && a.right > b.left && a.top < b.bottom && a.bottom > b.top
}

/// Rectangles meet in either order.
pub proof fn law_rects_meet_both_ways(a: Rect, b: Rect)
    ensures
        a.meets(b) == b.meets(a),
{
}

/// Rectangle between two corners, cut to the view.
pub open spec fn marquee_between(x0: int, y0: int, x1: int, y1: int, view_w: int, view_h: int) -> (int, int, int, int) {
    (
        max_of(min_of(x0, x1), 0),
        max_of(min_of(y0, y1), 0),
        min_of(max_of(x0, x1), view_w),
        min_of(max_of(y0, y1), view_h),
    )
}

/// Rectangle between two corners, cut to the view.
pub fn normalized_marquee_rect(x0: i64, y0: i64, x1: i64, y1: i64, view_w: i64, view_h: i64) -> (r: Rect)
    ensures
        (r.left as int, r.top as int, r.right as int, r.bottom as int) == marquee_between(
            x0 as int,
            y0 as int,
            x1 as int,
            y1 as int,
            view_w as int,
            view_h as int,
        ),
{
    Rect {
        left: max_i64(min_i64(x0, x1), 0),
        top: max_i64(min_i64(y0, y1), 0),
        right: min_i64(max_i64(x0, x1), view_w),
        bottom: min_i64(max_i64(y0, y1), view_h),
    }
}

/// Which corner a marquee was started from does not matter.
pub proof fn law_marquee_ignores_direction(x0: int, y0: int, x1: int, y1: int, view_w: int, view_h: int)
    ensures
        marquee_between(x0, y0, x1, y1, view_w, view_h) == marquee_between(x1, y1, x0, y0, view_w, view_h),
        marquee_between(x0, y0, x1, y1, view_w, view_h) == marquee_between(x0, y1, x1, y0, view_w, view_h),
{
}

/// Pixels that the pointer moves before a press becomes a marquee.
pub const MARQUEE_DRAG_THRESHOLD: i64 = 4_000_000;

/// The pointer moved the threshold distance or more.
pub open spec fn past_threshold(dx: int, dy: int) -> bool {
    dx * dx + dy * dy >= MARQUEE_DRAG_THRESHOLD * MARQUEE_DRAG_THRESHOLD
}

/// `true` once the pointer moved the threshold distance.
pub fn moved_past_threshold(dx: i64, dy: i64) -> (r: bool)
    ensures
        r == past_threshold(dx as int, dy as int),
{
    let x: i128 = dx as i128;
    let y: i128 = dy as i128;
    if x >= 4_000_000 || x <= -4_000_000 || y >= 4_000_000 || y <= -4_000_000 {
        proof {
            let gx = dx as int;
            let gy = dy as int;
            assert(gx * gx + gy * gy >= 4_000_000 * 4_000_000) by (nonlinear_arith)
                requires
                    gx >= 4_000_000 || gx <= -4_000_000 || gy >= 4_000_000 || gy <= -4_000_000,
            ;
        }
        return true;
    }
    proof {
        assert(0 <= x * x <= 4_000_000 * 4_000_000) by (nonlinear_arith)
            requires
                -4_000_000 < x < 4_000_000,
        ;
        assert(0 <= y * y <= 4_000_000 * 4_000_000) by (nonlinear_arith)
            requires
                -4_000_000 < y < 4_000_000,
        ;
    }
    x * x + y * y >= 16_000_000_000_000
}

/// A marquee holds exactly the places between its two corners that are in view.
pub proof fn law_marquee_holds_what_is_between(
    x0: int,
    y0: int,
    x1: int,
    y1: int,
    view_w: int,
    view_h: int,
    x: int,
    y: int,
)
    ensures
        ({
            let (left, top, right, bottom) = marquee_between(x0, y0, x1, y1, view_w, view_h);
            (left <= x <= right && top <= y <= bottom) <==> (x0 <= x <= x1 || x1 <= x <= x0) && (y0 <= y <= y1 || y1 <= y
                <= y0) && 0 <= x <= view_w && 0 <= y <= view_h
        }),
{
}

} // verus!
