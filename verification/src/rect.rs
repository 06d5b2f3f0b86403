//! Axis-aligned rectangles used while laying out rooms during dungeon
//! generation.
//!
//! A `Rect` stores its two corners `(x1, y1)` and `(x2, y2)`; the room's
//! carved interior is the open range `(x1+1 .. x2) x (y1+1 .. y2)`, so two
//! rectangles whose closed corner ranges merely touch still leave a wall
//! between their interiors.

use vstd::prelude::*;

verus! {

/// An axis-aligned rectangle with corners `(x1, y1)` and `(x2, y2)`.
#[derive(Clone, Copy, Debug, PartialEq, Eq, Structural)]
pub struct Rect {
    pub x1: i32,
    pub y1: i32,
    pub x2: i32,
    pub y2: i32,
}

/// A rectangle as produced by `Rect::new`: corners ordered and coordinates
/// non-negative, with room for the closed-interval overlap test.
pub open spec fn rect_wf(r: Rect) -> bool {
    0 <= r.x1 <= r.x2 <= 0x10000 && 0 <= r.y1 <= r.y2 <= 0x10000
}

/// The centre of a rectangle, component-wise integer midpoint.
pub open spec fn center_spec(r: Rect) -> (int, int) {
    ((r.x1 + r.x2) / 2, (r.y1 + r.y2) / 2)
}

/// Two rectangles overlap when their closed coordinate ranges overlap on
/// both axes.  Because the carved interiors leave the `x1`/`x2` rows and
/// columns as wall, this closed test already enforces a one-tile margin
/// between interiors: rooms that merely share a boundary line count as
/// overlapping.
pub open spec fn rects_intersect(a: Rect, b: Rect) -> bool {
    a.x1 <= b.x2 && a.x2 >= b.x1 && a.y1 <= b.y2 && a.y2 >= b.y1
}

/// A point lies in the interior of `r` padded outward by one tile, i.e. in
/// the closed box `[x1, x2] x [y1, y2]` (the interior is
/// `[x1+1, x2-1] x [y1+1, y2-1]`).
pub open spec fn in_padded_interior(r: Rect, x: int, y: int) -> bool {
    r.x1 <= x <= r.x2 && r.y1 <= y <= r.y2
}

/// A point lies in the carved interior of `r`: the open box
/// `(x1 .. x2) x (y1 .. y2)`, exclusive of the boundary rows and columns.
pub open spec fn in_interior(r: Rect, x: int, y: int) -> bool {
    r.x1 < x < r.x2 && r.y1 < y < r.y2
}

impl Rect {
    /// Build the rectangle with top-left corner `(x, y)`, width `w` and
    /// height `h`.
    pub fn new(x: i32, y: i32, w: i32, h: i32) -> (r: Rect)
        requires
            0 <= x,
            0 <= y,
            0 <= w,
            0 <= h,
            x + w <= 0x10000,
            y + h <= 0x10000,
        ensures
            r.x1 == x,
            r.y1 == y,
            r.x2 == x + w,
            r.y2 == y + h,
            rect_wf(r),
    {
        Rect { x1: x, y1: y, x2: x + w, y2: y + h }
    }

    /// The centre tile of the rectangle.
    pub fn center(&self) -> (c: (i32, i32))
        requires
            rect_wf(*self),
        ensures
            (c.0 as int, c.1 as int) == center_spec(*self),
            self.x1 <= c.0 <= self.x2,
            self.y1 <= c.1 <= self.y2,
    {
        ((self.x1 + self.x2) / 2, (self.y1 + self.y2) / 2)
    }

    /// Whether the closed coordinate ranges of `self` and `other` overlap on
    /// both axes (used to reject candidate rooms that would touch or overlap
    /// an accepted one).
    pub fn intersects_with(&self, other: &Rect) -> (b: bool)
        ensures
            b == rects_intersect(*self, *other),
    {
        self.x1 <= other.x2 && self.x2 >= other.x1 && self.y1 <= other.y2 && self.y2 >= other.y1
    }
}

/// Non-overlap, stated over individual tiles: when the closed-range overlap
/// test rejects a pair of rooms, no tile lies in both rooms' padded
/// interiors.
pub proof fn lemma_disjoint_padded_interiors(a: Rect, b: Rect, x: int, y: int)
    requires
        !rects_intersect(a, b),
    ensures
        !(in_padded_interior(a, x, y) && in_padded_interior(b, x, y)),
{
}

} // verus!
