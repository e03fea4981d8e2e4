//! Geometric primitives in fixed-point coordinates.

use crate::fixed::{clamp_i32, div_round, Fixed};
use vstd::prelude::*;

verus! {

/// 2D point.
#[derive(Debug, Clone, Copy, PartialEq, Eq, Structural)]
pub struct Point {
    pub x: Fixed,
    pub y: Fixed,
}

impl Point {
    pub fn new(x: Fixed, y: Fixed) -> (p: Point)
        ensures
            p == (Point { x, y }),
    {
        Point { x, y }
    }
}

/// 2D size.
#[derive(Debug, Clone, Copy, PartialEq, Eq, Structural)]
pub struct Size {
    pub width: Fixed,
    pub height: Fixed,
}

impl Size {
    pub fn new(width: Fixed, height: Fixed) -> (s: Size)
        ensures
            s == (Size { width, height }),
    {
        Size { width, height }
    }
}

/// Axis-aligned rectangle.
#[derive(Debug, Clone, Copy, PartialEq, Eq, Structural)]
pub struct Rect {
    pub x: Fixed,
    pub y: Fixed,
    pub width: Fixed,
    pub height: Fixed,
}

impl Rect {
    /// The x of the right edge: `x + width`, saturated.
    pub open spec fn spec_right(self) -> Fixed {
        Fixed { raw: clamp_i32(self.x.raw + self.width.raw) }
    }

    /// The y of the bottom edge: `y + height`, saturated.
    pub open spec fn spec_bottom(self) -> Fixed {
        Fixed { raw: clamp_i32(self.y.raw + self.height.raw) }
    }

    pub fn new(x: Fixed, y: Fixed, width: Fixed, height: Fixed) -> (r: Rect)
        ensures
            r == (Rect { x, y, width, height }),
    {
        Rect { x, y, width, height }
    }

    pub fn from_xywh(x: Fixed, y: Fixed, width: Fixed, height: Fixed) -> (r: Rect)
        ensures
            r == (Rect { x, y, width, height }),
    {
        Rect::new(x, y, width, height)
    }

    /// The rectangle between four edges; width and height saturate.
    pub fn from_ltrb(left: Fixed, top: Fixed, right: Fixed, bottom: Fixed) -> (r: Rect)
        ensures
            r.x == left,
            r.y == top,
            r.width.raw == clamp_i32(right.raw - left.raw),
            r.height.raw == clamp_i32(bottom.raw - top.raw),
    {
        Rect {
            x: left,
            y: top,
            width: right.saturating_sub(left),
            height: bottom.saturating_sub(top),
        }
    }

    pub fn left(&self) -> (v: Fixed)
        ensures
            v == self.x,
    {
        self.x
    }

    pub fn top(&self) -> (v: Fixed)
        ensures
            v == self.y,
    {
        self.y
    }

    pub fn right(&self) -> (v: Fixed)
        ensures
            v == self.spec_right(),
    {
        self.x.saturating_add(self.width)
    }

    pub fn bottom(&self) -> (v: Fixed)
        ensures
            v == self.spec_bottom(),
    {
        self.y.saturating_add(self.height)
    }

    /// The point half the width right of `x` and half the height below `y`.
    pub fn center(&self) -> (p: Point)
        ensures
            p.x.raw == clamp_i32(self.x.raw + div_round(self.width.raw as int, 2)),
            p.y.raw == clamp_i32(self.y.raw + div_round(self.height.raw as int, 2)),
    {
        Point::new(
            self.x.saturating_add(self.width.half()),
            self.y.saturating_add(self.height.half()),
        )
    }

    /// Whether the point lies in the rectangle, its edges included.
    pub fn contains(&self, point: Point) -> (b: bool)
        ensures
            b == (self.x.raw <= point.x.raw <= self.spec_right().raw && self.y.raw <= point.y.raw
                <= self.spec_bottom().raw),
    {
        point.x.raw >= self.left().raw && point.x.raw <= self.right().raw && point.y.raw
            >= self.top().raw && point.y.raw <= self.bottom().raw
    }

    /// Whether the two rectangles overlap in more than an edge.
    pub fn intersects(&self, other: &Rect) -> (b: bool)
        ensures
            b == (self.x.raw < other.spec_right().raw && self.spec_right().raw > other.x.raw
                && self.y.raw < other.spec_bottom().raw && self.spec_bottom().raw > other.y.raw),
    {
        self.left().raw < other.right().raw && self.right().raw > other.left().raw
            && self.top().raw < other.bottom().raw && self.bottom().raw > other.top().raw
    }
}

} // verus!
