//! Axis-aligned rectangles centered on a point, used for overlap testing.

use vstd::prelude::*;
use crate::components::{EXTENT_MAX, POS_LIMIT};

verus! {

/// A rectangle centered at `(x, y)` with the given half-extents, all in
/// milliunits.
#[derive(Clone, Copy, Debug, PartialEq, Eq, Structural)]
pub struct Rect {
    pub x: i64,
    pub y: i64,
    pub half_width: i64,
    pub half_height: i64,
}

/// Two rectangles overlap iff they intersect on both axes with strict
/// inequality: edge-touching does not count.
pub open spec fn rects_overlap(a: Rect, b: Rect) -> bool {
    &&& a.x + a.half_width > b.x - b.half_width
    &&& a.x - a.half_width < b.x + b.half_width
    &&& a.y - a.half_height < b.y + b.half_height
    &&& a.y + a.half_height > b.y - b.half_height
}

impl Rect {
    /// Center and half-extents lie within the world bounds.
    pub open spec fn wf(self) -> bool {
        &&& -POS_LIMIT <= self.x <= POS_LIMIT
        &&& -POS_LIMIT <= self.y <= POS_LIMIT
        &&& 0 <= self.half_width <= EXTENT_MAX
        &&& 0 <= self.half_height <= EXTENT_MAX
    }

    /// Smallest x coordinate covered.
    pub fn left(&self) -> (r: i64)
        requires
            self.wf(),
        ensures
            r == self.x - self.half_width,
    {
        self.x - self.half_width
    }

    /// Largest x coordinate covered.
    pub fn right(&self) -> (r: i64)
        requires
            self.wf(),
        ensures
            r == self.x + self.half_width,
    {
        self.x + self.half_width
    }

    /// Smallest y coordinate covered.
    pub fn top(&self) -> (r: i64)
        requires
            self.wf(),
        ensures
            r == self.y - self.half_height,
    {
        self.y - self.half_height
    }

    /// Largest y coordinate covered.
    pub fn bottom(&self) -> (r: i64)
        requires
            self.wf(),
        ensures
            r == self.y + self.half_height,
    {
        self.y + self.half_height
    }

    /// Strict axis-aligned overlap test.
    pub fn overlaps(&self, other: &Rect) -> (r: bool)
        requires
            self.wf(),
            other.wf(),
        ensures
            r == rects_overlap(*self, *other),
    {
        self.right() > other.left() && self.left() < other.right() && self.top()
            < other.bottom() && self.bottom() > other.top()
    }
}

} // verus!
