//! Plain geometric values shared by the layout and input code.

use vstd::prelude::*;

verus! {

/// A point in client coordinates (pixels).
#[derive(Clone, Copy, PartialEq, Eq, Debug, Structural)]
pub struct Point {
    /// Horizontal coordinate.
    pub x: i32,
    /// Vertical coordinate.
    pub y: i32,
}

/// A width and a height in pixels.
#[derive(Clone, Copy, PartialEq, Eq, Debug, Structural)]
pub struct Size {
    /// Width.
    pub cx: i32,
    /// Height.
    pub cy: i32,
}

/// A rectangle whose right and bottom edges are exclusive.
#[derive(Clone, Copy, PartialEq, Eq, Debug, Structural)]
pub struct Rect {
    /// Left edge (inclusive).
    pub left: i32,
    /// Top edge (inclusive).
    pub top: i32,
    /// Right edge (exclusive).
    pub right: i32,
    /// Bottom edge (exclusive).
    pub bottom: i32,
}

/// Whether `pt` lies inside `rc`: the left and top edges belong to the
/// rectangle, the right and bottom edges do not.
pub open spec fn spec_pt_in_rect(rc: Rect, pt: Point) -> bool {
    rc.left <= pt.x && pt.x < rc.right && rc.top <= pt.y && pt.y < rc.bottom
}

/// Hit test of a point against a rectangle.
pub fn pt_in_rect(rc: Rect, pt: Point) -> (r: bool)
    ensures
        r == spec_pt_in_rect(rc, pt),
{
    rc.left <= pt.x && pt.x < rc.right && rc.top <= pt.y && pt.y < rc.bottom
}

} // verus!
