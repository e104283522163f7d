//! Construction of lines.

use crate::geometry::Line;
use crate::geometry::Vec3;
use crate::geometry::coords_bounded;
use crate::geometry::coords_wide;
use vstd::prelude::*;

verus! {

impl Line {
    /// The line through `p1` and `p2`, anchored at `p1` and directed towards
    /// `p2` (so `t == 0` is `p1` and `t == 1` is `p2`).
    pub fn from_two_points(p1: &Vec3, p2: &Vec3) -> (r: Line)
        requires
            coords_bounded(*p1),
            coords_bounded(*p2),
        ensures
            r.zero_point == *p1,
            r.direction.x == p2.x - p1.x,
            r.direction.y == p2.y - p1.y,
            r.direction.z == p2.z - p1.z,
            coords_wide(r.direction),
    {
        Line {
            zero_point: *p1,
            direction: Vec3 { x: p2.x - p1.x, y: p2.y - p1.y, z: p2.z - p1.z },
        }
    }
}

} // verus!
