//! Analytic geometry over exact integer coordinates: vectors, planes, lines,
//! and the spec-level dot product and signed plane distance the clipper is
//! built on.

use vstd::prelude::*;

pub mod line;
pub mod plane;

verus! {

/// Largest coordinate magnitude the arithmetic primitives accept. With every
/// coordinate of every operand in `[-COORD_LIMIT, COORD_LIMIT]`, all the
/// intermediate products the geometry computes fit in an `i64`.
pub const COORD_LIMIT: i64 = 500_000;

/// A 3D vector (or point) with exact integer coordinates.
#[derive(Clone, Copy, PartialEq, Eq, Structural, Debug)]
pub struct Vec3 {
    pub x: i64,
    pub y: i64,
    pub z: i64,
}

/// A geometric plane defined by `(p - zero_point) dot normal == 0`.
#[derive(Clone, Copy, PartialEq, Eq, Structural, Debug)]
pub struct Plane {
    pub normal: Vec3,
    pub zero_point: Vec3,
}

/// A geometric line defined by `p = zero_point + direction * t`.
#[derive(Clone, Copy, PartialEq, Eq, Structural, Debug)]
pub struct Line {
    pub zero_point: Vec3,
    pub direction: Vec3,
}

/// Every coordinate of `v` is within `COORD_LIMIT`.
pub open spec fn coords_bounded(v: Vec3) -> bool {
    &&& -COORD_LIMIT <= v.x <= COORD_LIMIT
    &&& -COORD_LIMIT <= v.y <= COORD_LIMIT
    &&& -COORD_LIMIT <= v.z <= COORD_LIMIT
}

/// Every coordinate of `v` is within twice `COORD_LIMIT`: the bound a
/// difference of two bounded points obeys, such as a line direction built
/// from two points.
pub open spec fn coords_wide(v: Vec3) -> bool {
    &&& -2 * COORD_LIMIT <= v.x <= 2 * COORD_LIMIT
    &&& -2 * COORD_LIMIT <= v.y <= 2 * COORD_LIMIT
    &&& -2 * COORD_LIMIT <= v.z <= 2 * COORD_LIMIT
}

/// The dot product of `a` and `b`, as an unbounded integer.
pub open spec fn dot(a: Vec3, b: Vec3) -> int {
    a.x * b.x + a.y * b.y + a.z * b.z
}

/// The difference `a - b`, as unbounded integers, coordinate by coordinate.
pub open spec fn diff_x(a: Vec3, b: Vec3) -> int {
    a.x - b.x
}

/// See `diff_x`.
pub open spec fn diff_y(a: Vec3, b: Vec3) -> int {
    a.y - b.y
}

/// See `diff_x`.
pub open spec fn diff_z(a: Vec3, b: Vec3) -> int {
    a.z - b.z
}

/// The scaled signed distance of `p` from `plane`:
/// `(p - zero_point) dot normal`. It is the true signed distance multiplied
/// by the length of `normal`, so its sign classifies `p` against the plane
/// exactly: negative iff `p` lies strictly on the opposite side from the
/// normal direction.
pub open spec fn signed_dist(plane: Plane, p: Vec3) -> int {
    diff_x(p, plane.zero_point) * plane.normal.x + diff_y(p, plane.zero_point) * plane.normal.y
        + diff_z(p, plane.zero_point) * plane.normal.z
}

/// Bounds the product of two bounded factors.
pub proof fn lemma_mul_bound(a: int, b: int, ab: int, bb: int)
    by (nonlinear_arith)
    requires
        -ab <= a <= ab,
        -bb <= b <= bb,
        0 <= ab,
        0 <= bb,
    ensures
        -(ab * bb) <= a * b <= ab * bb,
{
}

} // verus!
