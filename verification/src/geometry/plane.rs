//! Signed distance from a plane and exact line-plane intersection.

use crate::geometry::Line;
use crate::geometry::Plane;
use crate::geometry::Vec3;
use crate::geometry::coords_bounded;
use crate::geometry::coords_wide;
use crate::geometry::dot;
use crate::geometry::lemma_mul_bound;
use crate::geometry::signed_dist;
use vstd::math::abs;
use vstd::prelude::*;

verus! {

/// Outcome of intersecting a line with a plane when no single intersection
/// point exists.
#[derive(Debug, PartialEq, Eq, Structural, Clone, Copy)]
pub enum PlaneIntersectionError {
    /// The line lies inside the plane: infinitely many intersections.
    Enclosed,
    /// The line is parallel to the plane and outside it: no intersection.
    Parallel,
}

/// Integer division truncating towards zero, as Rust's `/` on signed
/// integers behaves.
pub open spec fn trunc_div(n: int, d: int) -> int
    recommends
        d != 0,
{
    if (n < 0) == (d < 0) {
        (abs(n) / abs(d)) as int
    } else {
        -((abs(n) / abs(d)) as int)
    }
}

/// The divider of the intersection parameter: `direction dot normal`. It is
/// zero exactly when the line runs parallel to the plane.
pub open spec fn line_divider(plane: Plane, line: Line) -> int {
    dot(line.direction, plane.normal)
}

/// The numerator of the intersection parameter:
/// `(plane.zero_point - line.zero_point) dot normal`. When the divider is
/// zero it is zero exactly when the line lies inside the plane.
pub open spec fn line_numerator(plane: Plane, line: Line) -> int {
    (plane.zero_point.x - line.zero_point.x) * plane.normal.x + (plane.zero_point.y
        - line.zero_point.y) * plane.normal.y + (plane.zero_point.z - line.zero_point.z)
        * plane.normal.z
}

/// The `c`-th coordinate of the intersection point of `line` with `plane`,
/// for a line anchor coordinate `zc` and direction coordinate `dc`: the
/// anchor moved by `direction * numerator / divider`, each coordinate
/// rounded towards zero.
pub open spec fn intersection_coord(plane: Plane, line: Line, zc: int, dc: int) -> int {
    zc + trunc_div(line_numerator(plane, line) * dc, line_divider(plane, line))
}

/// Division truncating towards zero, with the quotient's magnitude bounded
/// by the dividend's.
fn trunc_div_i64(n: i64, d: i64) -> (r: i64)
    requires
        d != 0,
        n != i64::MIN,
        d != i64::MIN,
    ensures
        r == trunc_div(n as int, d as int),
        abs(r as int) <= abs(n as int),
{
    let na: u64 = if n < 0 {
        (-n) as u64
    } else {
        n as u64
    };
    let da: u64 = if d < 0 {
        (-d) as u64
    } else {
        d as u64
    };
    proof {
        assert(na == abs(n as int));
        assert(da == abs(d as int));
        vstd::arithmetic::div_mod::lemma_div_nonincreasing(na as int, da as int);
        vstd::arithmetic::div_mod::lemma_div_pos_is_pos(na as int, da as int);
    }
    let q: u64 = na / da;
    if (n < 0) != (d < 0) {
        -(q as i64)
    } else {
        q as i64
    }
}

/// The dot product of two vectors whose coordinates are within twice
/// `COORD_LIMIT`.
fn dot_i64(a: Vec3, b: Vec3) -> (r: i64)
    requires
        coords_wide(a),
        coords_wide(b),
    ensures
        r == dot(a, b),
        -3_000_000_000_000 <= r <= 3_000_000_000_000,
{
    proof {
        lemma_mul_bound(a.x as int, b.x as int, 1_000_000, 1_000_000);
        lemma_mul_bound(a.y as int, b.y as int, 1_000_000, 1_000_000);
        lemma_mul_bound(a.z as int, b.z as int, 1_000_000, 1_000_000);
    }
    a.x * b.x + a.y * b.y + a.z * b.z
}

impl Plane {
    /// The scaled signed distance of `point` from the plane: the true signed
    /// distance multiplied by the (positive) length of `normal`. Negative
    /// exactly for points strictly on the side the normal points away from;
    /// zero exactly for points on the plane.
    pub fn distance_from_plane(&self, point: Vec3) -> (d: i64)
        requires
            coords_bounded(self.normal),
            coords_bounded(self.zero_point),
            coords_bounded(point),
        ensures
            d == signed_dist(*self, point),
    {
        let diff = Vec3 {
            x: point.x - self.zero_point.x,
            y: point.y - self.zero_point.y,
            z: point.z - self.zero_point.z,
        };
        dot_i64(diff, self.normal)
    }

    /// The intersection of `line` with the plane: the unique intersection
    /// point (each coordinate rounded towards zero), `Enclosed` when the
    /// line lies inside the plane, `Parallel` when it is parallel outside
    /// it.
    pub fn intersection_from_line(&self, line: Line) -> (r: Result<
        Vec3,
        PlaneIntersectionError,
    >)
        requires
            coords_bounded(self.normal),
            coords_bounded(self.zero_point),
            coords_bounded(line.zero_point),
            coords_wide(line.direction),
        ensures
            r is Ok <==> line_divider(*self, line) != 0,
            line_divider(*self, line) == 0 && line_numerator(*self, line) == 0 ==> r == Result::<
                Vec3,
                PlaneIntersectionError,
            >::Err(PlaneIntersectionError::Enclosed),
            line_divider(*self, line) == 0 && line_numerator(*self, line) != 0 ==> r == Result::<
                Vec3,
                PlaneIntersectionError,
            >::Err(PlaneIntersectionError::Parallel),
            line_divider(*self, line) != 0 ==> (r matches Ok(p)
                && p.x == intersection_coord(*self, line, line.zero_point.x as int, line.direction.x as int)
                && p.y == intersection_coord(*self, line, line.zero_point.y as int, line.direction.y as int)
                && p.z == intersection_coord(*self, line, line.zero_point.z as int, line.direction.z as int)),
    {
        let divider = dot_i64(line.direction, self.normal);
        let diff = Vec3 {
            x: self.zero_point.x - line.zero_point.x,
            y: self.zero_point.y - line.zero_point.y,
            z: self.zero_point.z - line.zero_point.z,
        };
        let numerator = dot_i64(diff, self.normal);
        if divider == 0 {
            if numerator == 0 {
                Err(PlaneIntersectionError::Enclosed)
            } else {
                Err(PlaneIntersectionError::Parallel)
            }
        } else {
            proof {
                lemma_mul_bound(
                    numerator as int,
                    line.direction.x as int,
                    3_000_000_000_000,
                    1_000_000,
                );
                lemma_mul_bound(
                    numerator as int,
                    line.direction.y as int,
                    3_000_000_000_000,
                    1_000_000,
                );
                lemma_mul_bound(
                    numerator as int,
                    line.direction.z as int,
                    3_000_000_000_000,
                    1_000_000,
                );
            }
            let tx = trunc_div_i64(numerator * line.direction.x, divider);
            let ty = trunc_div_i64(numerator * line.direction.y, divider);
            let tz = trunc_div_i64(numerator * line.direction.z, divider);
            Ok(
                Vec3 {
                    x: line.zero_point.x + tx,
                    y: line.zero_point.y + ty,
                    z: line.zero_point.z + tz,
                },
            )
        }
    }
}

} // verus!
