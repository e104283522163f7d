use hullclip::geometry::Line;
use hullclip::geometry::Plane;
use hullclip::geometry::Vec3;
use hullclip::geometry::plane::PlaneIntersectionError;

fn v(x: i64, y: i64, z: i64) -> Vec3 {
    Vec3 { x, y, z }
}

#[test]
fn test_function() {
    let plane = Plane { normal: v(0, 1, 0), zero_point: v(0, 0, 0) };

    assert_eq!(plane.distance_from_plane(v(0, 1, 0)), 1);
    assert_eq!(plane.distance_from_plane(v(0, -1, 0)), -1);
}

#[test]
fn test_intersection() {
    // Coordinates carry one fixed-point decimal: 230 stands for 23.0.
    let plane = Plane { normal: v(0, 1, 0), zero_point: v(0, 0, 0) };

    let valid_line1 = Line { zero_point: v(-15, 230, 70), direction: v(0, 1, 0) };
    assert_eq!(plane.intersection_from_line(valid_line1).unwrap(), v(-15, 0, 70));

    let valid_line2 = Line { zero_point: v(-10, 0, 0), direction: v(30, -114, 23) };
    assert_eq!(plane.intersection_from_line(valid_line2).unwrap(), v(-10, 0, 0));

    let enclosed_line = Line { zero_point: v(0, 0, 0), direction: v(0, 0, 1) };
    assert_eq!(
        plane.intersection_from_line(enclosed_line),
        Err(PlaneIntersectionError::Enclosed)
    );

    let parallel_line = Line { zero_point: v(0, 1, 0), direction: v(1, 0, 0) };
    assert_eq!(
        plane.intersection_from_line(parallel_line),
        Err(PlaneIntersectionError::Parallel)
    );
}

#[test]
fn test_intersection_from_two_points() {
    let plane = Plane { normal: v(0, 1, 0), zero_point: v(0, 0, 0) };
    let line = Line::from_two_points(&v(0, -2, 0), &v(4, 2, 0));
    assert_eq!(line.zero_point, v(0, -2, 0));
    assert_eq!(line.direction, v(4, 4, 0));
    assert_eq!(plane.intersection_from_line(line).unwrap(), v(2, 0, 0));
}

#[test]
fn test_intersection_rounds_towards_zero() {
    let plane = Plane { normal: v(0, 1, 0), zero_point: v(0, 0, 0) };
    // Crosses the plane halfway along a segment of odd horizontal extent:
    // the exact crossing at x = 1.5 rounds towards zero.
    let line = Line::from_two_points(&v(0, -1, 0), &v(3, 1, 0));
    assert_eq!(plane.intersection_from_line(line).unwrap(), v(1, 0, 0));
}

#[test]
fn test_distance_scales_with_normal_length() {
    // The returned distance is scaled by the normal's length; only its
    // sign and zero set are direction-invariant.
    let unit = Plane { normal: v(0, 1, 0), zero_point: v(0, 5, 0) };
    let long = Plane { normal: v(0, 10, 0), zero_point: v(0, 5, 0) };
    assert_eq!(unit.distance_from_plane(v(0, 8, 0)), 3);
    assert_eq!(long.distance_from_plane(v(0, 8, 0)), 30);
    assert_eq!(unit.distance_from_plane(v(7, 5, -4)), 0);
    assert_eq!(long.distance_from_plane(v(7, 5, -4)), 0);
}
