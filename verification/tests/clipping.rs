use hullclip::geometry::Plane;
use hullclip::geometry::Vec3;
use hullclip::hull::ClippedIndex;
use hullclip::hull::Hull;

fn v(x: i64, y: i64, z: i64) -> Vec3 {
    Vec3 { x, y, z }
}

/// A torus-like closed mesh: a square ring of four segments, each with a
/// square cross-section, welded into 16 vertices and 32 triangles.
fn ring_mesh() -> (Vec<Vec3>, Vec<usize>) {
    let centers = [v(10, 0, 0), v(0, 0, 10), v(-10, 0, 0), v(0, 0, -10)];
    let radial = [v(1, 0, 0), v(0, 0, 1), v(-1, 0, 0), v(0, 0, -1)];
    let mut positions = Vec::new();
    for s in 0..4 {
        let c = centers[s];
        let r = radial[s];
        // Four cross-section corners, cyclically: out-up, in-up, in-down,
        // out-down.
        let corners = [
            v(c.x + 2 * r.x, 2, c.z + 2 * r.z),
            v(c.x - 2 * r.x, 2, c.z - 2 * r.z),
            v(c.x - 2 * r.x, -2, c.z - 2 * r.z),
            v(c.x + 2 * r.x, -2, c.z + 2 * r.z),
        ];
        for corner in corners {
            positions.push(corner);
        }
    }
    let mut indices = Vec::new();
    for s in 0..4usize {
        let sn = (s + 1) % 4;
        for c in 0..4usize {
            let cn = (c + 1) % 4;
            let v00 = s * 4 + c;
            let v01 = s * 4 + cn;
            let v10 = sn * 4 + c;
            let v11 = sn * 4 + cn;
            indices.extend_from_slice(&[v00, v10, v11]);
            indices.extend_from_slice(&[v00, v11, v01]);
        }
    }
    (positions, indices)
}

#[test]
fn test_clipping() {
    let (positions, indices) = ring_mesh();
    let original_index_count = indices.len();
    let hull = Hull::build(positions, indices).unwrap();

    let low_plane = Plane { normal: v(0, 1, 0), zero_point: v(0, -100, 0) };

    let result = hull.clip_with_plane(&low_plane);
    assert_eq!(result.indices.len(), 0, "Result should have no indices after clipping.");

    let high_plane = Plane { normal: v(0, 1, 0), zero_point: v(0, 100, 0) };

    let result = hull.clip_with_plane(&high_plane);

    assert_eq!(
        result.indices.len(),
        original_index_count,
        "Result should have same amount of indices as original."
    );
    for index in result.indices.iter() {
        assert!(matches!(index, ClippedIndex::OriginalIndex(_)));
    }
}

#[test]
fn test_clip_one_corner_submerged() {
    // A single face of a tetrahedron with one corner below the plane:
    // exactly one triangle survives, the corner plus two patch vertices.
    let positions = vec![v(0, -2, 0), v(-2, 2, 0), v(2, 2, 0)];
    let indices = vec![0, 1, 2];
    let hull = Hull::build(positions, indices).unwrap();
    let plane = Plane { normal: v(0, 1, 0), zero_point: v(0, 0, 0) };

    let result = hull.clip_with_plane(&plane);

    assert_eq!(
        result.indices,
        vec![
            ClippedIndex::OriginalIndex(0),
            ClippedIndex::PatchIndex(0),
            ClippedIndex::PatchIndex(1),
        ]
    );
    assert_eq!(result.patch_vertices, vec![v(-1, 0, 0), v(1, 0, 0)]);

    // Flattened, the patch vertices land after the original ones.
    let (flat_positions, flat_indices) = result.flatten();
    assert_eq!(flat_positions.len(), 5);
    assert_eq!(flat_indices, vec![0, 3, 4]);
    assert_eq!(flat_positions[3], v(-1, 0, 0));
    assert_eq!(flat_positions[4], v(1, 0, 0));
}

#[test]
fn test_clip_two_corners_submerged() {
    // The same face with two corners below the plane: a quadrilateral
    // remains, split into two triangles over two original and two patch
    // vertices.
    let positions = vec![v(0, -2, 0), v(-2, 2, 0), v(2, 2, 0)];
    let indices = vec![0, 1, 2];
    let hull = Hull::build(positions, indices).unwrap();
    let plane = Plane { normal: v(0, -1, 0), zero_point: v(0, 0, 0) };

    let result = hull.clip_with_plane(&plane);

    assert_eq!(
        result.indices,
        vec![
            ClippedIndex::PatchIndex(0),
            ClippedIndex::OriginalIndex(1),
            ClippedIndex::OriginalIndex(2),
            ClippedIndex::PatchIndex(0),
            ClippedIndex::OriginalIndex(2),
            ClippedIndex::PatchIndex(1),
        ]
    );
    assert_eq!(result.patch_vertices, vec![v(-1, 0, 0), v(1, 0, 0)]);

    // No out-of-range indices: everything resolves in the flat buffers.
    let (flat_positions, flat_indices) = result.flatten();
    for index in flat_indices.iter() {
        assert!(*index < flat_positions.len());
    }
}

#[test]
fn test_clip_tetrahedron_shares_patch_vertices() {
    // A full tetrahedron with one vertex below: the three faces at that
    // vertex each emit one triangle, and the three crossing edges yield
    // exactly three patch vertices, shared through edge deduplication.
    let positions = vec![v(0, -3, 0), v(2, 2, 2), v(-2, 2, 2), v(0, 2, -2)];
    let indices = vec![0, 1, 2, 0, 2, 3, 0, 3, 1, 1, 3, 2];
    let hull = Hull::build(positions, indices).unwrap();
    let plane = Plane { normal: v(0, 1, 0), zero_point: v(0, 0, 0) };

    let result = hull.clip_with_plane(&plane);

    assert_eq!(result.indices.len(), 9);
    assert_eq!(result.patch_vertices.len(), 3);
    let originals: Vec<&ClippedIndex> = result
        .indices
        .iter()
        .filter(|i| matches!(i, ClippedIndex::OriginalIndex(_)))
        .collect();
    assert_eq!(originals.len(), 3);
    for index in originals {
        assert_eq!(*index, ClippedIndex::OriginalIndex(0));
    }
}

#[test]
fn test_clip_edge_on_plane_is_kept_above() {
    // A plane exactly coincident with an edge: its endpoints are at zero
    // distance, which counts as not submerged, so the face is clipped
    // whole without panicking and without emitting anything.
    let positions = vec![v(0, 0, 0), v(2, 0, 0), v(1, 2, 0)];
    let indices = vec![0, 1, 2];
    let hull = Hull::build(positions, indices).unwrap();
    let plane = Plane { normal: v(0, 1, 0), zero_point: v(0, 0, 0) };

    let result = hull.clip_with_plane(&plane);

    assert_eq!(result.indices.len(), 0);
    assert_eq!(result.patch_vertices.len(), 0);
}
