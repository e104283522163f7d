use hullclip::geometry::Vec3;
use hullclip::hull::HullShape;
use hullclip::hull::builder::HullShapeIntoError;

fn v(x: i64, y: i64, z: i64) -> Vec3 {
    Vec3 { x, y, z }
}

/// A strip of three triangles in which every shared edge is traversed in
/// the same direction by both triangles, so flattening reproduces the
/// index list exactly.
fn strip_mesh() -> (Vec<Vec3>, Vec<usize>) {
    let positions = vec![
        v(0, 0, 0),
        v(2, 0, 0),
        v(1, 2, 0),
        v(3, 2, 0),
        v(2, 4, 0),
    ];
    let indices = vec![0, 1, 2, 1, 2, 3, 2, 3, 4];
    (positions, indices)
}

#[test]
fn test_into() {
    // Build a mesh into a hull topology, then flatten it back.
    let (positions, indices) = strip_mesh();

    let hull: HullShape = HullShape::build(positions.clone(), indices.clone()).unwrap();

    // Edges never join a vertex to itself.
    for edge in hull.edges.iter() {
        assert_ne!(edge.vertex_indexes[0], edge.vertex_indexes[1]);
    }

    let (new_positions, new_indices) = hull.flatten();

    assert_eq!(positions, new_positions);
    assert_eq!(indices, new_indices);
}

#[test]
fn test_edges_are_deduplicated() {
    let (positions, indices) = strip_mesh();
    let hull = HullShape::build(positions, indices).unwrap();
    // 3 triangles with 9 sides, of which 2 are shared: 7 distinct edges.
    assert_eq!(hull.edges.len(), 7);
    assert_eq!(hull.vertices.len(), 5);
    assert_eq!(hull.faces.len(), 3);
    // Each face's side edge connects its corner and the next, cyclically.
    for face in hull.faces.iter() {
        for j in 0..3 {
            let a = face.vertex_indices[j];
            let b = face.vertex_indices[(j + 1) % 3];
            let e = &hull.edges[face.edge_indexes[j]];
            let pair = [e.vertex_indexes[0], e.vertex_indexes[1]];
            assert!(pair == [a, b] || pair == [b, a]);
        }
    }
}

#[test]
fn test_vertex_adjacency() {
    let (positions, indices) = strip_mesh();
    let hull = HullShape::build(positions, indices).unwrap();
    // Vertex 2 is a corner of all three triangles; vertex 0 of just one.
    assert_eq!(hull.vertices[2].face_indices, vec![0, 1, 2]);
    assert_eq!(hull.vertices[0].face_indices, vec![0]);
    // Vertex 0 touches two edges: (0,1) and (2,0).
    assert_eq!(hull.vertices[0].edge_indices.len(), 2);
}

#[test]
fn test_build_rejects_non_triangle_list() {
    let r = HullShape::build(vec![v(0, 0, 0), v(1, 0, 0)], vec![0, 1]);
    assert!(matches!(r, Err(HullShapeIntoError::WrongTopologyType)));
}

#[test]
fn test_build_rejects_missing_positions() {
    let r = HullShape::build(Vec::new(), Vec::new());
    assert!(matches!(r, Err(HullShapeIntoError::MissingPositionAttribute)));
}
