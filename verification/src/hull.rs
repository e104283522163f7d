//! Mesh topology: vertices, deduplicated edges and faces, with the
//! well-formedness invariants the clipper relies on.

use crate::geometry::Vec3;
use crate::geometry::coords_bounded;
use std::sync::Arc;
use vstd::prelude::*;

pub mod builder;
pub mod clipping;
pub mod flatten;

verus! {

/// A vertex of the topology: its position and back-references to the edges
/// and faces that touch it.
pub struct HullVertex {
    pub position: Vec3,
    /// Indices into `HullShape::edges` of every edge with this vertex as an
    /// endpoint, in order of creation, without repetition.
    pub edge_indices: Vec<usize>,
    /// Indices into `HullShape::faces` of every face with this vertex as a
    /// corner, in order of creation, without repetition.
    pub face_indices: Vec<usize>,
}

/// An edge of the topology: its two endpoint vertex indices, in the order
/// the side that created it traversed them, and up to two incident faces
/// (only the creating face is recorded).
pub struct HullEdge {
    pub vertex_indexes: [usize; 2],
    pub face_indexes: [usize; 2],
}

/// A face of the topology: three vertex indices in input order, and the
/// three edge indices such that edge `i` connects vertex `i` and vertex
/// `(i + 1) % 3`.
pub struct HullFace {
    pub edge_indexes: [usize; 3],
    pub vertex_indices: [usize; 3],
}

/// The immutable topology of one mesh.
pub struct HullShape {
    pub vertices: Vec<HullVertex>,
    pub edges: Vec<HullEdge>,
    pub faces: Vec<HullFace>,
}

/// A handle on a shared, read-only topology: the attachable object that
/// clipping operates on. Clipping never mutates the shape, so one shape may
/// be shared between a live hull and any number of in-flight clip results.
pub struct Hull {
    pub shape: Arc<HullShape>,
}

/// One entry of a clip result's index list: either a vertex of the original
/// topology, by its index into `HullShape::vertices`, or a boundary vertex
/// synthesized by the clip, by its index into the result's own
/// `patch_vertices`.
#[derive(Eq, Hash, PartialEq, Copy, Clone, Structural, Debug)]
pub enum ClippedIndex {
    OriginalIndex(usize),
    PatchIndex(usize),
}

/// The outcome of clipping a hull against a plane: the original shape
/// (shared, for original-vertex lookups), the synthesized boundary vertex
/// positions, and the emitted triangle index list, three entries per
/// triangle.
pub struct ClippedHull {
    pub shape: Arc<HullShape>,
    pub indices: Vec<ClippedIndex>,
    pub patch_vertices: Vec<Vec3>,
}

impl HullShape {
    /// The vertex index at corner `j` of face `f`.
    pub open spec fn face_vertex(self, f: int, j: int) -> int {
        self.faces[f].vertex_indices[j] as int
    }

    /// The edge index at side `j` of face `f`.
    pub open spec fn face_edge(self, f: int, j: int) -> int {
        self.faces[f].edge_indexes[j] as int
    }

    /// The vertex index at end `j` of edge `e`.
    pub open spec fn edge_vertex(self, e: int, j: int) -> int {
        self.edges[e].vertex_indexes[j] as int
    }

    /// The position of vertex `v`.
    pub open spec fn vertex_position(self, v: int) -> Vec3 {
        self.vertices[v].position
    }

    /// Edge `e` connects exactly the unordered vertex pair `{a, b}`.
    pub open spec fn edge_connects(self, e: int, a: int, b: int) -> bool {
        ||| (self.edge_vertex(e, 0) == a && self.edge_vertex(e, 1) == b)
        ||| (self.edge_vertex(e, 0) == b && self.edge_vertex(e, 1) == a)
    }

    /// Vertex `v` is one of the three corners of face `f`.
    pub open spec fn face_has_vertex(self, f: int, v: int) -> bool {
        exists|j: int| 0 <= j < 3 && self.face_vertex(f, j) == v
    }

    /// Every index stored anywhere in the shape refers to an existing
    /// vertex, edge or face.
    pub open spec fn indices_in_range(self) -> bool {
        &&& forall|f: int, j: int|
            0 <= f < self.faces.len() && 0 <= j < 3 ==> 0 <= #[trigger] self.face_vertex(f, j)
                < self.vertices.len()
        &&& forall|f: int, j: int|
            0 <= f < self.faces.len() && 0 <= j < 3 ==> 0 <= #[trigger] self.face_edge(f, j)
                < self.edges.len()
        &&& forall|e: int, j: int|
            0 <= e < self.edges.len() && 0 <= j < 2 ==> 0 <= #[trigger] self.edge_vertex(e, j)
                < self.vertices.len()
        &&& forall|v: int, k: int|
            0 <= v < self.vertices.len() && 0 <= k < self.vertices[v].face_indices.len() ==> 0 <= (
            #[trigger] self.vertices[v].face_indices[k]) < self.faces.len()
        &&& forall|v: int, k: int|
            0 <= v < self.vertices.len() && 0 <= k < self.vertices[v].edge_indices.len() ==> 0 <= (
            #[trigger] self.vertices[v].edge_indices[k]) < self.edges.len()
    }

    /// The edge at side `j` of every face connects face vertices `j` and
    /// `(j + 1) % 3`, and the three corners of every face are pairwise
    /// distinct.
    pub open spec fn faces_wf(self) -> bool {
        &&& forall|f: int, j: int|
            0 <= f < self.faces.len() && 0 <= j < 3 ==> self.edge_connects(
                #[trigger] self.face_edge(f, j),
                self.face_vertex(f, j),
                self.face_vertex(f, (j + 1) % 3),
            )
        &&& forall|f: int|
            0 <= f < self.faces.len() ==> #[trigger] self.face_vertex(f, 0) != self.face_vertex(
                f,
                1,
            ) && self.face_vertex(f, 0) != self.face_vertex(f, 2) && self.face_vertex(f, 1)
                != self.face_vertex(f, 2)
    }

    /// No edge joins a vertex to itself, and no two distinct edges connect
    /// the same unordered vertex pair.
    pub open spec fn edges_wf(self) -> bool {
        &&& forall|e: int|
            0 <= e < self.edges.len() ==> #[trigger] self.edge_vertex(e, 0) != self.edge_vertex(
                e,
                1,
            )
        &&& forall|e1: int, e2: int|
            0 <= e1 < self.edges.len() && 0 <= e2 < self.edges.len() && e1 != e2 ==> !(
            #[trigger] self.edge_connects(e1, self.edge_vertex(e2, 0), self.edge_vertex(e2, 1)))
    }

    /// Each vertex's face list holds exactly the faces it is a corner of,
    /// without repetition.
    pub open spec fn vertex_faces_wf(self) -> bool {
        &&& forall|v: int, k1: int, k2: int|
            0 <= v < self.vertices.len() && 0 <= k1 < k2 < self.vertices[v].face_indices.len()
                ==> #[trigger] self.vertices[v].face_indices[k1]
                != #[trigger] self.vertices[v].face_indices[k2]
        &&& forall|v: int, f: int|
            0 <= v < self.vertices.len() && 0 <= f < self.faces.len() ==> (self.face_has_vertex(
                f,
                v,
            ) <==> #[trigger] self.vertices[v].face_indices@.contains(f as usize))
    }

    /// Each vertex's edge list holds exactly the edges it is an endpoint
    /// of, without repetition.
    pub open spec fn vertex_edges_wf(self) -> bool {
        &&& forall|v: int, k1: int, k2: int|
            0 <= v < self.vertices.len() && 0 <= k1 < k2 < self.vertices[v].edge_indices.len()
                ==> #[trigger] self.vertices[v].edge_indices[k1]
                != #[trigger] self.vertices[v].edge_indices[k2]
        &&& forall|v: int, e: int|
            0 <= v < self.vertices.len() && 0 <= e < self.edges.len() ==> ((self.edge_vertex(e, 0)
                == v || self.edge_vertex(e, 1) == v) <==> #[trigger] self.vertices[v].edge_indices@.contains(
                e as usize,
            ))
    }

    /// Full well-formedness: what `build` establishes for non-degenerate
    /// input and what `clip_with_plane` relies on.
    pub open spec fn wf(self) -> bool {
        &&& self.indices_in_range()
        &&& self.faces_wf()
        &&& self.edges_wf()
        &&& self.vertex_faces_wf()
        &&& self.vertex_edges_wf()
    }

    /// Every vertex position is within the coordinate bound the arithmetic
    /// primitives accept.
    pub open spec fn positions_bounded(self) -> bool {
        forall|v: int|
            0 <= v < self.vertices.len() ==> coords_bounded(#[trigger] self.vertex_position(v))
    }
}

} // verus!
