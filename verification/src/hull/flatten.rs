//! Flattening a topology, or a clip result, back into a raw position buffer
//! and flat triangle index list.

use crate::geometry::Vec3;
use crate::hull::ClippedHull;
use crate::hull::ClippedIndex;
use crate::hull::HullShape;
use crate::hull::builder::built_from;
use crate::hull::builder::no_reversed_sides;
use vstd::prelude::*;

verus! {

impl HullShape {
    /// The flat index emitted for side `j` of face `f`: the first stored
    /// endpoint of the edge at that side.
    pub open spec fn flat_index(self, f: int, j: int) -> usize {
        self.edges[self.face_edge(f, j)].vertex_indexes[0]
    }

    /// Flattens the topology back into a raw mesh: the vertex positions in
    /// order, and one index triple per face, read from the first endpoint
    /// of each of its three side edges. The triangle list is topologically
    /// equivalent to the one the shape was built from, though a shared
    /// edge's stored direction may relabel a corner; see
    /// `lemma_flatten_round_trip`.
    pub fn flatten(&self) -> (r: (Vec<Vec3>, Vec<usize>))
        requires
            forall|f: int, j: int|
                0 <= f < self.faces.len() && 0 <= j < 3 ==> 0 <= #[trigger] self.face_edge(f, j)
                    < self.edges.len(),
        ensures
            r.0@.len() == self.vertices.len(),
            forall|v: int|
                0 <= v < self.vertices.len() ==> r.0@[v] == #[trigger] self.vertex_position(v),
            r.1@.len() == 3 * self.faces.len(),
            forall|f: int, j: int|
                0 <= f < self.faces.len() && 0 <= j < 3 ==> r.1@[3 * f + j]
                    == #[trigger] self.flat_index(f, j),
    {
        let mut positions: Vec<Vec3> = Vec::new();
        let mut v: usize = 0;
        while v < self.vertices.len()
            invariant
                v <= self.vertices.len(),
                positions.len() == v,
                forall|i: int|
                    0 <= i < v ==> positions[i] == #[trigger] self.vertex_position(i),
            decreases self.vertices.len() - v,
        {
            positions.push(self.vertices[v].position);
            v = v + 1;
        }
        let mut indices: Vec<usize> = Vec::new();
        let mut f: usize = 0;
        while f < self.faces.len()
            invariant
                f <= self.faces.len(),
                indices.len() == 3 * f,
                forall|ff: int, j: int|
                    0 <= ff < f && 0 <= j < 3 ==> indices[3 * ff + j] == #[trigger] self.flat_index(
                        ff,
                        j,
                    ),
                forall|ff: int, j: int|
                    0 <= ff < self.faces.len() && 0 <= j < 3 ==> 0 <= #[trigger] self.face_edge(
                        ff,
                        j,
                    ) < self.edges.len(),
            decreases self.faces.len() - f,
        {
            let e0 = self.faces[f].edge_indexes[0];
            let e1 = self.faces[f].edge_indexes[1];
            let e2 = self.faces[f].edge_indexes[2];
            proof {
                assert(e0 == self.face_edge(f as int, 0));
                assert(e1 == self.face_edge(f as int, 1));
                assert(e2 == self.face_edge(f as int, 2));
            }
            indices.push(self.edges[e0].vertex_indexes[0]);
            indices.push(self.edges[e1].vertex_indexes[0]);
            indices.push(self.edges[e2].vertex_indexes[0]);
            f = f + 1;
        }
        (positions, indices)
    }
}

impl ClippedHull {
    /// Every emitted index refers to an existing original vertex or an
    /// existing patch vertex.
    pub open spec fn indices_wf(self) -> bool {
        forall|k: int|
            0 <= k < self.indices.len() ==> match #[trigger] self.indices[k] {
                ClippedIndex::OriginalIndex(i) => i < self.shape.vertices.len(),
                ClippedIndex::PatchIndex(p) => p < self.patch_vertices.len(),
            }
    }

    /// What a tagged index resolves to in the flattened buffer: original
    /// vertices keep their slot, patch vertices follow them.
    pub open spec fn resolved_index(self, ci: ClippedIndex) -> int {
        match ci {
            ClippedIndex::OriginalIndex(i) => i as int,
            ClippedIndex::PatchIndex(p) => p + self.shape.vertices.len(),
        }
    }

    /// Flattens the clip result into a raw mesh: the original vertex
    /// positions followed by the synthesized patch vertex positions, and
    /// the emitted index list with each patch index offset past the
    /// original vertices.
    pub fn flatten(&self) -> (r: (Vec<Vec3>, Vec<usize>))
        requires
            self.indices_wf(),
            self.shape.vertices.len() + self.patch_vertices.len() <= usize::MAX,
        ensures
            r.0@.len() == self.shape.vertices.len() + self.patch_vertices.len(),
            forall|v: int|
                0 <= v < self.shape.vertices.len() ==> r.0@[v] == #[trigger] self.shape.vertex_position(
                    v,
                ),
            forall|p: int|
                0 <= p < self.patch_vertices.len() ==> r.0@[self.shape.vertices.len() + p]
                    == #[trigger] self.patch_vertices[p],
            r.1@.len() == self.indices.len(),
            forall|k: int|
                0 <= k < self.indices.len() ==> r.1@[k] == self.resolved_index(
                    #[trigger] self.indices[k],
                ),
    {
        let mut positions: Vec<Vec3> = Vec::new();
        let n_original = self.shape.vertices.len();
        let mut v: usize = 0;
        while v < n_original
            invariant
                v <= n_original,
                n_original == self.shape.vertices.len(),
                positions.len() == v,
                forall|i: int|
                    0 <= i < v ==> positions[i] == #[trigger] self.shape.vertex_position(i),
            decreases n_original - v,
        {
            positions.push(self.shape.vertices[v].position);
            v = v + 1;
        }
        let mut p: usize = 0;
        while p < self.patch_vertices.len()
            invariant
                p <= self.patch_vertices.len(),
                n_original == self.shape.vertices.len(),
                positions.len() == n_original + p,
                forall|i: int|
                    0 <= i < n_original ==> positions[i] == #[trigger] self.shape.vertex_position(
                        i,
                    ),
                forall|i: int|
                    0 <= i < p ==> positions[n_original + i] == #[trigger] self.patch_vertices[i],
                self.shape.vertices.len() + self.patch_vertices.len() <= usize::MAX,
            decreases self.patch_vertices.len() - p,
        {
            positions.push(self.patch_vertices[p]);
            p = p + 1;
        }
        let mut indices: Vec<usize> = Vec::new();
        let mut k: usize = 0;
        while k < self.indices.len()
            invariant
                k <= self.indices.len(),
                n_original == self.shape.vertices.len(),
                indices.len() == k,
                self.indices_wf(),
                self.shape.vertices.len() + self.patch_vertices.len() <= usize::MAX,
                forall|i: int|
                    0 <= i < k ==> indices[i] == self.resolved_index(#[trigger] self.indices[i]),
            decreases self.indices.len() - k,
        {
            match self.indices[k] {
                ClippedIndex::OriginalIndex(i) => indices.push(i),
                ClippedIndex::PatchIndex(pi) => indices.push(pi + n_original),
            }
            k = k + 1;
        }
        (positions, indices)
    }
}

/// Round trip: flattening a topology built from raw buffers yields back
/// the exact vertex positions, and, as long as no two sides of the input
/// traverse a shared edge in opposite directions, the exact index list.
pub proof fn lemma_flatten_round_trip(shape: HullShape, positions: Seq<Vec3>, indices: Seq<usize>)
    requires
        built_from(shape, positions, indices),
        no_reversed_sides(indices),
    ensures
        shape.vertices.len() == positions.len(),
        forall|v: int|
            0 <= v < shape.vertices.len() ==> #[trigger] shape.vertex_position(v) == positions[v],
        3 * shape.faces.len() == indices.len(),
        forall|f: int, j: int|
            0 <= f < shape.faces.len() && 0 <= j < 3 ==> #[trigger] shape.flat_index(f, j)
                == indices[3 * f + j],
{
    vstd::arithmetic::div_mod::lemma_fundamental_div_mod(indices.len() as int, 3);
    assert forall|f: int, j: int|
        0 <= f < shape.faces.len() && 0 <= j < 3 implies #[trigger] shape.flat_index(f, j)
        == indices[3 * f + j] by {
        let e = shape.face_edge(f, j);
        assert(crate::hull::builder::econn(
            shape.edges@,
            e,
            crate::hull::builder::side_a(indices, f, j),
            crate::hull::builder::side_b(indices, f, j),
        ));
        assert(crate::hull::builder::is_input_side(
            indices,
            shape.edges@[e].vertex_indexes[0],
            shape.edges@[e].vertex_indexes[1],
        ));
        let (k, j2) = choose|k: int, j2: int|
            0 <= k < indices.len() / 3 && 0 <= j2 < 3 && #[trigger] crate::hull::builder::side_a(
                indices,
                k,
                j2,
            ) == shape.edges@[e].vertex_indexes[0] && crate::hull::builder::side_b(indices, k, j2)
                == shape.edges@[e].vertex_indexes[1];
        if shape.edges@[e].vertex_indexes[0] == crate::hull::builder::side_b(indices, f, j)
            && shape.edges@[e].vertex_indexes[1] == crate::hull::builder::side_a(indices, f, j)
            && shape.edges@[e].vertex_indexes[0] != crate::hull::builder::side_a(indices, f, j) {
            assert(crate::hull::builder::side_a(indices, k, j2) == crate::hull::builder::side_b(
                indices,
                f,
                j,
            ));
            assert(crate::hull::builder::side_b(indices, k, j2) == crate::hull::builder::side_a(
                indices,
                f,
                j,
            ));
            assert(crate::hull::builder::side_a(indices, f, j) == crate::hull::builder::side_a(
                indices,
                k,
                j2,
            ));
            assert(false);
        }
    }
}

} // verus!
