//! Topology construction: turning a raw indexed triangle list into a
//! `HullShape` with deduplicated edges and full adjacency back-references.

use crate::geometry::Vec3;
use crate::hull::Hull;
use crate::hull::HullEdge;
use crate::hull::HullFace;
use crate::hull::HullShape;
use crate::hull::HullVertex;
use std::sync::Arc;
use vstd::prelude::*;

verus! {

broadcast use vstd::seq_lib::lemma_seq_contains_after_push;

/// Why a raw mesh could not be turned into a topology.
#[derive(Debug, PartialEq, Eq, Structural, Clone, Copy)]
pub enum HullShapeIntoError {
    /// The flat index list does not describe a pure triangle list (its
    /// length is not a multiple of three).
    WrongTopologyType,
    /// The mesh carries no position data at all.
    MissingPositionAttribute,
}

/// The leading vertex of side `j` of triangle `k`: sides run cyclically
/// from vertex `j` to vertex `(j + 1) % 3` of the triangle.
pub open spec fn side_a(indices: Seq<usize>, k: int, j: int) -> usize {
    indices[3 * k + j]
}

/// The trailing vertex of side `j` of triangle `k`.
pub open spec fn side_b(indices: Seq<usize>, k: int, j: int) -> usize {
    indices[3 * k + (j + 1) % 3]
}

/// Edge `e` of `edges` connects exactly the unordered vertex pair `{a, b}`.
pub open spec fn econn(edges: Seq<HullEdge>, e: int, a: usize, b: usize) -> bool {
    ||| (edges[e].vertex_indexes[0] == a && edges[e].vertex_indexes[1] == b)
    ||| (edges[e].vertex_indexes[0] == b && edges[e].vertex_indexes[1] == a)
}

/// Vertex `v` is a corner of triangle `k` of the index list.
pub open spec fn corner_of(indices: Seq<usize>, k: int, v: usize) -> bool {
    exists|j: int| 0 <= j < 3 && #[trigger] indices[3 * k + j] == v
}

/// Some side of some triangle of the index list runs from `a` to `b`, in
/// that direction.
pub open spec fn is_input_side(indices: Seq<usize>, a: usize, b: usize) -> bool {
    exists|k: int, j: int|
        0 <= k < indices.len() / 3 && 0 <= j < 3 && #[trigger] side_a(indices, k, j) == a
            && side_b(indices, k, j) == b
}

/// No triangle of the index list repeats a vertex: every side has two
/// distinct endpoints.
pub open spec fn nondegenerate_triangles(indices: Seq<usize>) -> bool {
    forall|k: int, j: int|
        0 <= k < indices.len() / 3 && 0 <= j < 3 ==> #[trigger] side_a(indices, k, j) != side_b(
            indices,
            k,
            j,
        )
}

/// Any two sides of the index list that connect the same unordered vertex
/// pair traverse it in the same direction. Under this condition the stored
/// direction of every deduplicated edge agrees with every side that uses
/// it, and flattening reproduces the index list exactly.
pub open spec fn no_reversed_sides(indices: Seq<usize>) -> bool {
    forall|k1: int, j1: int, k2: int, j2: int|
        0 <= k1 < indices.len() / 3 && 0 <= j1 < 3 && 0 <= k2 < indices.len() / 3 && 0 <= j2 < 3
            && ((side_a(indices, k1, j1) == side_a(indices, k2, j2) && side_b(indices, k1, j1)
            == side_b(indices, k2, j2)) || (side_a(indices, k1, j1) == side_b(indices, k2, j2)
            && side_b(indices, k1, j1) == side_a(indices, k2, j2))) ==> #[trigger] side_a(
            indices,
            k1,
            j1,
        ) == #[trigger] side_a(indices, k2, j2)
}

/// Mid-construction invariant over everything but the per-vertex face
/// lists: positions imported verbatim, the first `faces.len()` triangles
/// recorded with their sides resolved to matching edges, edges
/// deduplicated, in range, directed as some side of the input, and every
/// vertex's edge list holding exactly its incident edges.
pub open spec fn core_inv(
    vertices: Seq<HullVertex>,
    edges: Seq<HullEdge>,
    faces: Seq<HullFace>,
    positions: Seq<Vec3>,
    indices: Seq<usize>,
) -> bool {
    &&& vertices.len() == positions.len()
    &&& forall|v: int| 0 <= v < vertices.len() ==> (#[trigger] vertices[v]).position == positions[v]
    &&& 3 * faces.len() <= indices.len()
    &&& forall|f: int, j: int|
        0 <= f < faces.len() && 0 <= j < 3 ==> (#[trigger] faces[f].vertex_indices[j]) == indices[3
            * f + j]
    &&& forall|f: int, j: int|
        0 <= f < faces.len() && 0 <= j < 3 ==> (#[trigger] faces[f].edge_indexes[j]) < edges.len()
            && econn(
            edges,
            faces[f].edge_indexes[j] as int,
            side_a(indices, f, j),
            side_b(indices, f, j),
        )
    &&& forall|e: int, je: int|
        0 <= e < edges.len() && 0 <= je < 2 ==> (#[trigger] edges[e].vertex_indexes[je])
            < vertices.len()
    &&& forall|e1: int, e2: int|
        0 <= e1 < edges.len() && 0 <= e2 < edges.len() && e1 != e2 ==> !(#[trigger] econn(
            edges,
            e1,
            edges[e2].vertex_indexes[0],
            edges[e2].vertex_indexes[1],
        ))
    &&& forall|e: int|
        0 <= e < edges.len() ==> #[trigger] is_input_side(
            indices,
            edges[e].vertex_indexes[0],
            edges[e].vertex_indexes[1],
        )
    &&& forall|v: int, k1: int, k2: int|
        0 <= v < vertices.len() && 0 <= k1 < k2 < vertices[v].edge_indices.len()
            ==> #[trigger] vertices[v].edge_indices[k1] != #[trigger] vertices[v].edge_indices[k2]
    &&& forall|v: int, k1: int|
        0 <= v < vertices.len() && 0 <= k1 < vertices[v].edge_indices.len() ==> (
        #[trigger] vertices[v].edge_indices[k1]) < edges.len()
    &&& forall|v: int, e: int|
        0 <= v < vertices.len() && 0 <= e < edges.len() ==> ((edges[e].vertex_indexes[0] == v
            || edges[e].vertex_indexes[1] == v) <==> #[trigger] vertices[v].edge_indices@.contains(
            e as usize,
        ))
}

/// Mid-construction invariant of the per-vertex face lists once `nfaces`
/// triangles have been fully processed: each list holds exactly the faces
/// the vertex is a corner of, without repetition.
pub open spec fn flist_inv(
    vertices: Seq<HullVertex>,
    nfaces: int,
    indices: Seq<usize>,
) -> bool {
    &&& forall|v: int, k1: int, k2: int|
        0 <= v < vertices.len() && 0 <= k1 < k2 < vertices[v].face_indices.len()
            ==> #[trigger] vertices[v].face_indices[k1] != #[trigger] vertices[v].face_indices[k2]
    &&& forall|v: int, k1: int|
        0 <= v < vertices.len() && 0 <= k1 < vertices[v].face_indices.len() ==> (
        #[trigger] vertices[v].face_indices[k1]) < nfaces
    &&& forall|v: int, f: int|
        0 <= v < vertices.len() && 0 <= f < nfaces ==> (corner_of(indices, f, v as usize)
            <==> #[trigger] vertices[v].face_indices@.contains(f as usize))
}

/// What `HullShape::build` guarantees of its result: the shape is built
/// from exactly these buffers. Everything here is unconditional; see
/// `lemma_built_wf` for full well-formedness under non-degenerate input.
pub open spec fn built_from(shape: HullShape, positions: Seq<Vec3>, indices: Seq<usize>) -> bool {
    &&& shape.faces.len() == indices.len() / 3
    &&& indices.len() % 3 == 0
    &&& forall|k: int| 0 <= k < indices.len() ==> (#[trigger] indices[k]) < positions.len()
    &&& core_inv(shape.vertices@, shape.edges@, shape.faces@, positions, indices)
    &&& flist_inv(shape.vertices@, shape.faces.len() as int, indices)
}

impl HullVertex {
    /// Registers `face_index` in this vertex's face list, unless it is
    /// already there.
    pub fn add_face(&mut self, face_index: usize)
        ensures
            final (self).position == old(self).position,
            final (self).edge_indices == old(self).edge_indices,
            old(self).face_indices@.contains(face_index) ==> final (self).face_indices == old(
                self,
            ).face_indices,
            !old(self).face_indices@.contains(face_index) ==> final (self).face_indices@ == old(
                self,
            ).face_indices@.push(face_index),
    {
        let mut i: usize = 0;
        while i < self.face_indices.len()
            invariant
                0 <= i <= self.face_indices.len(),
                forall|k: int| 0 <= k < i ==> self.face_indices[k] != face_index,
                self == old(self),
            decreases self.face_indices.len() - i,
        {
            if face_index == self.face_indices[i] {
                return ;
            }
            i = i + 1;
        }
        self.face_indices.push(face_index);
    }
}

impl HullShape {
    /// Builds the adjacency-aware topology of a raw indexed triangle mesh:
    /// positions are imported verbatim as vertices; each triangle becomes a
    /// face whose three sides resolve to deduplicated edges (the same
    /// unordered vertex pair always resolves to a single edge entry, no
    /// matter which face inserts it first); every vertex learns the edges
    /// and faces that touch it.
    pub fn build(positions: Vec<Vec3>, indices: Vec<usize>) -> (r: Result<
        HullShape,
        HullShapeIntoError,
    >)
        requires
            indices.len() % 3 == 0 && positions.len() > 0 ==> forall|k: int|
                0 <= k < indices.len() ==> (#[trigger] indices[k]) < positions.len(),
        ensures
            indices.len() % 3 != 0 ==> r == Result::<HullShape, HullShapeIntoError>::Err(
                HullShapeIntoError::WrongTopologyType,
            ),
            indices.len() % 3 == 0 && positions.len() == 0 ==> r == Result::<
                HullShape,
                HullShapeIntoError,
            >::Err(HullShapeIntoError::MissingPositionAttribute),
            indices.len() % 3 == 0 && positions.len() > 0 ==> (r matches Ok(shape) && built_from(
                shape,
                positions@,
                indices@,
            )),
    {
        if indices.len() % 3 != 0 {
            return Err(HullShapeIntoError::WrongTopologyType);
        }
        if positions.len() == 0 {
            return Err(HullShapeIntoError::MissingPositionAttribute);
        }
        let mut vertices: Vec<HullVertex> = Vec::new();
        let mut i: usize = 0;
        while i < positions.len()
            invariant
                i <= positions.len(),
                vertices.len() == i,
                forall|v: int|
                    0 <= v < i ==> (#[trigger] vertices[v]).position == positions[v]
                        && vertices[v].edge_indices.len() == 0 && vertices[v].face_indices.len()
                        == 0,
            decreases positions.len() - i,
        {
            vertices.push(
                HullVertex {
                    position: positions[i],
                    edge_indices: Vec::new(),
                    face_indices: Vec::new(),
                },
            );
            i = i + 1;
        }
        let mut edges: Vec<HullEdge> = Vec::new();
        let mut faces: Vec<HullFace> = Vec::new();
        let n_tri = indices.len() / 3;
        let mut t: usize = 0;
        while t < n_tri
            invariant
                t <= n_tri,
                n_tri == indices.len() / 3,
                indices.len() % 3 == 0,
                positions.len() > 0,
                forall|k: int| 0 <= k < indices.len() ==> (#[trigger] indices[k]) < positions.len(),
                faces.len() == t,
                core_inv(vertices@, edges@, faces@, positions@, indices@),
                flist_inv(vertices@, t as int, indices@),
            decreases n_tri - t,
        {
            proof {
                vstd::arithmetic::div_mod::lemma_fundamental_div_mod(indices@.len() as int, 3);
                assert(3 * (t as int) + 3 <= indices@.len());
            }
            let base = 3 * t;
            let corners: [usize; 3] = [indices[base], indices[base + 1], indices[base + 2]];
            let this_face = faces.len();
            let mut fe: [usize; 3] = [0, 0, 0];
            let mut j: usize = 0;
            while j < 3
                invariant
                    j <= 3,
                    t < n_tri,
                    n_tri == indices.len() / 3,
                    faces.len() == t,
                    this_face == t,
                    corners@ =~= indices@.subrange(3 * t, 3 * t + 3),
                    forall|k: int|
                        0 <= k < indices.len() ==> (#[trigger] indices[k]) < positions.len(),
                    core_inv(vertices@, edges@, faces@, positions@, indices@),
                    forall|v: int, k1: int, k2: int|
                        0 <= v < vertices.len() && 0 <= k1 < k2 < vertices[v].face_indices.len()
                            ==> #[trigger] vertices[v].face_indices[k1]
                            != #[trigger] vertices[v].face_indices[k2],
                    forall|v: int, k1: int|
                        0 <= v < vertices.len() && 0 <= k1 < vertices[v].face_indices.len() ==> (
                        #[trigger] vertices[v].face_indices[k1]) <= t,
                    forall|v: int, f: int|
                        0 <= v < vertices.len() && 0 <= f < t ==> (corner_of(
                            indices@,
                            f,
                            v as usize,
                        ) <==> #[trigger] vertices[v].face_indices@.contains(f as usize)),
                    forall|v: int|
                        0 <= v < vertices.len() ==> ((#[trigger] vertices[v].face_indices@.contains(
                            t as usize,
                        )) <==> exists|jj: int|
                            0 <= jj < j && #[trigger] indices[3 * (t as int) + jj] == v),
                    forall|jj: int|
                        0 <= jj < j ==> (#[trigger] fe@[jj]) < edges.len() && econn(
                            edges@,
                            fe@[jj] as int,
                            side_a(indices@, t as int, jj),
                            side_b(indices@, t as int, jj),
                        ),
                decreases 3 - j,
            {
                let a = corners[j];
                let b = corners[(j + 1) % 3];
                proof {
                    assert(a == side_a(indices@, t as int, j as int));
                    assert(b == side_b(indices@, t as int, j as int));
                }
                let ghost pre_af = vertices@;
                vertices[a].add_face(this_face);
                proof {
                    assert(vertices@ =~= pre_af.update(a as int, vertices@[a as int]));
                    assert(forall|v: int|
                        0 <= v < vertices@.len() && v != a ==> vertices@[v] == pre_af[v]);
                    assert(vertices@[a as int].position == pre_af[a as int].position);
                    assert(vertices@[a as int].edge_indices == pre_af[a as int].edge_indices);
                    if pre_af[a as int].face_indices@.contains(this_face) {
                        assert(vertices@[a as int].face_indices == pre_af[a as int].face_indices);
                    } else {
                        assert(vertices@[a as int].face_indices@ == pre_af[a as int].face_indices@.push(
                            this_face,
                        ));
                    }
                }
                let mut found = false;
                let mut e_idx: usize = 0;
                let mut k: usize = 0;
                let n_incident = vertices[a].edge_indices.len();
                while k < n_incident
                    invariant
                        k <= n_incident,
                        n_incident == vertices[a as int].edge_indices.len(),
                        a < vertices.len(),
                        b < vertices.len(),
                        core_inv(vertices@, edges@, faces@, positions@, indices@),
                        found ==> e_idx < edges.len() && econn(edges@, e_idx as int, a, b),
                        !found ==> forall|kk: int|
                            0 <= kk < k ==> !econn(
                                edges@,
                                (#[trigger] vertices[a as int].edge_indices[kk]) as int,
                                a,
                                b,
                            ),
                    decreases n_incident - k,
                {
                    let cand = vertices[a].edge_indices[k];
                    let c0 = edges[cand].vertex_indexes[0];
                    let c1 = edges[cand].vertex_indexes[1];
                    if (c0 == a && c1 == b) || (c0 == b && c1 == a) {
                        found = true;
                        e_idx = cand;
                    }
                    k = k + 1;
                }
                if !found {
                    proof {
                        assert(edges.len() == edges@.len());
                        assert forall|e: int| 0 <= e < edges@.len() implies !econn(edges@, e, a, b) by {
                            if econn(edges@, e, a, b) {
                                assert(edges@[e].vertex_indexes[0] == a
                                    || edges@[e].vertex_indexes[1] == a);
                                assert(vertices[a as int].edge_indices@.contains(e as usize));
                                let kk = choose|kk: int|
                                    0 <= kk < vertices[a as int].edge_indices@.len() && vertices[a as int].edge_indices@[kk]
                                        == e as usize;
                                assert((e as usize) as int == e);
                                assert(vertices[a as int].edge_indices[kk] == e as usize);
                                assert(!econn(
                                    edges@,
                                    vertices[a as int].edge_indices[kk] as int,
                                    a,
                                    b,
                                ));
                                assert(false);
                            }
                        }
                    }
                    e_idx = edges.len();
                    let ghost pre_edges = edges@;
                    let ghost pre_ep = vertices@;
                    edges.push(HullEdge { vertex_indexes: [a, b], face_indexes: [this_face, 0] });
                    proof {
                        assert(edges@ =~= pre_edges.push(
                            HullEdge { vertex_indexes: [a, b], face_indexes: [this_face, 0] },
                        ));
                        assert(edges@[e_idx as int].vertex_indexes[0] == a);
                        assert(edges@[e_idx as int].vertex_indexes[1] == b);
                        assert(forall|e: int| 0 <= e < e_idx ==> edges@[e] == pre_edges[e]);
                    }
                    vertices[a].edge_indices.push(e_idx);
                    proof {
                        assert(forall|v: int|
                            0 <= v < vertices@.len() && v != a ==> vertices@[v] == pre_ep[v]);
                        assert(vertices@[a as int].edge_indices@ == pre_ep[a as int].edge_indices@.push(
                            e_idx,
                        ));
                    }
                    if b != a {
                        let ghost pre_eb = vertices@;
                        vertices[b].edge_indices.push(e_idx);
                        proof {
                            assert(forall|v: int|
                                0 <= v < vertices@.len() && v != b ==> vertices@[v] == pre_eb[v]);
                            assert(vertices@[b as int].edge_indices@ == pre_eb[b as int].edge_indices@.push(
                                e_idx,
                            ));
                        }
                    }
                    proof {
                        assert(is_input_side(indices@, a, b)) by {
                            assert(0 <= (t as int) < indices@.len() / 3);
                            assert(side_a(indices@, t as int, j as int) == a);
                            assert(side_b(indices@, t as int, j as int) == b);
                        }
                        assert(edges@[e_idx as int].vertex_indexes[0] == a);
                        assert(edges@[e_idx as int].vertex_indexes[1] == b);
                        assert forall|e1: int, e2: int|
                            0 <= e1 < edges@.len() && 0 <= e2 < edges@.len() && e1 != e2 implies !econn(
                            edges@,
                            e1,
                            edges@[e2].vertex_indexes[0],
                            edges@[e2].vertex_indexes[1],
                        ) by {
                            if e1 == e_idx as int {
                                if econn(
                                    edges@,
                                    e1,
                                    edges@[e2].vertex_indexes[0],
                                    edges@[e2].vertex_indexes[1],
                                ) {
                                    assert(econn(pre_edges, e2, a, b));
                                    assert(false);
                                }
                            } else if e2 == e_idx as int {
                                if econn(edges@, e1, a, b) {
                                    assert(econn(pre_edges, e1, a, b));
                                    assert(false);
                                }
                            } else {
                                assert(!econn(
                                    pre_edges,
                                    e1,
                                    pre_edges[e2].vertex_indexes[0],
                                    pre_edges[e2].vertex_indexes[1],
                                ));
                            }
                        }
                        assert forall|v: int, e: int|
                            0 <= v < vertices@.len() && 0 <= e < edges@.len() implies ((
                        edges@[e].vertex_indexes[0] == v || edges@[e].vertex_indexes[1] == v)
                            <==> #[trigger] vertices@[v].edge_indices@.contains(e as usize)) by {
                            if e == e_idx as int {
                                assert(vertices@[a as int].edge_indices@.contains(e_idx));
                                assert(vertices@[b as int].edge_indices@.contains(e_idx));
                                if v != a && v != b {
                                    if vertices@[v].edge_indices@.contains(e as usize) {
                                        let kk = choose|kk: int|
                                            0 <= kk < vertices@[v].edge_indices@.len()
                                                && vertices@[v].edge_indices@[kk] == e as usize;
                                        assert(pre_ep[v].edge_indices@[kk] < e_idx);
                                        assert(false);
                                    }
                                }
                            } else {
                                assert((edges@[e].vertex_indexes[0] == v
                                    || edges@[e].vertex_indexes[1] == v) <==> pre_ep[v].edge_indices@.contains(
                                    e as usize,
                                ));
                            }
                        }
                    }
                }
                fe[j] = e_idx;
                j = j + 1;
            }
            let ghost pre_faces = faces@;
            faces.push(HullFace { edge_indexes: fe, vertex_indices: corners });
            proof {
                assert(faces@ =~= pre_faces.push(
                    HullFace { edge_indexes: fe, vertex_indices: corners },
                ));
                assert(forall|f: int| 0 <= f < t ==> faces@[f] == pre_faces[f]);
                assert(faces@[t as int].vertex_indices == corners);
                assert(faces@[t as int].edge_indexes == fe);
                assert(forall|jx: int|
                    0 <= jx < 3 ==> (#[trigger] faces@[t as int].vertex_indices[jx]) == indices@[3
                        * (t as int) + jx]);
            }
            t = t + 1;
        }
        Ok(HullShape { vertices, edges, faces })
    }
}

/// Building from non-degenerate input (no triangle repeats a vertex)
/// yields a fully well-formed topology: all stored indices in range, every
/// face's side edges connecting its corners in cyclic order, no edge with
/// equal endpoints, no two edges over the same unordered vertex pair, and
/// every vertex's adjacency lists exact.
pub proof fn lemma_built_wf(shape: HullShape, positions: Seq<Vec3>, indices: Seq<usize>)
    requires
        built_from(shape, positions, indices),
        nondegenerate_triangles(indices),
    ensures
        shape.wf(),
{
    assert forall|f: int, j: int|
        0 <= f < shape.faces.len() && 0 <= j < 3 implies 0 <= #[trigger] shape.face_vertex(f, j)
        < shape.vertices.len() by {
        assert(shape.faces@[f].vertex_indices[j] == indices[3 * f + j]);
        assert(indices[3 * f + j] < positions.len());
    }
    assert forall|f: int, j: int|
        0 <= f < shape.faces.len() && 0 <= j < 3 implies shape.edge_connects(
        #[trigger] shape.face_edge(f, j),
        shape.face_vertex(f, j),
        shape.face_vertex(f, (j + 1) % 3),
    ) by {
        assert(econn(
            shape.edges@,
            shape.faces@[f].edge_indexes[j] as int,
            side_a(indices, f, j),
            side_b(indices, f, j),
        ));
        assert(side_a(indices, f, j) == shape.faces@[f].vertex_indices[j]);
        assert((j + 1) % 3 == if j == 2 {
            0int
        } else {
            j + 1
        });
        assert(side_b(indices, f, j) == shape.faces@[f].vertex_indices[(j + 1) % 3]);
    }
    assert forall|f: int| 0 <= f < shape.faces.len() implies #[trigger] shape.face_vertex(f, 0)
        != shape.face_vertex(f, 1) && shape.face_vertex(f, 0) != shape.face_vertex(f, 2)
        && shape.face_vertex(f, 1) != shape.face_vertex(f, 2) by {
        assert(side_a(indices, f, 0) != side_b(indices, f, 0));
        assert(side_a(indices, f, 1) != side_b(indices, f, 1));
        assert(side_a(indices, f, 2) != side_b(indices, f, 2));
        assert(shape.faces@[f].vertex_indices[0] == indices[3 * f + 0]);
        assert(shape.faces@[f].vertex_indices[1] == indices[3 * f + 1]);
        assert(shape.faces@[f].vertex_indices[2] == indices[3 * f + 2]);
    }
    assert forall|e: int| 0 <= e < shape.edges.len() implies #[trigger] shape.edge_vertex(e, 0)
        != shape.edge_vertex(e, 1) by {
        assert(is_input_side(
            indices,
            shape.edges@[e].vertex_indexes[0],
            shape.edges@[e].vertex_indexes[1],
        ));
        let (k, j) = choose|k: int, j: int|
            0 <= k < indices.len() / 3 && 0 <= j < 3 && #[trigger] side_a(indices, k, j)
                == shape.edges@[e].vertex_indexes[0] && side_b(indices, k, j)
                == shape.edges@[e].vertex_indexes[1];
        assert(side_a(indices, k, j) != side_b(indices, k, j));
    }
    assert forall|e1: int, e2: int|
        0 <= e1 < shape.edges.len() && 0 <= e2 < shape.edges.len() && e1 != e2 implies !(
    #[trigger] shape.edge_connects(e1, shape.edge_vertex(e2, 0), shape.edge_vertex(e2, 1))) by {
        assert(!econn(
            shape.edges@,
            e1,
            shape.edges@[e2].vertex_indexes[0],
            shape.edges@[e2].vertex_indexes[1],
        ));
    }
    assert forall|v: int, f: int|
        0 <= v < shape.vertices.len() && 0 <= f < shape.faces.len() implies (shape.face_has_vertex(
        f,
        v,
    ) <==> #[trigger] shape.vertices@[v].face_indices@.contains(f as usize)) by {
        assert(corner_of(indices, f, v as usize) <==> shape.vertices@[v].face_indices@.contains(
            f as usize,
        ));
        if shape.face_has_vertex(f, v) {
            let j = choose|j: int| 0 <= j < 3 && shape.face_vertex(f, j) == v;
            assert(indices[3 * f + j] == v as usize);
            assert(corner_of(indices, f, v as usize));
        }
        if corner_of(indices, f, v as usize) {
            let j = choose|j: int| 0 <= j < 3 && #[trigger] indices[3 * f + j] == v as usize;
            assert(shape.face_vertex(f, j) == v);
            assert(shape.face_has_vertex(f, v));
        }
    }
    assert(shape.wf());
}

impl Hull {
    /// Builds the topology of a raw indexed triangle mesh and wraps it in a
    /// shareable hull handle.
    pub fn build(positions: Vec<Vec3>, indices: Vec<usize>) -> (r: Result<
        Hull,
        HullShapeIntoError,
    >)
        requires
            indices.len() % 3 == 0 && positions.len() > 0 ==> forall|k: int|
                0 <= k < indices.len() ==> (#[trigger] indices[k]) < positions.len(),
        ensures
            indices.len() % 3 != 0 ==> r == Result::<Hull, HullShapeIntoError>::Err(
                HullShapeIntoError::WrongTopologyType,
            ),
            indices.len() % 3 == 0 && positions.len() == 0 ==> r == Result::<
                Hull,
                HullShapeIntoError,
            >::Err(HullShapeIntoError::MissingPositionAttribute),
            indices.len() % 3 == 0 && positions.len() > 0 ==> (r matches Ok(hull) && built_from(
                *hull.shape,
                positions@,
                indices@,
            )),
    {
        match HullShape::build(positions, indices) {
            Ok(shape) => Ok(Hull { shape: Arc::new(shape) }),
            Err(e) => Err(e),
        }
    }
}

} // verus!
