//! Clipping a hull against a plane: vertices, edges and faces are
//! classified against the plane; edges that cross it get a synthesized
//! boundary ("patch") vertex; faces are re-emitted as triangles over a mix
//! of original and patch vertices.

use crate::geometry::Line;
use crate::geometry::Plane;
use crate::geometry::Vec3;
use crate::geometry::coords_bounded;
use crate::geometry::plane::intersection_coord;
use crate::geometry::plane::line_divider;
use crate::geometry::plane::line_numerator;
use crate::geometry::signed_dist;
use crate::hull::ClippedHull;
use crate::hull::ClippedIndex;
use crate::hull::Hull;
use crate::hull::HullShape;
use std::sync::Arc;
use vstd::prelude::*;

verus! {

/// Classification of one edge against the cutting plane.
#[derive(PartialEq, Eq, Structural, Clone, Copy)]
enum ProcessedEdge {
    /// Both endpoints submerged: the edge survives whole.
    FullySubmerged,
    /// Neither endpoint submerged: the edge is discarded whole.
    FullyClipped,
    /// Exactly one endpoint submerged: the edge crosses the plane at a
    /// synthesized patch vertex.
    PartialClip { original_vertex_index: usize, patch_vertex_index: usize },
}

/// The direction of the segment from `p1` to `p2`.
pub open spec fn seg_direction(p1: Vec3, p2: Vec3) -> Vec3 {
    Vec3 { x: (p2.x - p1.x) as i64, y: (p2.y - p1.y) as i64, z: (p2.z - p1.z) as i64 }
}

/// The line through `p1` and `p2`, anchored at `p1`.
pub open spec fn seg_line(p1: Vec3, p2: Vec3) -> Line {
    Line { zero_point: p1, direction: seg_direction(p1, p2) }
}

impl HullShape {
    /// Vertex `v` lies strictly below the plane (negative signed
    /// distance). A vertex exactly on the plane counts as not submerged.
    pub open spec fn vertex_submerged(self, plane: Plane, v: int) -> bool {
        signed_dist(plane, self.vertex_position(v)) < 0
    }

    /// Both endpoints of edge `e` are submerged.
    pub open spec fn edge_fully_submerged(self, plane: Plane, e: int) -> bool {
        self.vertex_submerged(plane, self.edge_vertex(e, 0)) && self.vertex_submerged(
            plane,
            self.edge_vertex(e, 1),
        )
    }

    /// Edge `e` crosses the plane: exactly one endpoint is submerged.
    pub open spec fn edge_crossing(self, plane: Plane, e: int) -> bool {
        self.vertex_submerged(plane, self.edge_vertex(e, 0)) != self.vertex_submerged(
            plane,
            self.edge_vertex(e, 1),
        )
    }

    /// The submerged endpoint of a crossing edge `e`.
    pub open spec fn crossing_orig(self, plane: Plane, e: int) -> int {
        if self.vertex_submerged(plane, self.edge_vertex(e, 0)) {
            self.edge_vertex(e, 0)
        } else {
            self.edge_vertex(e, 1)
        }
    }

    /// How many of the edges before `e` cross the plane: the patch-vertex
    /// index assigned to edge `e` if it crosses, since patch vertices are
    /// appended in edge order.
    pub open spec fn crossing_count(self, plane: Plane, e: int) -> int
        decreases e,
    {
        if e <= 0 {
            0
        } else {
            self.crossing_count(plane, e - 1) + if self.edge_crossing(plane, e - 1) {
                1int
            } else {
                0int
            }
        }
    }

    /// The patch vertex synthesized for crossing edge `e`: the intersection
    /// of the line through its two endpoints with the plane, each
    /// coordinate rounded towards zero.
    pub open spec fn edge_patch_point(self, plane: Plane, e: int) -> Vec3 {
        let p1 = self.vertex_position(self.edge_vertex(e, 0));
        let p2 = self.vertex_position(self.edge_vertex(e, 1));
        let line = seg_line(p1, p2);
        Vec3 {
            x: intersection_coord(plane, line, p1.x as int, line.direction.x as int) as i64,
            y: intersection_coord(plane, line, p1.y as int, line.direction.y as int) as i64,
            z: intersection_coord(plane, line, p1.z as int, line.direction.z as int) as i64,
        }
    }

    /// The patch vertices synthesized for the edges before `upto`, in edge
    /// order.
    pub open spec fn patch_points(self, plane: Plane, upto: int) -> Seq<Vec3>
        decreases upto,
    {
        if upto <= 0 {
            Seq::empty()
        } else {
            self.patch_points(plane, upto - 1) + if self.edge_crossing(plane, upto - 1) {
                seq![self.edge_patch_point(plane, upto - 1)]
            } else {
                Seq::empty()
            }
        }
    }

    /// How many of the three corners of face `f` are submerged.
    pub open spec fn face_sub_count(self, plane: Plane, f: int) -> int {
        (if self.vertex_submerged(plane, self.face_vertex(f, 0)) {
            1int
        } else {
            0int
        }) + (if self.vertex_submerged(plane, self.face_vertex(f, 1)) {
            1int
        } else {
            0int
        }) + (if self.vertex_submerged(plane, self.face_vertex(f, 2)) {
            1int
        } else {
            0int
        })
    }

    /// The emitted index for corner `j` of face `f`, as an original vertex.
    pub open spec fn emit_orig(self, f: int, j: int) -> ClippedIndex {
        ClippedIndex::OriginalIndex(self.faces[f].vertex_indices[j])
    }

    /// The emitted index for the patch vertex of the edge at side `j` of
    /// face `f`.
    pub open spec fn emit_patch(self, plane: Plane, f: int, j: int) -> ClippedIndex {
        ClippedIndex::PatchIndex(self.crossing_count(plane, self.face_edge(f, j)) as usize)
    }

    /// The triangles emitted for face `f`, by the pattern of its submerged
    /// corners: a fully submerged face survives unchanged; a fully clipped
    /// face is discarded; one submerged corner leaves one triangle of that
    /// corner and the two crossing-side patch vertices; two submerged
    /// corners leave a quadrilateral, split into two triangles fanned from
    /// its first corner. Each sequence lists the walked boundary in the
    /// face's cyclic order, starting from corner `0`.
    pub open spec fn face_triangles(self, plane: Plane, f: int) -> Seq<ClippedIndex> {
        let s0 = self.vertex_submerged(plane, self.face_vertex(f, 0));
        let s1 = self.vertex_submerged(plane, self.face_vertex(f, 1));
        let s2 = self.vertex_submerged(plane, self.face_vertex(f, 2));
        if s0 && s1 && s2 {
            seq![self.emit_orig(f, 0), self.emit_orig(f, 1), self.emit_orig(f, 2)]
        } else if s0 && !s1 && !s2 {
            seq![self.emit_orig(f, 0), self.emit_patch(plane, f, 0), self.emit_patch(plane, f, 2)]
        } else if !s0 && s1 && !s2 {
            seq![self.emit_patch(plane, f, 0), self.emit_orig(f, 1), self.emit_patch(plane, f, 1)]
        } else if !s0 && !s1 && s2 {
            seq![self.emit_patch(plane, f, 2), self.emit_patch(plane, f, 1), self.emit_orig(f, 2)]
        } else if s0 && s1 && !s2 {
            seq![
                self.emit_orig(f, 0),
                self.emit_orig(f, 1),
                self.emit_patch(plane, f, 1),
                self.emit_orig(f, 0),
                self.emit_patch(plane, f, 1),
                self.emit_patch(plane, f, 2),
            ]
        } else if !s0 && s1 && s2 {
            seq![
                self.emit_patch(plane, f, 0),
                self.emit_orig(f, 1),
                self.emit_orig(f, 2),
                self.emit_patch(plane, f, 0),
                self.emit_orig(f, 2),
                self.emit_patch(plane, f, 2),
            ]
        } else if s0 && !s1 && s2 {
            seq![
                self.emit_orig(f, 0),
                self.emit_patch(plane, f, 0),
                self.emit_patch(plane, f, 1),
                self.emit_orig(f, 0),
                self.emit_patch(plane, f, 1),
                self.emit_orig(f, 2),
            ]
        } else {
            Seq::empty()
        }
    }

    /// Everything emitted for the faces before `f`, concatenated in face
    /// order.
    pub open spec fn emitted_upto(self, plane: Plane, f: int) -> Seq<ClippedIndex>
        decreases f,
    {
        if f <= 0 {
            Seq::empty()
        } else {
            self.emitted_upto(plane, f - 1) + self.face_triangles(plane, f - 1)
        }
    }

    /// What the boundary walk pushes at side `i` of face `f`: a surviving
    /// corner for a fully submerged side; for a crossing side, the corner
    /// (if submerged) and the side's patch vertex (the latter only when the
    /// next side also crosses); for a fully clipped side, the previous
    /// side's patch vertex when that side crosses.
    spec fn side_emit(self, plane: Plane, f: int, i: int) -> Seq<ClippedIndex> {
        let e = self.face_edge(f, i);
        let en = self.face_edge(f, (i + 1) % 3);
        let ep = self.face_edge(f, (i + 2) % 3);
        if self.edge_fully_submerged(plane, e) {
            seq![self.emit_orig(f, i)]
        } else if self.edge_crossing(plane, e) {
            if self.vertex_submerged(plane, self.face_vertex(f, i)) {
                seq![self.emit_orig(f, i)] + if self.edge_crossing(plane, en) {
                    seq![self.emit_patch(plane, f, i)]
                } else {
                    Seq::empty()
                }
            } else {
                seq![self.emit_patch(plane, f, i)]
            }
        } else {
            if self.edge_crossing(plane, ep) {
                seq![self.emit_patch(plane, f, (i + 2) % 3)]
            } else {
                Seq::empty()
            }
        }
    }

    /// The boundary walk of face `f` after its first `i` sides.
    spec fn walk_upto(self, plane: Plane, f: int, i: int) -> Seq<ClippedIndex>
        decreases i,
    {
        if i <= 0 {
            Seq::empty()
        } else {
            self.walk_upto(plane, f, i - 1) + self.side_emit(plane, f, i - 1)
        }
    }
}

impl HullShape {
    /// The classification pass 2 records for edge `e`: crossing edges carry
    /// their submerged endpoint and their patch-vertex index.
    spec fn edge_class(self, plane: Plane, e: int) -> ProcessedEdge {
        if self.edge_fully_submerged(plane, e) {
            ProcessedEdge::FullySubmerged
        } else if self.edge_crossing(plane, e) {
            ProcessedEdge::PartialClip {
                original_vertex_index: self.crossing_orig(plane, e) as usize,
                patch_vertex_index: self.crossing_count(plane, e) as usize,
            }
        } else {
            ProcessedEdge::FullyClipped
        }
    }

    /// How many of the three corners of face `f` are submerged vertices
    /// with index below `upto`: the portion of `face_sub_count` that pass 1
    /// has accumulated after processing the first `upto` vertices.
    pub open spec fn face_sub_count_upto(self, plane: Plane, f: int, upto: int) -> int {
        (if self.face_vertex(f, 0) < upto && self.vertex_submerged(plane, self.face_vertex(f, 0)) {
            1int
        } else {
            0int
        }) + (if self.face_vertex(f, 1) < upto && self.vertex_submerged(
            plane,
            self.face_vertex(f, 1),
        ) {
            1int
        } else {
            0int
        }) + (if self.face_vertex(f, 2) < upto && self.vertex_submerged(
            plane,
            self.face_vertex(f, 2),
        ) {
            1int
        } else {
            0int
        })
    }
}

/// One of the first `k` entries of `list` is `x`.
spec fn in_prefix(list: Seq<usize>, k: int, x: usize) -> bool {
    exists|i: int| 0 <= i < k && #[trigger] list[i] == x
}

/// `crossing_count` counts upwards from zero.
proof fn lemma_crossing_count_nonneg(shape: HullShape, plane: Plane, e: int)
    ensures
        0 <= shape.crossing_count(plane, e),
    decreases e,
{
    if e > 0 {
        lemma_crossing_count_nonneg(shape, plane, e - 1);
    }
}

/// `crossing_count` is monotone, grows by at most one per edge, and grows
/// past every crossing edge.
proof fn lemma_crossing_count_le(shape: HullShape, plane: Plane, e1: int, e2: int)
    requires
        0 <= e1 <= e2,
    ensures
        0 <= shape.crossing_count(plane, e1) <= shape.crossing_count(plane, e2),
        shape.crossing_count(plane, e2) - shape.crossing_count(plane, e1) <= e2 - e1,
        shape.edge_crossing(plane, e1) && e1 < e2 ==> shape.crossing_count(plane, e1) + 1
            <= shape.crossing_count(plane, e2),
    decreases e2 - e1,
{
    lemma_crossing_count_nonneg(shape, plane, e1);
    if e1 < e2 {
        lemma_crossing_count_le(shape, plane, e1, e2 - 1);
    }
}

/// Every index emitted for a face of a well-formed shape is in range: an
/// original index names one of the shape's vertices, a patch index one of
/// the patch vertices of the whole clip.
#[verifier::rlimit(100)]
proof fn lemma_face_triangles_wf(shape: HullShape, plane: Plane, f: int)
    requires
        shape.wf(),
        0 <= f < shape.faces.len(),
    ensures
        forall|k: int|
            0 <= k < shape.face_triangles(plane, f).len() ==> match #[trigger] shape.face_triangles(
                plane,
                f,
            )[k] {
                ClippedIndex::OriginalIndex(i) => (i as int) < shape.vertices.len(),
                ClippedIndex::PatchIndex(p) => (p as int) < shape.crossing_count(
                    plane,
                    shape.edges.len() as int,
                ),
            },
{
    lemma_side_class(shape, plane, f, 0);
    lemma_side_class(shape, plane, f, 1);
    lemma_side_class(shape, plane, f, 2);
    if shape.edge_crossing(plane, shape.face_edge(f, 0)) {
        lemma_crossing_count_le(shape, plane, shape.face_edge(f, 0), shape.edges.len() as int);
    }
    if shape.edge_crossing(plane, shape.face_edge(f, 1)) {
        lemma_crossing_count_le(shape, plane, shape.face_edge(f, 1), shape.edges.len() as int);
    }
    if shape.edge_crossing(plane, shape.face_edge(f, 2)) {
        lemma_crossing_count_le(shape, plane, shape.face_edge(f, 2), shape.edges.len() as int);
    }
    let ft = shape.face_triangles(plane, f);
    assert forall|k: int| 0 <= k < ft.len() implies match #[trigger] ft[k] {
        ClippedIndex::OriginalIndex(i) => (i as int) < shape.vertices.len(),
        ClippedIndex::PatchIndex(p) => (p as int) < shape.crossing_count(
            plane,
            shape.edges.len() as int,
        ),
    } by {
        let s0 = shape.vertex_submerged(plane, shape.face_vertex(f, 0));
        let s1 = shape.vertex_submerged(plane, shape.face_vertex(f, 1));
        let s2 = shape.vertex_submerged(plane, shape.face_vertex(f, 2));
        assert(shape.face_vertex(f, 0) < shape.vertices.len());
        assert(shape.face_vertex(f, 1) < shape.vertices.len());
        assert(shape.face_vertex(f, 2) < shape.vertices.len());
    }
}

/// The divider and numerator of the line through two bounded points, in
/// terms of the points' signed distances from the plane: the divider is
/// the distance difference, the numerator the negated start distance. A
/// segment with exactly one submerged endpoint therefore always has a
/// nonzero divider: its intersection with the plane exists.
proof fn lemma_seg_intersection_data(plane: Plane, p1: Vec3, p2: Vec3)
    requires
        coords_bounded(p1),
        coords_bounded(p2),
    ensures
        line_divider(plane, seg_line(p1, p2)) == signed_dist(plane, p2) - signed_dist(plane, p1),
        line_numerator(plane, seg_line(p1, p2)) == -signed_dist(plane, p1),
{
    let d = seg_direction(p1, p2);
    assert(d.x == p2.x - p1.x && d.y == p2.y - p1.y && d.z == p2.z - p1.z);
    assert((p2.x - p1.x) * plane.normal.x == (p2.x - plane.zero_point.x) * plane.normal.x - (p1.x
        - plane.zero_point.x) * plane.normal.x) by (nonlinear_arith);
    assert((p2.y - p1.y) * plane.normal.y == (p2.y - plane.zero_point.y) * plane.normal.y - (p1.y
        - plane.zero_point.y) * plane.normal.y) by (nonlinear_arith);
    assert((p2.z - p1.z) * plane.normal.z == (p2.z - plane.zero_point.z) * plane.normal.z - (p1.z
        - plane.zero_point.z) * plane.normal.z) by (nonlinear_arith);
    assert((plane.zero_point.x - p1.x) * plane.normal.x == -((p1.x - plane.zero_point.x)
        * plane.normal.x)) by (nonlinear_arith);
    assert((plane.zero_point.y - p1.y) * plane.normal.y == -((p1.y - plane.zero_point.y)
        * plane.normal.y)) by (nonlinear_arith);
    assert((plane.zero_point.z - p1.z) * plane.normal.z == -((p1.z - plane.zero_point.z)
        * plane.normal.z)) by (nonlinear_arith);
}

/// The classification of the edge at side `i` of a well-formed face is
/// determined by the submersion of the face's own corners `i` and
/// `(i + 1) % 3`, whichever way round the edge stores them.
proof fn lemma_side_class(shape: HullShape, plane: Plane, f: int, i: int)
    requires
        shape.wf(),
        0 <= f < shape.faces.len(),
        0 <= i < 3,
    ensures
        shape.edge_fully_submerged(plane, shape.face_edge(f, i)) == (shape.vertex_submerged(
            plane,
            shape.face_vertex(f, i),
        ) && shape.vertex_submerged(plane, shape.face_vertex(f, (i + 1) % 3))),
        shape.edge_crossing(plane, shape.face_edge(f, i)) == (shape.vertex_submerged(
            plane,
            shape.face_vertex(f, i),
        ) != shape.vertex_submerged(plane, shape.face_vertex(f, (i + 1) % 3))),
        shape.edge_crossing(plane, shape.face_edge(f, i)) ==> shape.crossing_orig(
            plane,
            shape.face_edge(f, i),
        ) == (if shape.vertex_submerged(plane, shape.face_vertex(f, i)) {
            shape.face_vertex(f, i)
        } else {
            shape.face_vertex(f, (i + 1) % 3)
        }),
{
    assert(shape.edge_connects(
        shape.face_edge(f, i),
        shape.face_vertex(f, i),
        shape.face_vertex(f, (i + 1) % 3),
    ));
}

/// The boundary walk of a face with one submerged corner yields exactly
/// three indices, and with two submerged corners exactly four; in both
/// cases `face_triangles` is the walk, the quadrilateral split as a fan
/// from its first entry.
proof fn lemma_face_polyline(shape: HullShape, plane: Plane, f: int)
    requires
        shape.wf(),
        0 <= f < shape.faces.len(),
    ensures
        shape.face_sub_count(plane, f) == 1 ==> shape.walk_upto(plane, f, 3).len() == 3
            && shape.face_triangles(plane, f) == shape.walk_upto(plane, f, 3),
        shape.face_sub_count(plane, f) == 2 ==> shape.walk_upto(plane, f, 3).len() == 4
            && shape.face_triangles(plane, f) == seq![
            shape.walk_upto(plane, f, 3)[0],
            shape.walk_upto(plane, f, 3)[1],
            shape.walk_upto(plane, f, 3)[2],
            shape.walk_upto(plane, f, 3)[0],
            shape.walk_upto(plane, f, 3)[2],
            shape.walk_upto(plane, f, 3)[3],
        ],
{
    reveal_with_fuel(HullShape::walk_upto, 4);
    lemma_side_class(shape, plane, f, 0);
    lemma_side_class(shape, plane, f, 1);
    lemma_side_class(shape, plane, f, 2);
    let s0 = shape.vertex_submerged(plane, shape.face_vertex(f, 0));
    let s1 = shape.vertex_submerged(plane, shape.face_vertex(f, 1));
    let s2 = shape.vertex_submerged(plane, shape.face_vertex(f, 2));
    let w = shape.walk_upto(plane, f, 3);
    if s0 && !s1 && !s2 {
        assert(w =~= seq![
            shape.emit_orig(f, 0),
            shape.emit_patch(plane, f, 0),
            shape.emit_patch(plane, f, 2),
        ]);
        assert(shape.face_triangles(plane, f) =~= w);
    } else if !s0 && s1 && !s2 {
        assert(w =~= seq![
            shape.emit_patch(plane, f, 0),
            shape.emit_orig(f, 1),
            shape.emit_patch(plane, f, 1),
        ]);
        assert(shape.face_triangles(plane, f) =~= w);
    } else if !s0 && !s1 && s2 {
        assert(w =~= seq![
            shape.emit_patch(plane, f, 2),
            shape.emit_patch(plane, f, 1),
            shape.emit_orig(f, 2),
        ]);
        assert(shape.face_triangles(plane, f) =~= w);
    } else if s0 && s1 && !s2 {
        assert(w =~= seq![
            shape.emit_orig(f, 0),
            shape.emit_orig(f, 1),
            shape.emit_patch(plane, f, 1),
            shape.emit_patch(plane, f, 2),
        ]);
        assert(shape.face_triangles(plane, f) =~= seq![w[0], w[1], w[2], w[0], w[2], w[3]]);
    } else if !s0 && s1 && s2 {
        assert(w =~= seq![
            shape.emit_patch(plane, f, 0),
            shape.emit_orig(f, 1),
            shape.emit_orig(f, 2),
            shape.emit_patch(plane, f, 2),
        ]);
        assert(shape.face_triangles(plane, f) =~= seq![w[0], w[1], w[2], w[0], w[2], w[3]]);
    } else if s0 && !s1 && s2 {
        assert(w =~= seq![
            shape.emit_orig(f, 0),
            shape.emit_patch(plane, f, 0),
            shape.emit_patch(plane, f, 1),
            shape.emit_orig(f, 2),
        ]);
        assert(shape.face_triangles(plane, f) =~= seq![w[0], w[1], w[2], w[0], w[2], w[3]]);
    }
}

/// The emitted index list always holds whole triangles: every face
/// contributes zero, one or two index triples, a quadrilateral remainder
/// already expanded into two triangles.
pub proof fn lemma_emitted_len_multiple_of_three(shape: HullShape, plane: Plane, f: int)
    requires
        0 <= f,
    ensures
        shape.emitted_upto(plane, f).len() % 3 == 0,
    decreases f,
{
    if f > 0 {
        lemma_emitted_len_multiple_of_three(shape, plane, f - 1);
        assert(shape.face_triangles(plane, f - 1).len() % 3 == 0);
    }
}

/// A crossing edge always has a single intersection point with the plane:
/// its divider is the difference of its endpoint distances, which have
/// opposite strict signs, so the `Enclosed` and `Parallel` outcomes can
/// only touch edges that do not cross. An edge lying exactly in the plane
/// has both endpoints at distance zero, counts as not submerged on either
/// end, and is absorbed without ever reaching the intersection primitive;
/// the clipper's fallback for a failed intersection is therefore
/// unreachable in exact arithmetic and clipping cannot fail.
pub proof fn lemma_crossing_edge_always_intersects(shape: HullShape, plane: Plane, e: int)
    requires
        shape.indices_in_range(),
        shape.positions_bounded(),
        0 <= e < shape.edges.len(),
        shape.edge_crossing(plane, e),
    ensures
        line_divider(
            plane,
            seg_line(
                shape.vertex_position(shape.edge_vertex(e, 0)),
                shape.vertex_position(shape.edge_vertex(e, 1)),
            ),
        ) != 0,
{
    let p1 = shape.vertex_position(shape.edge_vertex(e, 0));
    let p2 = shape.vertex_position(shape.edge_vertex(e, 1));
    lemma_seg_intersection_data(plane, p1, p2);
}

/// Relies on std's `Arc::clone`: the returned handle shares the same
/// underlying shape as the given one.
#[verifier::external_body]
fn share_shape(shape: &Arc<HullShape>) -> (r: Arc<HullShape>)
    ensures
        r == *shape,
{
    Arc::clone(shape)
}

impl Hull {
    /// Clips this hull against `plane` and returns the part below it: the
    /// faces whose submerged corners survive, re-triangulated against the
    /// synthesized boundary vertices where their edges cross the plane.
    ///
    /// The result holds the patch vertex of every crossing edge, in edge
    /// order (`patch_points`), and, face by face, the triangles of
    /// `face_triangles`: a fully submerged face unchanged, a face with one
    /// submerged corner as one triangle of that corner and two patch
    /// vertices, one with two submerged corners as a quadrilateral split
    /// into two triangles, and a fully clipped face not at all. Degenerate
    /// intersections cannot arise in exact arithmetic: a crossing edge
    /// always has a nonzero divider, so clipping never fails; the original
    /// topology is never mutated.
    pub fn clip_with_plane(&self, plane: &Plane) -> (result: ClippedHull)
        requires
            self.shape.wf(),
            self.shape.positions_bounded(),
            coords_bounded(plane.normal),
            coords_bounded(plane.zero_point),
        ensures
            result.shape == self.shape,
            result.patch_vertices@ == self.shape.patch_points(
                *plane,
                self.shape.edges.len() as int,
            ),
            result.indices@ == self.shape.emitted_upto(*plane, self.shape.faces.len() as int),
            result.indices_wf(),
    {
        let shape: &HullShape = &self.shape;
        let n_vertices = shape.vertices.len();
        let n_edges = shape.edges.len();
        let n_faces = shape.faces.len();

        // Pass 1: classify vertices, accumulating per face how many of its
        // corners are submerged.
        let mut face_submerged_vertices_count: Vec<u8> = Vec::new();
        let mut f: usize = 0;
        while f < n_faces
            invariant
                f <= n_faces,
                face_submerged_vertices_count.len() == f,
                forall|ff: int|
                    0 <= ff < f ==> (#[trigger] face_submerged_vertices_count[ff]) == 0,
            decreases n_faces - f,
        {
            face_submerged_vertices_count.push(0);
            f = f + 1;
        }
        let mut submerged_vertices: Vec<bool> = Vec::new();
        let mut v: usize = 0;
        while v < n_vertices
            invariant
                v <= n_vertices,
                n_vertices == shape.vertices.len(),
                n_faces == shape.faces.len(),
                shape.wf(),
                shape.positions_bounded(),
                coords_bounded(plane.normal),
                coords_bounded(plane.zero_point),
                submerged_vertices.len() == v,
                forall|i: int|
                    0 <= i < v ==> (#[trigger] submerged_vertices[i]) == shape.vertex_submerged(
                        *plane,
                        i,
                    ),
                face_submerged_vertices_count.len() == n_faces,
                forall|ff: int|
                    0 <= ff < n_faces ==> (#[trigger] face_submerged_vertices_count[ff]) as int
                        == shape.face_sub_count_upto(*plane, ff, v as int),
            decreases n_vertices - v,
        {
            proof {
                assert(shape.vertices[v as int].position == shape.vertex_position(v as int));
            }
            let d = plane.distance_from_plane(shape.vertices[v].position);
            if d < 0 {
                submerged_vertices.push(true);
                let flist_len = shape.vertices[v].face_indices.len();
                let mut k: usize = 0;
                while k < flist_len
                    invariant
                        k <= flist_len,
                        v < n_vertices,
                        n_vertices == shape.vertices.len(),
                        n_faces == shape.faces.len(),
                        shape.wf(),
                        shape.vertex_submerged(*plane, v as int),
                        flist_len == shape.vertices[v as int].face_indices.len(),
                        face_submerged_vertices_count.len() == n_faces,
                        forall|ff: int|
                            0 <= ff < n_faces ==> (
                            #[trigger] face_submerged_vertices_count[ff]) as int
                                == shape.face_sub_count_upto(*plane, ff, v as int) + (if in_prefix(
                                shape.vertices[v as int].face_indices@,
                                k as int,
                                ff as usize,
                            ) {
                                1int
                            } else {
                                0int
                            }),
                    decreases flist_len - k,
                {
                    let fi = shape.vertices[v].face_indices[k];
                    proof {
                        assert(shape.vertices[v as int].face_indices[k as int] < shape.faces.len());
                        assert(fi < n_faces);
                        assert(shape.vertices[v as int].face_indices@.contains(fi));
                        assert((fi as int) as usize == fi);
                        assert(shape.face_has_vertex(fi as int, v as int));
                        lemma_count_bound(*shape, *plane, fi as int, v as int);
                        assert(!in_prefix(shape.vertices[v as int].face_indices@, k as int, fi));
                        assert(in_prefix(
                            shape.vertices[v as int].face_indices@,
                            k as int + 1,
                            fi,
                        ));
                        assert(forall|ff: usize|
                            ff != fi ==> (in_prefix(
                                shape.vertices[v as int].face_indices@,
                                k as int + 1,
                                ff,
                            ) <==> in_prefix(
                                shape.vertices[v as int].face_indices@,
                                k as int,
                                ff,
                            )));
                    }
                    let c = face_submerged_vertices_count[fi];
                    face_submerged_vertices_count[fi] = c + 1;
                    k = k + 1;
                }
                proof {
                    assert forall|ff: int| 0 <= ff < n_faces implies (
                    #[trigger] face_submerged_vertices_count[ff]) as int
                        == shape.face_sub_count_upto(*plane, ff, v as int + 1) by {
                        lemma_count_step(*shape, *plane, ff, v as int);
                        assert(in_prefix(
                            shape.vertices[v as int].face_indices@,
                            flist_len as int,
                            ff as usize,
                        ) <==> shape.vertices[v as int].face_indices@.contains(ff as usize));
                    }
                }
            } else {
                submerged_vertices.push(false);
                proof {
                    assert forall|ff: int| 0 <= ff < n_faces implies (
                    #[trigger] face_submerged_vertices_count[ff]) as int
                        == shape.face_sub_count_upto(*plane, ff, v as int + 1) by {
                        lemma_count_step(*shape, *plane, ff, v as int);
                    }
                }
            }
            v = v + 1;
        }

        proof {
            assert forall|ff: int| 0 <= ff < n_faces implies shape.face_sub_count_upto(
                *plane,
                ff,
                n_vertices as int,
            ) == shape.face_sub_count(*plane, ff) by {
                assert(shape.face_vertex(ff, 0) < shape.vertices.len());
                assert(shape.face_vertex(ff, 1) < shape.vertices.len());
                assert(shape.face_vertex(ff, 2) < shape.vertices.len());
            }
        }

        // Pass 2: classify edges, synthesizing a patch vertex wherever an
        // edge crosses the plane.
        let mut patch_vertices: Vec<Vec3> = Vec::new();
        let mut processed_edges: Vec<ProcessedEdge> = Vec::new();
        let mut e: usize = 0;
        while e < n_edges
            invariant
                e <= n_edges,
                n_edges == shape.edges.len(),
                n_vertices == shape.vertices.len(),
                shape.wf(),
                shape.positions_bounded(),
                coords_bounded(plane.normal),
                coords_bounded(plane.zero_point),
                submerged_vertices.len() == n_vertices,
                forall|i: int|
                    0 <= i < n_vertices ==> (#[trigger] submerged_vertices[i])
                        == shape.vertex_submerged(*plane, i),
                processed_edges.len() == e,
                forall|j: int|
                    0 <= j < e ==> (#[trigger] processed_edges[j]) == shape.edge_class(*plane, j),
                patch_vertices@ == shape.patch_points(*plane, e as int),
                patch_vertices.len() as int == shape.crossing_count(*plane, e as int),
            decreases n_edges - e,
        {
            let v1i = shape.edges[e].vertex_indexes[0];
            let v2i = shape.edges[e].vertex_indexes[1];
            proof {
                assert(v1i == shape.edge_vertex(e as int, 0));
                assert(v2i == shape.edge_vertex(e as int, 1));
            }
            let s1 = submerged_vertices[v1i];
            let s2 = submerged_vertices[v2i];
            if s1 != s2 {
                let p1 = shape.vertices[v1i].position;
                let p2 = shape.vertices[v2i].position;
                proof {
                    assert(p1 == shape.vertex_position(v1i as int));
                    assert(p2 == shape.vertex_position(v2i as int));
                    assert(coords_bounded(p1));
                    assert(coords_bounded(p2));
                    assert(shape.edge_crossing(*plane, e as int));
                }
                let edge_line = Line::from_two_points(&p1, &p2);
                proof {
                    lemma_seg_intersection_data(*plane, p1, p2);
                    assert(edge_line == seg_line(p1, p2));
                    assert(line_divider(*plane, edge_line) != 0);
                }
                let intersection = plane.intersection_from_line(edge_line);
                if let Ok(point) = intersection {
                    proof {
                        assert(point == shape.edge_patch_point(*plane, e as int));
                    }
                    let patch_index = patch_vertices.len();
                    patch_vertices.push(point);
                    proof {
                        assert(patch_vertices@ =~= shape.patch_points(*plane, e as int + 1));
                    }
                    if s1 {
                        processed_edges.push(
                            ProcessedEdge::PartialClip {
                                original_vertex_index: v1i,
                                patch_vertex_index: patch_index,
                            },
                        );
                    } else {
                        processed_edges.push(
                            ProcessedEdge::PartialClip {
                                original_vertex_index: v2i,
                                patch_vertex_index: patch_index,
                            },
                        );
                    }
                } else {
                    // Defensive fallback: absorb a degenerate intersection
                    // as fully submerged. Unreachable in exact arithmetic.
                    processed_edges.push(ProcessedEdge::FullySubmerged);
                }
            } else if s1 && s2 {
                processed_edges.push(ProcessedEdge::FullySubmerged);
            } else {
                processed_edges.push(ProcessedEdge::FullyClipped);
            }
            e = e + 1;
        }

        // Pass 3: emit each face's surviving triangles, walking the sides
        // of partially clipped faces to chain original and patch vertices
        // in cyclic order.
        let mut result_indices: Vec<ClippedIndex> = Vec::new();
        let mut f: usize = 0;
        while f < n_faces
            invariant
                f <= n_faces,
                n_faces == shape.faces.len(),
                n_edges == shape.edges.len(),
                n_vertices == shape.vertices.len(),
                shape.wf(),
                submerged_vertices.len() == n_vertices,
                forall|i: int|
                    0 <= i < n_vertices ==> (#[trigger] submerged_vertices[i])
                        == shape.vertex_submerged(*plane, i),
                processed_edges.len() == n_edges,
                forall|j: int|
                    0 <= j < n_edges ==> (#[trigger] processed_edges[j]) == shape.edge_class(
                        *plane,
                        j,
                    ),
                face_submerged_vertices_count.len() == n_faces,
                forall|ff: int|
                    0 <= ff < n_faces ==> (#[trigger] face_submerged_vertices_count[ff]) as int
                        == shape.face_sub_count(*plane, ff),
                patch_vertices.len() as int == shape.crossing_count(*plane, n_edges as int),
                result_indices@ == shape.emitted_upto(*plane, f as int),
                forall|k: int|
                    0 <= k < result_indices.len() ==> match #[trigger] result_indices[k] {
                        ClippedIndex::OriginalIndex(i) => (i as int) < n_vertices,
                        ClippedIndex::PatchIndex(p) => (p as int) < patch_vertices.len(),
                    },
            decreases n_faces - f,
        {
            let submerged_vertices_count = face_submerged_vertices_count[f];
            proof {
                lemma_face_triangles_wf(*shape, *plane, f as int);
            }
            if submerged_vertices_count == 1 || submerged_vertices_count == 2 {
                let mut poly: Vec<ClippedIndex> = Vec::new();
                let mut i: usize = 0;
                while i < 3
                    invariant
                        i <= 3,
                        f < n_faces,
                        n_faces == shape.faces.len(),
                        n_edges == shape.edges.len(),
                        n_vertices == shape.vertices.len(),
                        shape.wf(),
                        submerged_vertices.len() == n_vertices,
                        forall|ii: int|
                            0 <= ii < n_vertices ==> (#[trigger] submerged_vertices[ii])
                                == shape.vertex_submerged(*plane, ii),
                        processed_edges.len() == n_edges,
                        forall|j: int|
                            0 <= j < n_edges ==> (#[trigger] processed_edges[j])
                                == shape.edge_class(*plane, j),
                        poly@ == shape.walk_upto(*plane, f as int, i as int),
                    decreases 3 - i,
                {
                    let current_vertex_index = shape.faces[f].vertex_indices[i];
                    let current_edge_index = shape.faces[f].edge_indexes[i];
                    let next_edge_index = shape.faces[f].edge_indexes[(i + 1) % 3];
                    let previous_edge_index = shape.faces[f].edge_indexes[(i + 2) % 3];
                    proof {
                        assert(current_edge_index == shape.face_edge(f as int, i as int));
                        assert(next_edge_index == shape.face_edge(
                            f as int,
                            (i as int + 1) % 3,
                        ));
                        assert(previous_edge_index == shape.face_edge(
                            f as int,
                            (i as int + 2) % 3,
                        ));
                        assert(current_vertex_index == shape.face_vertex(f as int, i as int));
                    }
                    match processed_edges[current_edge_index] {
                        ProcessedEdge::FullySubmerged => {
                            poly.push(ClippedIndex::OriginalIndex(current_vertex_index));
                        },
                        ProcessedEdge::PartialClip {
                            original_vertex_index: _,
                            patch_vertex_index,
                        } => {
                            if submerged_vertices[current_vertex_index] {
                                poly.push(ClippedIndex::OriginalIndex(current_vertex_index));
                                if let ProcessedEdge::PartialClip { .. } = processed_edges[next_edge_index] {
                                    poly.push(ClippedIndex::PatchIndex(patch_vertex_index));
                                }
                            } else {
                                poly.push(ClippedIndex::PatchIndex(patch_vertex_index));
                            }
                        },
                        ProcessedEdge::FullyClipped => {
                            if let ProcessedEdge::PartialClip {
                                original_vertex_index: _,
                                patch_vertex_index,
                            } = processed_edges[previous_edge_index] {
                                poly.push(ClippedIndex::PatchIndex(patch_vertex_index));
                            }
                        },
                    }
                    proof {
                        assert(poly@ =~= shape.walk_upto(*plane, f as int, i as int + 1));
                    }
                    i = i + 1;
                }
                proof {
                    lemma_face_polyline(*shape, *plane, f as int);
                }
                if submerged_vertices_count == 1 {
                    result_indices.push(poly[0]);
                    result_indices.push(poly[1]);
                    result_indices.push(poly[2]);
                } else {
                    result_indices.push(poly[0]);
                    result_indices.push(poly[1]);
                    result_indices.push(poly[2]);
                    result_indices.push(poly[0]);
                    result_indices.push(poly[2]);
                    result_indices.push(poly[3]);
                }
                proof {
                    assert(result_indices@ =~= shape.emitted_upto(*plane, f as int)
                        + shape.face_triangles(*plane, f as int));
                }
            } else if submerged_vertices_count == 3 {
                result_indices.push(ClippedIndex::OriginalIndex(shape.faces[f].vertex_indices[0]));
                result_indices.push(ClippedIndex::OriginalIndex(shape.faces[f].vertex_indices[1]));
                result_indices.push(ClippedIndex::OriginalIndex(shape.faces[f].vertex_indices[2]));
                proof {
                    assert(shape.face_triangles(*plane, f as int) =~= seq![
                        shape.emit_orig(f as int, 0),
                        shape.emit_orig(f as int, 1),
                        shape.emit_orig(f as int, 2),
                    ]);
                    assert(result_indices@ =~= shape.emitted_upto(*plane, f as int)
                        + shape.face_triangles(*plane, f as int));
                }
            } else {
                proof {
                    assert(shape.face_sub_count(*plane, f as int) == 0);
                    assert(shape.face_triangles(*plane, f as int) =~= Seq::empty());
                    assert(result_indices@ =~= shape.emitted_upto(*plane, f as int)
                        + shape.face_triangles(*plane, f as int));
                }
            }
            f = f + 1;
        }
        ClippedHull {
            shape: share_shape(&self.shape),
            indices: result_indices,
            patch_vertices,
        }
    }
}

/// Helper for `lemma_clip_plane_above`: no face emits anything.
proof fn lemma_emitted_empty_upto(shape: HullShape, plane: Plane, f: int)
    requires
        shape.indices_in_range(),
        forall|v: int| 0 <= v < shape.vertices.len() ==> !shape.vertex_submerged(plane, v),
        0 <= f <= shape.faces.len(),
    ensures
        shape.emitted_upto(plane, f).len() == 0,
    decreases f,
{
    if f > 0 {
        lemma_emitted_empty_upto(shape, plane, f - 1);
        assert(!shape.vertex_submerged(plane, shape.face_vertex(f - 1, 0)));
        assert(!shape.vertex_submerged(plane, shape.face_vertex(f - 1, 1)));
        assert(!shape.vertex_submerged(plane, shape.face_vertex(f - 1, 2)));
        assert(shape.face_triangles(plane, f - 1) =~= Seq::empty());
    }
}

/// A plane strictly above every vertex (no vertex submerged) clips the
/// whole mesh: nothing is emitted.
pub proof fn lemma_clip_plane_above(shape: HullShape, plane: Plane)
    requires
        shape.indices_in_range(),
        forall|v: int| 0 <= v < shape.vertices.len() ==> !shape.vertex_submerged(plane, v),
    ensures
        shape.emitted_upto(plane, shape.faces.len() as int).len() == 0,
{
    lemma_emitted_empty_upto(shape, plane, shape.faces.len() as int);
}

/// Helper for `lemma_clip_plane_below`: every face survives whole.
proof fn lemma_emitted_full_upto(shape: HullShape, plane: Plane, f: int)
    requires
        shape.indices_in_range(),
        forall|v: int| 0 <= v < shape.vertices.len() ==> shape.vertex_submerged(plane, v),
        0 <= f <= shape.faces.len(),
    ensures
        shape.emitted_upto(plane, f).len() == 3 * f,
        forall|ff: int, j: int|
            0 <= ff < f && 0 <= j < 3 ==> shape.emitted_upto(plane, f)[3 * ff + j]
                == #[trigger] shape.emit_orig(ff, j),
    decreases f,
{
    if f > 0 {
        lemma_emitted_full_upto(shape, plane, f - 1);
        assert(shape.vertex_submerged(plane, shape.face_vertex(f - 1, 0)));
        assert(shape.vertex_submerged(plane, shape.face_vertex(f - 1, 1)));
        assert(shape.vertex_submerged(plane, shape.face_vertex(f - 1, 2)));
        assert(shape.face_triangles(plane, f - 1) =~= seq![
            shape.emit_orig(f - 1, 0),
            shape.emit_orig(f - 1, 1),
            shape.emit_orig(f - 1, 2),
        ]);
        assert forall|ff: int, j: int| 0 <= ff < f && 0 <= j < 3 implies shape.emitted_upto(
            plane,
            f,
        )[3 * ff + j] == #[trigger] shape.emit_orig(ff, j) by {
            if ff < f - 1 {
                assert(shape.emitted_upto(plane, f)[3 * ff + j] == shape.emitted_upto(
                    plane,
                    f - 1,
                )[3 * ff + j]);
            } else {
                assert(shape.emitted_upto(plane, f)[3 * ff + j] == shape.face_triangles(
                    plane,
                    f - 1,
                )[j]);
            }
        }
    }
}

/// A plane strictly below every vertex (every vertex submerged) keeps the
/// whole mesh: exactly the original index count is emitted, three per
/// face, each an original-vertex index of the face it came from.
pub proof fn lemma_clip_plane_below(shape: HullShape, plane: Plane)
    requires
        shape.indices_in_range(),
        forall|v: int| 0 <= v < shape.vertices.len() ==> shape.vertex_submerged(plane, v),
    ensures
        shape.emitted_upto(plane, shape.faces.len() as int).len() == 3 * shape.faces.len(),
        forall|ff: int, j: int|
            0 <= ff < shape.faces.len() && 0 <= j < 3 ==> shape.emitted_upto(
                plane,
                shape.faces.len() as int,
            )[3 * ff + j] == #[trigger] shape.emit_orig(ff, j),
{
    lemma_emitted_full_upto(shape, plane, shape.faces.len() as int);
}

/// For a corner `v` of face `f`, the count accumulated before vertex `v`
/// leaves room for `v` itself: at most two of the other corners can
/// already have been counted.
proof fn lemma_count_bound(shape: HullShape, plane: Plane, f: int, v: int)
    requires
        shape.wf(),
        0 <= f < shape.faces.len(),
        0 <= v < shape.vertices.len(),
        shape.face_has_vertex(f, v),
    ensures
        0 <= shape.face_sub_count_upto(plane, f, v) <= 2,
{
    let j = choose|j: int| 0 <= j < 3 && shape.face_vertex(f, j) == v;
}

/// Processing vertex `v` in pass 1 advances each face's accumulated count
/// by one exactly when `v` is a submerged corner of it.
proof fn lemma_count_step(shape: HullShape, plane: Plane, f: int, v: int)
    requires
        shape.wf(),
        0 <= f < shape.faces.len(),
        0 <= v < shape.vertices.len(),
    ensures
        shape.face_sub_count_upto(plane, f, v + 1) == shape.face_sub_count_upto(plane, f, v) + (
        if shape.face_has_vertex(f, v) && shape.vertex_submerged(plane, v) {
            1int
        } else {
            0int
        }),
{
    if shape.face_has_vertex(f, v) {
        let j = choose|j: int| 0 <= j < 3 && shape.face_vertex(f, j) == v;
    }
}

} // verus!
