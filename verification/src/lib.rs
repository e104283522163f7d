//! Clipping of indexed triangle meshes against a plane, over exact integer
//! coordinates.
//!
//! A raw triangle mesh (a position buffer and a flat index buffer) is turned
//! into an adjacency-aware topology of vertices, deduplicated edges and faces
//! (`hull::HullShape`). That topology can be clipped against a plane
//! (`hull::Hull::clip_with_plane`), which classifies every vertex, edge and
//! face, synthesizes boundary vertices where edges cross the plane, and emits
//! a new triangle index list; or flattened back into raw buffers.

pub mod geometry;
pub mod hull;
