//! Verified core of a Minecraft voxel toolkit: block-space directions and
//! voxel indexing, face attributes, mesh buffers, and the face-culling engine
//! (block state parsing, occlusion shapes, 2D box subtraction, culling rules and
//! the metadata cache), with the bookkeeping of the mesh pipeline.
use vstd::prelude::*;

pub mod attributes;
pub mod constants;
pub mod cull;
pub mod direction;
pub mod extrude;
pub mod geometry;
pub mod mesh;
pub mod pipeline;
pub mod prebake;
pub mod subdivide;
pub mod text;
pub mod vecs;

verus! {
} // verus!
