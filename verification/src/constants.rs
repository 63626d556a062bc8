//! Voxel, geometric, lighting and scheduling constants.
pub mod concurrency;
pub mod geometry;
pub mod lighting;
pub mod voxel;
