//! Fixed-point face coordinates.
//!
//! Face-plane and block-space coordinates are integers in units of
//! `1 / UNITS_PER_BLOCK` of a block edge: 0 is one side of a block, `UNITS_PER_BLOCK`
//! the other. Every multiple of 1/1024 of a block is exact in these units.
use vstd::prelude::*;

verus! {

/// Fixed-point units per block edge (`16384`).
pub const UNITS_PER_BLOCK: i32 = 16384;

/// Units per model pixel (a block is 16 pixels wide).
pub const UNITS_PER_PIXEL: i32 = 1024;

/// Geometric comparison tolerance in units. Two coordinates that differ by at
/// most `EPS` count as equal; a strip at most `EPS` thick counts as empty.
pub const EPS: i32 = 1;

} // verus!
