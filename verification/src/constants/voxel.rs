//! Chunk-section and voxel domain constants.
use vstd::prelude::*;

verus! {

/// Size of a chunk section along each axis.
pub const SECTION_SIZE: usize = 16;

/// Bit mask for a coordinate within a section (`15`).
pub const SECTION_MASK: usize = 15;

/// Shift for divisions by the section size (`4`).
pub const SECTION_SHIFT: usize = 4;

/// Blocks in one horizontal slice of a section (`256`).
pub const SECTION_AREA: usize = SECTION_SIZE * SECTION_SIZE;

/// Blocks in a section (`4096`).
pub const SECTION_VOLUME: usize = SECTION_SIZE * SECTION_SIZE * SECTION_SIZE;

/// Size of a section padded by one neighbour block on every side (`18`).
pub const PADDED_SIZE: usize = 18;

/// Blocks in a padded section (`5832`).
pub const PADDED_VOLUME: usize = PADDED_SIZE * PADDED_SIZE * PADDED_SIZE;

/// The flat index `x * 256 + y * 16 + z` of a block inside a section, written
/// `(x << 8) | (y << 4) | z`; for coordinates below 16 the two agree.
pub open spec fn block_index_spec(x: usize, y: usize, z: usize) -> usize {
    (x << 8usize) | (y << 4usize) | z
}

/// Computes the flat index inside a 16x16x16 section storage, `(x << 8) | (y << 4) | z`.
pub fn block_index(x: usize, y: usize, z: usize) -> (i: usize)
    ensures
        i == block_index_spec(x, y, z),
        x < 16 && y < 16 && z < 16 ==> i == x * 256 + y * 16 + z,
{
    let i = (x << 8usize) | (y << 4usize) | z;
    proof {
        if x < 16 && y < 16 && z < 16 {
            lemma_block_index_arith(x, y, z);
        }
    }
    i
}

proof fn lemma_block_index_arith(x: usize, y: usize, z: usize)
    requires
        x < 16,
        y < 16,
        z < 16,
    ensures
        (x << 8usize) | (y << 4usize) | z == x * 256 + y * 16 + z,
{
    assert(x < 16 && y < 16 && z < 16 ==> (x << 8usize) | (y << 4usize) | z == x * 256 + y * 16 + z)
        by (bit_vector);
}

/// Computes the flat index `px * 324 + py * 18 + pz` in an 18x18x18 padded buffer.
pub fn padded_index(px: usize, py: usize, pz: usize) -> (i: usize)
    requires
        px * 324 + py * 18 + pz <= usize::MAX,
    ensures
        i == px * 324 + py * 18 + pz,
{
    px * (PADDED_SIZE * PADDED_SIZE) + py * PADDED_SIZE + pz
}

/// Every block of a section has its own index, and the indices fill `0..4096`.
pub proof fn lemma_block_index_bijective(x1: usize, y1: usize, z1: usize, x2: usize, y2: usize, z2: usize)
    requires
        x1 < 16 && y1 < 16 && z1 < 16,
        x2 < 16 && y2 < 16 && z2 < 16,
    ensures
        block_index_spec(x1, y1, z1) < SECTION_VOLUME,
        block_index_spec(x1, y1, z1) == block_index_spec(x2, y2, z2) ==> (x1 == x2 && y1 == y2 && z1
            == z2),
{
    lemma_block_index_arith(x1, y1, z1);
    lemma_block_index_arith(x2, y2, z2);
}

/// Every block of a padded section has its own index, below `5832`.
pub proof fn lemma_padded_index_bijective(x1: int, y1: int, z1: int, x2: int, y2: int, z2: int)
    requires
        0 <= x1 < 18 && 0 <= y1 < 18 && 0 <= z1 < 18,
        0 <= x2 < 18 && 0 <= y2 < 18 && 0 <= z2 < 18,
    ensures
        x1 * 324 + y1 * 18 + z1 < PADDED_VOLUME,
        x1 * 324 + y1 * 18 + z1 == x2 * 324 + y2 * 18 + z2 ==> (x1 == x2 && y1 == y2 && z1 == z2),
{
}

} // verus!
