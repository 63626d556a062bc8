//! Culling categories, modes and per-state occlusion metadata.
use vstd::prelude::*;
use crate::constants::geometry::UNITS_PER_BLOCK;
use crate::direction::{dir_index, mask_has, Direction, DirMask};
use crate::geometry::{Aabb2d, Point2};

verus! {

/// High-level classification of blocks for face culling.
#[derive(Debug, Clone, Copy, PartialEq, Eq, Structural, Hash)]
pub enum CullCategory {
    /// Full solid cubes (stone, dirt, planks, ...).
    SolidOpaque,
    /// Glass, stained glass, ice, slime, honey, tinted glass, powder snow.
    GlassTranslucent,
    /// Cutout leaves and mangrove roots.
    CutoutLeaves,
    /// Non-full blocks (slabs, stairs, trapdoors, snow layers, ...).
    PartialShape,
    /// Water and lava.
    Fluid,
    /// Decoration that never occludes (flowers, torches, rails, ...).
    NonOccluding,
    /// Air-like blocks.
    Air,
}

impl Default for CullCategory {
    fn default() -> (c: CullCategory)
        ensures
            c == CullCategory::SolidOpaque,
    {
        CullCategory::SolidOpaque
    }
}

/// Culling modes between touching leaves.
#[derive(Debug, Clone, Copy, PartialEq, Eq, Structural, Hash)]
pub enum LeavesCullMode {
    /// Both touching faces are rendered.
    Fancy,
    /// Exactly one of two touching faces is rendered.
    SingleFace,
    /// Touching faces cull each other.
    Fast,
    /// No leaves culling at all.
    NoCull,
}

impl Default for LeavesCullMode {
    fn default() -> (m: LeavesCullMode)
        ensures
            m == LeavesCullMode::SingleFace,
    {
        LeavesCullMode::SingleFace
    }
}

/// Culling modes between touching glass blocks.
#[derive(Debug, Clone, Copy, PartialEq, Eq, Structural, Hash)]
pub enum GlassCullMode {
    /// Only the same block culls.
    SameBlock,
    /// Any glass culls any glass.
    Group,
    /// No glass culling.
    NoCull,
}

impl Default for GlassCullMode {
    fn default() -> (m: GlassCullMode)
        ensures
            m == GlassCullMode::Group,
    {
        GlassCullMode::Group
    }
}

/// The box covering a whole block face.
pub open spec fn full_face() -> Aabb2d {
    Aabb2d { min: Point2 { x: 0, y: 0 }, max: Point2 { x: UNITS_PER_BLOCK, y: UNITS_PER_BLOCK } }
}

/// Canonical box of a fully occluding face.
pub fn full_face_rect() -> (r: Aabb2d)
    ensures
        r == full_face(),
{
    Aabb2d { min: Point2 { x: 0, y: 0 }, max: Point2 { x: UNITS_PER_BLOCK, y: UNITS_PER_BLOCK } }
}

/// Canonical box of no occlusion.
pub fn empty_face_rect() -> (r: Aabb2d)
    ensures
        r == (Aabb2d { min: Point2 { x: 0, y: 0 }, max: Point2 { x: 0, y: 0 } }),
{
    Aabb2d { min: Point2 { x: 0, y: 0 }, max: Point2 { x: 0, y: 0 } }
}

/// The box covers the whole face up to `eps`.
pub open spec fn full_rect(r: Aabb2d, eps: int) -> bool {
    r.min.x <= eps && r.min.y <= eps && r.max.x >= UNITS_PER_BLOCK - eps && r.max.y >= UNITS_PER_BLOCK
        - eps
}

/// The box is at most `eps` wide or high (signed extents, as the face tests measure them).
pub open spec fn empty_rect(r: Aabb2d, eps: int) -> bool {
    r.max.x - r.min.x <= eps || r.max.y - r.min.y <= eps
}

/// Whether a box covers the full face within `eps`.
pub fn is_full_rect(rect: &Aabb2d, eps: i32) -> (b: bool)
    ensures
        b == full_rect(*rect, eps as int),
{
    let e = eps as i64;
    (rect.min.x as i64) <= e && (rect.min.y as i64) <= e && (rect.max.x as i64) >= (UNITS_PER_BLOCK
        as i64) - e && (rect.max.y as i64) >= (UNITS_PER_BLOCK as i64) - e
}

/// Whether a box has no area within `eps`.
pub fn is_empty_rect(rect: &Aabb2d, eps: i32) -> (b: bool)
    ensures
        b == empty_rect(*rect, eps as int),
{
    (rect.max.x as i64) - (rect.min.x as i64) <= eps as i64 || (rect.max.y as i64) - (
    rect.min.y as i64) <= eps as i64
}

/// Precomputed culling metadata of one block state.
#[derive(Debug)]
pub struct BlockCullMeta {
    /// Full block state string (e.g. `minecraft:oak_slab[type=bottom]`).
    pub state_str: String,
    /// Block name without namespace or properties (e.g. `oak_slab`).
    pub block_name: String,
    /// Category for the culling rules.
    pub category: CullCategory,
    /// Whether the block is a full 1x1x1 cube.
    pub is_full_cube: bool,
    /// Whether the block is fully opaque.
    pub is_opaque: bool,
    /// Whether the block is air.
    pub is_air: bool,
    /// Whether the block is a fluid.
    pub is_fluid: bool,
    /// Group for group-level mutual culling (`glass`, `water`, `solid`, ...).
    pub cull_group: String,
    /// Face occlusion boxes for each direction, by direction index.
    pub face_shapes: [Vec<Aabb2d>; 6],
    /// Directions with at least one full occluding face.
    pub full_face_mask: DirMask,
    /// Directions whose occlusion shape is empty.
    pub empty_face_mask: DirMask,
    /// Block state properties, each key once, in increasing key order.
    pub props: Vec<(String, String)>,
    /// Whether the block is waterlogged.
    pub is_waterlogged: bool,
    /// Whether the metadata came from baked model geometry.
    pub has_baked_model: bool,
}

/// The abstract content of a `BlockCullMeta`.
pub struct MetaView {
    pub state_str: Seq<char>,
    pub block_name: Seq<char>,
    pub category: CullCategory,
    pub is_full_cube: bool,
    pub is_opaque: bool,
    pub is_air: bool,
    pub is_fluid: bool,
    pub cull_group: Seq<char>,
    pub face_shapes: Seq<Seq<Aabb2d>>,
    pub full_face_mask: u8,
    pub empty_face_mask: u8,
    pub props: Seq<(Seq<char>, Seq<char>)>,
    pub is_waterlogged: bool,
    pub has_baked_model: bool,
}

/// The abstract content of property pairs.
pub open spec fn props_view(p: Seq<(String, String)>) -> Seq<(Seq<char>, Seq<char>)> {
    p.map_values(|kv: (String, String)| (kv.0@, kv.1@))
}

impl View for BlockCullMeta {
    type V = MetaView;

    open spec fn view(&self) -> MetaView {
        MetaView {
            state_str: self.state_str@,
            block_name: self.block_name@,
            category: self.category,
            is_full_cube: self.is_full_cube,
            is_opaque: self.is_opaque,
            is_air: self.is_air,
            is_fluid: self.is_fluid,
            cull_group: self.cull_group@,
            face_shapes: Seq::new(6, |i: int| self.face_shapes[i]@),
            full_face_mask: self.full_face_mask.bits,
            empty_face_mask: self.empty_face_mask.bits,
            props: props_view(self.props@),
            is_waterlogged: self.is_waterlogged,
            has_baked_model: self.has_baked_model,
        }
    }
}

impl BlockCullMeta {
    /// Whether the state has a full occluding face towards `dir`.
    pub fn has_full_face(&self, dir: Direction) -> (b: bool)
        ensures
            b == mask_has(self.full_face_mask.bits, dir),
    {
        self.full_face_mask.contains_dir(dir)
    }

    /// Whether the state has an empty occlusion shape towards `dir`.
    pub fn has_empty_face(&self, dir: Direction) -> (b: bool)
        ensures
            b == mask_has(self.empty_face_mask.bits, dir),
    {
        self.empty_face_mask.contains_dir(dir)
    }

    /// The occlusion boxes towards `dir`.
    pub fn get_face_shapes(&self, dir: Direction) -> (s: &[Aabb2d])
        ensures
            s@ == self@.face_shapes[dir_index(dir)],
    {
        let i = dir.to_index();
        self.face_shapes[i].as_slice()
    }
}

} // verus!
