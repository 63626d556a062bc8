//! Laws of the face visibility test.
use vstd::prelude::*;
use crate::cull::classify::meta_spec;
use crate::cull::engine::render_spec;
use crate::cull::rules::pos_after;
use crate::cull::types::{CullCategory, GlassCullMode, LeavesCullMode, MetaView};
use crate::direction::{dir_opposite, lemma_mask_single, mask_has, Direction};
use crate::geometry::Aabb2d;
use crate::text::starts_with;

verus! {

/// Air renders no face; any other block renders a face towards nothing or towards air.
pub proof fn lemma_render_air_and_open(
    leaves: LeavesCullMode,
    glass: GlassCullMode,
    a: MetaView,
    b: MetaView,
    dir: Direction,
    quad: Option<Seq<Aabb2d>>,
    pa: Option<(i32, i32, i32)>,
    pb: Option<(i32, i32, i32)>,
)
    ensures
        a.is_air ==> !render_spec(leaves, glass, a, Some(b), dir, quad, pa, pb) && !render_spec(
            leaves,
            glass,
            a,
            None,
            dir,
            quad,
            pa,
            pb,
        ),
        !a.is_air ==> render_spec(leaves, glass, a, None, dir, quad, pa, pb),
        !a.is_air && b.is_air ==> render_spec(leaves, glass, a, Some(b), dir, quad, pa, pb),
{
}

/// Leaves-like metadata: cutout leaves with no full face and every face empty,
/// as every computed leaves state is.
pub open spec fn leaves_like(m: MetaView) -> bool {
    m.category == CullCategory::CutoutLeaves && !m.is_air && m.full_face_mask == 0 && m.empty_face_mask == 63
}

/// In single-face mode, of two touching leaves blocks at different positions
/// exactly one renders the face between them.
pub proof fn lemma_single_face_leaves(
    glass: GlassCullMode,
    a: MetaView,
    b: MetaView,
    dir: Direction,
    pa: (i32, i32, i32),
    pb: (i32, i32, i32),
)
    requires
        leaves_like(a),
        leaves_like(b),
        pa != pb,
    ensures
        render_spec(LeavesCullMode::SingleFace, glass, a, Some(b), dir, None, Some(pa), Some(pb))
            != render_spec(
            LeavesCullMode::SingleFace,
            glass,
            b,
            Some(a),
            dir_opposite(dir),
            None,
            Some(pb),
            Some(pa),
        ),
{
    lemma_mask_single(Direction::East, dir_opposite(dir));
    lemma_mask_single(Direction::East, dir);
    assert(!mask_has(0, dir) && !mask_has(0, dir_opposite(dir)));
    assert(mask_has(63, dir) && mask_has(63, dir_opposite(dir)));
    assert(pos_after(pa, pb) != pos_after(pb, pa));
}

/// In fast mode two touching leaves blocks hide the faces between them; in
/// fancy mode and with leaves culling off both faces render.
pub proof fn lemma_leaves_modes(
    glass: GlassCullMode,
    a: MetaView,
    b: MetaView,
    dir: Direction,
    pa: Option<(i32, i32, i32)>,
    pb: Option<(i32, i32, i32)>,
)
    requires
        leaves_like(a),
        leaves_like(b),
    ensures
        !render_spec(LeavesCullMode::Fast, glass, a, Some(b), dir, None, pa, pb),
        render_spec(LeavesCullMode::Fancy, glass, a, Some(b), dir, None, pa, pb),
        render_spec(LeavesCullMode::NoCull, glass, a, Some(b), dir, None, pa, pb),
{
    lemma_mask_single(Direction::East, dir_opposite(dir));
    assert(!mask_has(0, dir_opposite(dir)));
    assert(mask_has(63, dir_opposite(dir)));
}

/// Glass-like metadata: glass with no full face and every face empty, as every
/// computed glass state is.
pub open spec fn glass_like(m: MetaView) -> bool {
    m.category == CullCategory::GlassTranslucent && !m.is_air && m.full_face_mask == 0 && m.empty_face_mask
        == 63
}

/// In group mode two touching glass blocks of the glass group hide the faces
/// between them, both ways.
pub proof fn lemma_glass_group_mutual(
    leaves: LeavesCullMode,
    a: MetaView,
    b: MetaView,
    dir: Direction,
    pa: Option<(i32, i32, i32)>,
    pb: Option<(i32, i32, i32)>,
)
    requires
        glass_like(a),
        glass_like(b),
        a.cull_group == b.cull_group || (starts_with(a.cull_group, "glass"@) && starts_with(
            b.cull_group,
            "glass"@,
        )),
    ensures
        !render_spec(leaves, GlassCullMode::Group, a, Some(b), dir, None, pa, pb),
        !render_spec(leaves, GlassCullMode::Group, b, Some(a), dir_opposite(dir), None, pb, pa),
{
    lemma_mask_single(Direction::East, dir_opposite(dir));
    lemma_mask_single(Direction::East, dir);
}

/// A face of a non-fluid block against a full face of a solid neighbour is hidden.
pub proof fn lemma_full_face_hides(
    leaves: LeavesCullMode,
    glass: GlassCullMode,
    a: MetaView,
    b: MetaView,
    dir: Direction,
    quad: Option<Seq<Aabb2d>>,
    pa: Option<(i32, i32, i32)>,
    pb: Option<(i32, i32, i32)>,
)
    requires
        !a.is_air,
        !b.is_air,
        b.category == CullCategory::SolidOpaque,
        mask_has(b.full_face_mask, dir_opposite(dir)),
        a.category != CullCategory::Fluid,
    ensures
        !render_spec(leaves, glass, a, Some(b), dir, quad, pa, pb),
{
}

/// Two touching fluid blocks of the same group hide the faces between them, both ways.
pub proof fn lemma_same_fluid_mutual(
    leaves: LeavesCullMode,
    glass: GlassCullMode,
    a: MetaView,
    b: MetaView,
    dir: Direction,
    pa: Option<(i32, i32, i32)>,
    pb: Option<(i32, i32, i32)>,
)
    requires
        a.category == CullCategory::Fluid,
        b.category == CullCategory::Fluid,
        !a.is_air,
        !b.is_air,
        a.cull_group == b.cull_group,
    ensures
        !render_spec(leaves, glass, a, Some(b), dir, None, pa, pb),
        !render_spec(leaves, glass, b, Some(a), dir_opposite(dir), None, pb, pa),
{
}

/// Every computed state that is not a solid cube or a partial block has no full
/// face and no shape on any side: air, fluids, glass, leaves and non-occluding
/// blocks never hide their neighbours' faces by shape.
pub proof fn lemma_meta_masks(state: Seq<char>, quads: Option<Seq<crate::cull::classify::ElementQuad>>, hint: Option<bool>)
    ensures
        ({
            let m = meta_spec(state, quads, hint);
            (m.category != CullCategory::SolidOpaque && m.category != CullCategory::PartialShape) ==> (
            m.full_face_mask == 0 && m.empty_face_mask == 63)
        }),
        ({
            let m = meta_spec(state, quads, hint);
            m.category == CullCategory::SolidOpaque ==> m.full_face_mask == 63 && m.empty_face_mask == 0
        }),
        ({
            let m = meta_spec(state, quads, hint);
            m.category == CullCategory::CutoutLeaves ==> leaves_like(m)
        }),
        ({
            let m = meta_spec(state, quads, hint);
            m.category == CullCategory::GlassTranslucent ==> glass_like(m)
        }),
{
    reveal(meta_spec);
}

} // verus!
