//! Laws of the occlusion shapes, the skipping rules, the face visibility test and
//! the metadata of translucent blocks, stated over all inputs.
use vstd::prelude::*;
use crate::constants::geometry::{EPS, UNITS_PER_BLOCK};
use crate::cull::classify::meta_spec;
use crate::cull::engine::render_spec;
use crate::cull::parse::{prop_value, PropsView};
use crate::cull::rect_ops::{on_plane, plane_rect};
use crate::cull::rules::skip_spec;
use crate::cull::shapes::{parametric_shapes, six};
use crate::cull::types::{full_face, CullCategory, GlassCullMode, LeavesCullMode, MetaView};
use crate::direction::{dir_index, dir_offset, dir_opposite, lemma_mask_single, mask_has, Direction};
use crate::geometry::{covers, rect_height, rect_spec, rect_width, Aabb2d};
use crate::text::{contains, ends_with, lower, occurs_at, starts_with};

verus! {

/// A water face meets a waterlogged block: whatever the direction, the face is
/// skipped and not rendered (water fills the waterlogged block).
pub proof fn lemma_water_meets_waterlogged(
    leaves: LeavesCullMode,
    glass: GlassCullMode,
    a: MetaView,
    b: MetaView,
    dir: Direction,
    quad: Option<Seq<Aabb2d>>,
    pa: Option<(i32, i32, i32)>,
    pb: Option<(i32, i32, i32)>,
)
    requires
        !a.is_air,
        !b.is_air,
        a.category == CullCategory::Fluid,
        a.cull_group == "water"@,
        b.category != CullCategory::Fluid,
        b.is_waterlogged,
    ensures
        skip_spec(a, b, dir, leaves, glass, pa, pb),
        !render_spec(leaves, glass, a, Some(b), dir, quad, pa, pb),
{
}

/// A face against a full face of its neighbour is hidden, except the top of a
/// fluid, and except a solid or glass face next to a non-occluding block or a
/// partial block other than a slab or stairs: in particular the full bottom face
/// of a bottom slab hides the top face of the block below it.
pub proof fn lemma_full_neighbour_face_hides(
    leaves: LeavesCullMode,
    glass: GlassCullMode,
    a: MetaView,
    b: MetaView,
    dir: Direction,
    quad: Option<Seq<Aabb2d>>,
    pa: Option<(i32, i32, i32)>,
    pb: Option<(i32, i32, i32)>,
)
    requires
        !a.is_air,
        !b.is_air,
        mask_has(b.full_face_mask, dir_opposite(dir)),
        !(a.category == CullCategory::Fluid && dir == Direction::Up),
        (a.category != CullCategory::SolidOpaque && a.category != CullCategory::GlassTranslucent) || (
        b.category != CullCategory::NonOccluding && (b.category != CullCategory::PartialShape
            || ends_with(b.block_name, "_slab"@) || ends_with(b.block_name, "_stairs"@))),
    ensures
        !render_spec(leaves, glass, a, Some(b), dir, quad, pa, pb),
{
}

/// The axis along which a direction steps (0 for x, 1 for y, 2 for z).
pub open spec fn step_axis(d: Direction) -> int {
    if dir_offset(d).0 != 0 {
        0
    } else if dir_offset(d).1 != 0 {
        1
    } else {
        2
    }
}

/// The coordinate of the block's outer plane towards `d`: the far side
/// (`UNITS_PER_BLOCK`) when `d` steps up its axis, `0` when it steps down.
pub open spec fn outer_level(d: Direction) -> int {
    if dir_offset(d).0 + dir_offset(d).1 + dir_offset(d).2 > 0 {
        UNITS_PER_BLOCK as int
    } else {
        0
    }
}

/// The two axes other than `step_axis(d)`, in increasing order.
pub open spec fn in_plane_axes(d: Direction) -> (int, int) {
    let a = step_axis(d);
    (if a == 0 { 1 } else { 0 }, if a == 2 { 1 } else { 2 })
}

/// A quad gives an occlusion box towards `d` only when it lies on the block's
/// outer plane that `d` points to; a quad lying exactly on that plane and thicker
/// than `EPS` along both other axes gives a box whose sides are its extents along
/// those axes.
pub proof fn lemma_plane_rect_outer_plane(lo: [i32; 3], hi: [i32; 3], d: Direction)
    requires
        lo[0] <= hi[0],
        lo[1] <= hi[1],
        lo[2] <= hi[2],
    ensures
        plane_rect(lo, hi, d) is Some ==> on_plane(lo[step_axis(d)] as int, outer_level(d)) && on_plane(
            hi[step_axis(d)] as int,
            outer_level(d),
        ),
        ({
            let (j1, j2) = in_plane_axes(d);
            let e1 = hi[j1] - lo[j1];
            let e2 = hi[j2] - lo[j2];
            (lo[step_axis(d)] == outer_level(d) && hi[step_axis(d)] == outer_level(d) && e1 > EPS && e2
                > EPS) ==> (plane_rect(lo, hi, d) matches Some(r) && ((rect_width(r) == e1 && rect_height(r)
                == e2) || (rect_width(r) == e2 && rect_height(r) == e1)))
        }),
{
}

/// Slab shapes: a top slab's side faces lie in the upper half of the face and its
/// top face is full; a bottom slab's (also a slab without a type) side faces lie
/// in the lower half and its bottom face is full; each side face has a shape.
pub proof fn lemma_slab_faces(n: Seq<char>, ps: PropsView, d: Direction)
    requires
        ends_with(n, "_slab"@),
        dir_offset(d).1 == 0,
    ensures
        ({
            let sh = parametric_shapes(n, ps);
            let side = sh[dir_index(d)];
            let u = UNITS_PER_BLOCK as int;
            &&& prop_value(ps, "type"@) == Some("top"@) ==> {
                &&& side.len() > 0
                &&& forall|i: int| 0 <= i < side.len() ==> u / 2 <= (#[trigger] side[i]).min.y && side[i].max.y <= u
                &&& sh[dir_index(Direction::Up)].contains(full_face())
            }
            &&& (prop_value(ps, "type"@) != Some("top"@) && prop_value(ps, "type"@) != Some("double"@)) ==> {
                &&& side.len() > 0
                &&& forall|i: int| 0 <= i < side.len() ==> 0 <= (#[trigger] side[i]).min.y && side[i].max.y <= u / 2
                &&& sh[dir_index(Direction::Down)].contains(full_face())
            }
        }),
{
    let sh = parametric_shapes(n, ps);
    reveal_strlit("bottom");
    reveal_strlit("top");
    reveal_strlit("double");
    let u = UNITS_PER_BLOCK as int;
    let full = seq![full_face()];
    let ty = match prop_value(ps, "type"@) {
        Some(t) => t,
        None => "bottom"@,
    };
    assert("bottom"@[0] != "double"@[0]);
    assert("bottom"@.len() != "top"@.len());
    if prop_value(ps, "type"@) == Some("top"@) {
        assert(ty == "top"@);
        assert(sh == six(
            seq![rect_spec(0, u / 2, u, u)],
            seq![rect_spec(0, u / 2, u, u)],
            full,
            seq![],
            seq![rect_spec(0, u / 2, u, u)],
            seq![rect_spec(0, u / 2, u, u)],
        ));
        assert(sh[dir_index(Direction::Up)][0] == full_face());
    } else if prop_value(ps, "type"@) != Some("double"@) {
        assert(ty != "top"@ && ty != "double"@);
        assert(sh == six(
            seq![rect_spec(0, 0, u, u / 2)],
            seq![rect_spec(0, 0, u, u / 2)],
            seq![],
            full,
            seq![rect_spec(0, 0, u, u / 2)],
            seq![rect_spec(0, 0, u, u / 2)],
        ));
        assert(sh[dir_index(Direction::Down)][0] == full_face());
    }
}

/// The side faces of a top slab and of a bottom slab share no cell, so neither
/// covers any part of the other.
pub proof fn lemma_slab_halves_apart(n: Seq<char>, top: PropsView, bottom: PropsView, d: Direction, e: Direction)
    requires
        ends_with(n, "_slab"@),
        dir_offset(d).1 == 0,
        dir_offset(e).1 == 0,
        prop_value(top, "type"@) == Some("top"@),
        prop_value(bottom, "type"@) != Some("top"@),
        prop_value(bottom, "type"@) != Some("double"@),
    ensures
        forall|i: int, j: int, x: int, y: int|
            0 <= i < parametric_shapes(n, top)[dir_index(d)].len() && 0 <= j < parametric_shapes(
                n,
                bottom,
            )[dir_index(e)].len() ==> !(#[trigger] covers(parametric_shapes(n, top)[dir_index(d)][i], x, y)
                && #[trigger] covers(parametric_shapes(n, bottom)[dir_index(e)][j], x, y)),
{
    lemma_slab_faces(n, top, d);
    lemma_slab_faces(n, bottom, e);
}

/// A text that starts with `p` contains `p`.
proof fn lemma_starts_with_contains(s: Seq<char>, p: Seq<char>)
    requires
        starts_with(s, p),
    ensures
        contains(s, p),
{
    assert(s.subrange(0, p.len() as int) =~= s.take(p.len() as int));
    assert(occurs_at(s, p, 0));
}

/// Translucent blocks are grouped by name: a glass-category block whose
/// lower-case name contains "glass" is in the "glass" group, any other is in the
/// group of its own lower-case name.
pub proof fn lemma_glass_group_by_name(s: Seq<char>, q: Option<Seq<crate::cull::classify::ElementQuad>>, h: Option<bool>)
    ensures
        ({
            let m = meta_spec(s, q, h);
            m.category == CullCategory::GlassTranslucent ==> (if contains(lower(m.block_name), "glass"@) {
                m.cull_group == "glass"@
            } else {
                m.cull_group == lower(m.block_name)
            })
        }),
{
    reveal(meta_spec);
}

/// In group mode, two translucent blocks of different lower-case names that
/// both lack "glass" in their names (such as slime and honey blocks, or ice) do
/// not hide each other's faces: each face between them is rendered.
pub proof fn lemma_unlike_translucent_blocks_show(
    leaves: LeavesCullMode,
    sa: Seq<char>,
    qa: Option<Seq<crate::cull::classify::ElementQuad>>,
    ha: Option<bool>,
    sb: Seq<char>,
    qb: Option<Seq<crate::cull::classify::ElementQuad>>,
    hb: Option<bool>,
    dir: Direction,
    pa: Option<(i32, i32, i32)>,
    pb: Option<(i32, i32, i32)>,
)
    requires
        meta_spec(sa, qa, ha).category == CullCategory::GlassTranslucent,
        meta_spec(sb, qb, hb).category == CullCategory::GlassTranslucent,
        !contains(lower(meta_spec(sa, qa, ha).block_name), "glass"@),
        !contains(lower(meta_spec(sb, qb, hb).block_name), "glass"@),
        lower(meta_spec(sa, qa, ha).block_name) != lower(meta_spec(sb, qb, hb).block_name),
    ensures
        !skip_spec(meta_spec(sa, qa, ha), meta_spec(sb, qb, hb), dir, leaves, GlassCullMode::Group, pa, pb),
        render_spec(leaves, GlassCullMode::Group, meta_spec(sa, qa, ha), Some(meta_spec(sb, qb, hb)), dir, None, pa, pb),
{
    let a = meta_spec(sa, qa, ha);
    let b = meta_spec(sb, qb, hb);
    lemma_glass_group_by_name(sa, qa, ha);
    lemma_glass_group_by_name(sb, qb, hb);
    crate::cull::classify::lemma_meta_invariants(sa, qa, ha);
    crate::cull::classify::lemma_meta_invariants(sb, qb, hb);
    crate::cull::laws::lemma_meta_masks(sa, qa, ha);
    crate::cull::laws::lemma_meta_masks(sb, qb, hb);
    if starts_with(a.cull_group, "glass"@) {
        lemma_starts_with_contains(a.cull_group, "glass"@);
    }
    if starts_with(b.cull_group, "glass"@) {
        lemma_starts_with_contains(b.cull_group, "glass"@);
    }
    lemma_mask_single(Direction::East, dir_opposite(dir));
    assert(!skip_spec(a, b, dir, leaves, GlassCullMode::Group, pa, pb));
}

/// The exact shapes of a slab that is not a double slab: the upper or lower half
/// on each side, the full face on top or bottom.
proof fn lemma_slab_shapes(n: Seq<char>, ps: PropsView)
    requires
        ends_with(n, "_slab"@),
        prop_value(ps, "type"@) != Some("double"@),
    ensures
        ({
            let u = UNITS_PER_BLOCK as int;
            let up = seq![rect_spec(0, u / 2, u, u)];
            let low = seq![rect_spec(0, 0, u, u / 2)];
            let full = seq![full_face()];
            &&& prop_value(ps, "type"@) == Some("top"@) ==> parametric_shapes(n, ps) == six(up, up, full, seq![], up, up)
            &&& prop_value(ps, "type"@) != Some("top"@) ==> parametric_shapes(n, ps) == six(low, low, seq![], full, low, low)
        }),
{
    reveal_strlit("bottom");
    reveal_strlit("top");
    reveal_strlit("double");
    assert("bottom"@[0] != "double"@[0]);
    assert("bottom"@.len() != "top"@.len());
}

/// No box of a one-box list covers the whole face when the box is at most half
/// as high as the face.
proof fn lemma_half_not_full(r: Aabb2d)
    requires
        r.max.y - r.min.y <= UNITS_PER_BLOCK / 2,
    ensures
        !crate::cull::classify::any_full(seq![r]),
        !crate::cull::classify::any_full(seq![r]) && seq![r].len() != 0,
{
    if crate::cull::classify::any_full(seq![r]) {
        let i = choose|i: int| 0 <= i < seq![r].len() && crate::cull::types::full_rect(#[trigger] seq![r][i], EPS as int);
        assert(seq![r][i] == r);
    }
}

/// Mask bit of the shapes of one side: full exactly when a box of that side is full.
proof fn lemma_masks_of(sh: Seq<Seq<Aabb2d>>, d: Direction)
    requires
        sh.len() == 6,
    ensures
        mask_has(crate::cull::classify::full_mask_of(sh), d) == crate::cull::classify::any_full(sh[dir_index(d)]),
        mask_has(crate::cull::classify::empty_mask_of(sh), d) == (!crate::cull::classify::any_full(sh[dir_index(d)])
            && sh[dir_index(d)].len() == 0),
{
    let f = Seq::new(6, |i: int| crate::cull::classify::any_full(sh[i]));
    let g = Seq::new(6, |i: int| !crate::cull::classify::any_full(sh[i]) && sh[i].len() == 0);
    crate::cull::classify::lemma_flag_bits(f, d);
    crate::cull::classify::lemma_flag_bits(g, d);
}

/// A top slab's side face next to a bottom slab is rendered: the upper half is
/// not hidden by the lower half, whatever the modes and positions.
pub proof fn lemma_top_slab_side_shows_beside_bottom_slab(
    leaves: LeavesCullMode,
    glass: GlassCullMode,
    sa: Seq<char>,
    ha: Option<bool>,
    sb: Seq<char>,
    hb: Option<bool>,
    dir: Direction,
    pa: Option<(i32, i32, i32)>,
    pb: Option<(i32, i32, i32)>,
)
    requires
        meta_spec(sa, None, ha).category == CullCategory::PartialShape,
        meta_spec(sb, None, hb).category == CullCategory::PartialShape,
        ends_with(lower(meta_spec(sa, None, ha).block_name), "_slab"@),
        ends_with(lower(meta_spec(sb, None, hb).block_name), "_slab"@),
        prop_value(meta_spec(sa, None, ha).props, "type"@) == Some("top"@),
        prop_value(meta_spec(sb, None, hb).props, "type"@) != Some("top"@),
        prop_value(meta_spec(sb, None, hb).props, "type"@) != Some("double"@),
        dir_offset(dir).1 == 0,
    ensures
        render_spec(leaves, glass, meta_spec(sa, None, ha), Some(meta_spec(sb, None, hb)), dir, None, pa, pb),
{
    let a = meta_spec(sa, None, ha);
    let b = meta_spec(sb, None, hb);
    let u = UNITS_PER_BLOCK as int;
    let opp = dir_opposite(dir);
    crate::cull::classify::lemma_meta_invariants(sa, None, ha);
    crate::cull::classify::lemma_meta_invariants(sb, None, hb);
    crate::cull::classify::lemma_partial_shapes(sa, ha);
    crate::cull::classify::lemma_partial_shapes(sb, hb);
    reveal_strlit("top");
    reveal_strlit("double");
    assert("top"@[0] != "double"@[0]);
    let na = lower(a.block_name);
    let nb = lower(b.block_name);
    lemma_slab_shapes(na, a.props);
    lemma_slab_shapes(nb, b.props);
    let ra = rect_spec(0, u / 2, u, u);
    let rb = rect_spec(0, 0, u, u / 2);
    assert(a.face_shapes[dir_index(dir)] == seq![ra]);
    assert(b.face_shapes[dir_index(opp)] == seq![rb]);
    lemma_half_not_full(ra);
    lemma_half_not_full(rb);
    lemma_masks_of(a.face_shapes, dir);
    lemma_masks_of(b.face_shapes, opp);
    // The special rules do not apply to slabs.
    reveal_strlit("mangrove_roots");
    reveal_strlit("powder_snow");
    reveal_strlit("_slab");
    if a.block_name == "mangrove_roots"@ {
        assert(na =~= "mangrove_roots"@);
        assert(na.skip(na.len() - 5)[4] == na[na.len() - 1]);
    }
    if a.block_name == "powder_snow"@ {
        assert(na =~= "powder_snow"@);
        assert(na.skip(na.len() - 5)[4] == na[na.len() - 1]);
    }
    assert(!skip_spec(a, b, dir, leaves, glass, pa, pb));
    // What the lower half leaves of the upper half: a middle cell of the upper half.
    let occs = seq![rb];
    assert(crate::cull::rect_ops::thick(occs) =~= occs) by {
        assert(occs.drop_last() =~= Seq::<Aabb2d>::empty());
        assert(occs.last() == rb);
        assert(rb.max.x - rb.min.x == u && rb.max.y - rb.min.y == u / 2);
        assert(!crate::cull::types::empty_rect(rb, EPS as int));
        assert(crate::cull::rect_ops::thick(occs.drop_last()) =~= Seq::<Aabb2d>::empty());
    }
    assert(crate::cull::rect_ops::all_wf(occs)) by {
        assert forall|i: int| 0 <= i < occs.len() implies crate::geometry::rect_wf(#[trigger] occs[i]) by {
            assert(occs[i] == rb);
        }
    }
    let x = u / 2;
    let y = 3 * u / 4;
    crate::cull::rect_laws::lemma_remainder_complete(ra, occs, x, y);
    if exists|j: int| 0 <= j < occs.len() && covers(#[trigger] occs[j], x, y) {
        let j = choose|j: int| 0 <= j < occs.len() && covers(#[trigger] occs[j], x, y);
        assert(occs[j] == rb);
    }
    if crate::cull::rect_ops::near_x_edge(ra, occs, x) {
        if exists|j: int| 0 <= j < occs.len() && (crate::cull::rect_ops::near(x, occs[j].min.x as int)
            || crate::cull::rect_ops::near(x, occs[j].max.x as int)) {
            let j = choose|j: int| 0 <= j < occs.len() && (crate::cull::rect_ops::near(x, occs[j].min.x as int)
                || crate::cull::rect_ops::near(x, occs[j].max.x as int));
            assert(occs[j] == rb);
        }
    }
    if crate::cull::rect_ops::near_y_edge(ra, occs, y) {
        if exists|j: int| 0 <= j < occs.len() && (crate::cull::rect_ops::near(y, occs[j].min.y as int)
            || crate::cull::rect_ops::near(y, occs[j].max.y as int)) {
            let j = choose|j: int| 0 <= j < occs.len() && (crate::cull::rect_ops::near(y, occs[j].min.y as int)
                || crate::cull::rect_ops::near(y, occs[j].max.y as int));
            assert(occs[j] == rb);
        }
    }
    assert(crate::cull::rect_ops::some_covers(crate::cull::rect_ops::remainder(ra, occs), x, y));
    assert(crate::cull::rect_ops::remainder(ra, occs).len() != 0);
    assert(!crate::cull::rect_ops::completely_occluded(seq![ra], occs)) by {
        if exists|j: int| 0 <= j < occs.len() && crate::cull::types::full_rect(occs[j], EPS as int) {
            let j = choose|j: int| 0 <= j < occs.len() && crate::cull::types::full_rect(occs[j], EPS as int);
            assert(occs[j] == rb);
        }
        assert(seq![ra][0] == ra);
    }
}

/// A bottom slab hides the top face of any non-air, non-fluid block below it,
/// whatever that block's category: a slab's full bottom face covers it.
pub proof fn lemma_bottom_slab_hides_top_below(
    leaves: LeavesCullMode,
    glass: GlassCullMode,
    a: MetaView,
    sb: Seq<char>,
    hb: Option<bool>,
    quad: Option<Seq<Aabb2d>>,
    pa: Option<(i32, i32, i32)>,
    pb: Option<(i32, i32, i32)>,
)
    requires
        !a.is_air,
        a.category != CullCategory::Fluid,
        meta_spec(sb, None, hb).category == CullCategory::PartialShape,
        ends_with(meta_spec(sb, None, hb).block_name, "_slab"@),
        ends_with(lower(meta_spec(sb, None, hb).block_name), "_slab"@),
        prop_value(meta_spec(sb, None, hb).props, "type"@) != Some("top"@),
        prop_value(meta_spec(sb, None, hb).props, "type"@) != Some("double"@),
    ensures
        !render_spec(leaves, glass, a, Some(meta_spec(sb, None, hb)), Direction::Up, quad, pa, pb),
{
    let b = meta_spec(sb, None, hb);
    crate::cull::classify::lemma_meta_invariants(sb, None, hb);
    crate::cull::classify::lemma_partial_shapes(sb, hb);
    lemma_slab_shapes(lower(b.block_name), b.props);
    let down = b.face_shapes[dir_index(Direction::Down)];
    assert(down == seq![full_face()]);
    assert(crate::cull::types::full_rect(down[0], EPS as int));
    assert(crate::cull::classify::any_full(down));
    lemma_masks_of(b.face_shapes, Direction::Down);
    lemma_full_neighbour_face_hides(leaves, glass, a, b, Direction::Up, quad, pa, pb);
}

} // verus!
