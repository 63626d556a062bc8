//! Classification of block states and computation of their culling metadata.
use vstd::prelude::*;
use std::sync::Arc;
use crate::constants::geometry::EPS;
use crate::cull::names::{
    AIR_NAMES, FLUID_NAMES, GLASS_NAMES, LEAVES_NAMES, NON_OCCLUDING_NAMES, PARTIAL_SHAPE_EXACT_NAMES,
    PARTIAL_SHAPE_KEYWORDS, PARTIAL_SHAPE_SUFFIXES,
};
use crate::cull::parse::{
    pairs_view, parse_block_name_and_props, parse_ok, parse_spec, prop_value, props_value_is,
    PropsView,
};
use crate::cull::rect_ops::{extract_quad_face_occlusion_rect, plane_rect, quad_hi, quad_lo};
use crate::cull::shapes::{derive_parametric_face_shapes, parametric_shapes, shapes_view, six};
use crate::cull::types::{
    full_face, full_face_rect, full_rect, is_full_rect, BlockCullMeta, CullCategory, MetaView,
};
use crate::direction::{dir_index, DirMask, Direction};
use crate::geometry::Aabb2d;
use crate::text::{
    chars_eq_str, chars_of, contains, contains_any, contains_one_of, contains_str, ends_with,
    ends_with_any, ends_with_one_of, ends_with_str, is_one_of, lower, one_of, string_from, to_lower,
    find, lemma_after_last_free, rfind, trim,
};

verus! {

/// A quad of model geometry: four vertices in fixed-point block coordinates and
/// the face direction it belongs to.
pub type ElementQuad = ([[i32; 3]; 4], Direction);

// ---------------------------------------------------------------------------
// Name classes
// ---------------------------------------------------------------------------

/// Non-full or partial block, judged by its lower-case name.
pub open spec fn non_full_name(n: Seq<char>) -> bool {
    one_of(n, PARTIAL_SHAPE_EXACT_NAMES@) || one_of(n, NON_OCCLUDING_NAMES@) || ends_with_one_of(
        n,
        PARTIAL_SHAPE_SUFFIXES@,
    ) || contains_one_of(n, PARTIAL_SHAPE_KEYWORDS@)
}

/// Whether a lower-case block name is a non-full or partial block.
pub fn is_non_full_or_partial_block(name_low: &str) -> (b: bool)
    ensures
        b == non_full_name(name_low@),
{
    let n = chars_of(name_low);
    let n = n.as_slice();
    is_one_of(n, &PARTIAL_SHAPE_EXACT_NAMES) || is_one_of(n, &NON_OCCLUDING_NAMES) || ends_with_any(
        n,
        &PARTIAL_SHAPE_SUFFIXES,
    ) || contains_any(n, &PARTIAL_SHAPE_KEYWORDS)
}

/// The property is present with value `true`.
pub open spec fn prop_is(ps: PropsView, k: Seq<char>, v: Seq<char>) -> bool {
    prop_value(ps, k) == Some(v)
}

pub open spec fn class_waterlogged(n: Seq<char>, ps: PropsView) -> bool {
    prop_is(ps, "waterlogged"@, "true"@) || n == "seagrass"@ || n == "tall_seagrass"@ || n == "kelp"@
        || n == "kelp_plant"@
}

pub open spec fn class_air(state: Seq<char>, n: Seq<char>) -> bool {
    state.len() == 0 || one_of(n, AIR_NAMES@) || ends_with(n, "air"@)
}

pub open spec fn class_fluid(state: Seq<char>, n: Seq<char>) -> bool {
    !class_air(state, n) && (one_of(n, FLUID_NAMES@) || contains(n, "water"@) || contains(n, "lava"@))
}

pub open spec fn class_leaves(state: Seq<char>, n: Seq<char>) -> bool {
    !class_air(state, n) && (one_of(n, LEAVES_NAMES@) || ends_with(n, "_leaves"@) || n
        == "mangrove_roots"@)
}

pub open spec fn class_pane(n: Seq<char>) -> bool {
    ends_with(n, "_pane"@) || ends_with(n, "_bars"@) || n == "glass_pane"@ || n == "iron_bars"@
}

pub open spec fn class_glass(state: Seq<char>, n: Seq<char>) -> bool {
    !class_air(state, n) && !class_pane(n) && (one_of(n, GLASS_NAMES@) || contains(
        n,
        "stained_glass"@,
    ) || ends_with(n, "glass"@) || ends_with(n, "ice"@))
}

pub open spec fn class_non_occluding(state: Seq<char>, n: Seq<char>) -> bool {
    !class_air(state, n) && (one_of(n, NON_OCCLUDING_NAMES@) || ends_with(n, "_flower"@) || ends_with(
        n,
        "_sapling"@,
    ) || ends_with(n, "_torch"@) || ends_with(n, "_lantern"@) || ends_with(n, "_plant"@) || ends_with(
        n,
        "_bush"@,
    ))
}

pub open spec fn class_double_slab(n: Seq<char>, ps: PropsView) -> bool {
    ends_with(n, "_slab"@) && prop_is(ps, "type"@, "double"@)
}

pub open spec fn class_non_full(state: Seq<char>, n: Seq<char>, ps: PropsView) -> bool {
    !class_air(state, n) && !class_double_slab(n, ps) && (class_pane(n) || ends_with(n, "_slab"@)
        || ends_with(n, "_stairs"@) || non_full_name(n))
}

// ---------------------------------------------------------------------------
// Shapes and masks
// ---------------------------------------------------------------------------

/// Six empty shape lists.
pub open spec fn no_shapes() -> Seq<Seq<Aabb2d>> {
    six(seq![], seq![], seq![], seq![], seq![], seq![])
}

/// A full face towards every direction.
pub open spec fn all_full_shapes() -> Seq<Seq<Aabb2d>> {
    let f = seq![full_face()];
    six(f, f, f, f, f, f)
}

/// Occlusion boxes of the quads facing `d` that lie on the outer plane towards `d`, in order.
pub open spec fn quad_shapes(quads: Seq<ElementQuad>, d: Direction) -> Seq<Aabb2d>
    decreases quads.len(),
{
    if quads.len() == 0 {
        seq![]
    } else {
        let rest = quad_shapes(quads.drop_last(), d);
        let q = quads.last();
        if q.1 == d {
            match plane_rect(quad_lo(q.0), quad_hi(q.0), q.1) {
                Some(r) => rest.push(r),
                None => rest,
            }
        } else {
            rest
        }
    }
}

/// Occlusion shapes of model quads, by direction index.
pub open spec fn quads_shapes(quads: Seq<ElementQuad>) -> Seq<Seq<Aabb2d>> {
    six(
        quad_shapes(quads, Direction::East),
        quad_shapes(quads, Direction::West),
        quad_shapes(quads, Direction::Up),
        quad_shapes(quads, Direction::Down),
        quad_shapes(quads, Direction::South),
        quad_shapes(quads, Direction::North),
    )
}

/// Some box of the list covers the full face (within `EPS`).
pub open spec fn any_full(rs: Seq<Aabb2d>) -> bool {
    exists|i: int| 0 <= i < rs.len() && full_rect(#[trigger] rs[i], EPS as int)
}

/// Mask bits of six direction flags (east is bit 0, ..., north bit 5).
pub open spec fn flag_bits(f: Seq<bool>) -> u8 {
    (if f[0] { 1u8 } else { 0u8 }) | (if f[1] { 2u8 } else { 0u8 }) | (if f[2] { 4u8 } else { 0u8 }) | (
    if f[3] { 8u8 } else { 0u8 }) | (if f[4] { 16u8 } else { 0u8 }) | (if f[5] { 32u8 } else { 0u8 })
}

/// Directions with a full occluding box.
pub open spec fn full_mask_of(sh: Seq<Seq<Aabb2d>>) -> u8 {
    flag_bits(Seq::new(6, |i: int| any_full(sh[i])))
}

/// Directions with no box at all (and so no full box).
pub open spec fn empty_mask_of(sh: Seq<Seq<Aabb2d>>) -> u8 {
    flag_bits(Seq::new(6, |i: int| !any_full(sh[i]) && sh[i].len() == 0))
}

// ---------------------------------------------------------------------------
// Metadata
// ---------------------------------------------------------------------------

/// The quads of an optional quad slice.
pub open spec fn quads_view(q: Option<&[ElementQuad]>) -> Option<Seq<ElementQuad>> {
    match q {
        Some(s) => Some(s@),
        None => None,
    }
}

/// Category, full-cube flag, opaque flag, cull group, shapes, full mask and
/// empty mask of a state.
pub type MetaCore = (CullCategory, bool, bool, Seq<char>, Seq<Seq<Aabb2d>>, u8, u8);

/// The classification part of the metadata of a block state.
///
/// Air, fluids, glass, leaves and non-occluding blocks have no shapes (every
/// face empty). With model quads, a full opaque cube is solid; otherwise the
/// quads on the outer planes give the shapes of a partial block. Without quads,
/// known non-full blocks get parametric shapes, and anything else is a solid cube.
pub open spec fn meta_core(state: Seq<char>, quads: Option<Seq<ElementQuad>>, hint: Option<bool>) -> MetaCore {
    let (name, ps) = parse_spec(state);
    let n = lower(name);
    let non_full = class_non_full(state, n, ps);
    if class_air(state, n) {
        (CullCategory::Air, false, false, "air"@, no_shapes(), 0, 63)
    } else if class_fluid(state, n) {
        (CullCategory::Fluid, false, false, if contains(n, "water"@) {
            "water"@
        } else {
            "lava"@
        }, no_shapes(), 0, 63)
    } else if class_glass(state, n) {
        (CullCategory::GlassTranslucent, true, false, if contains(n, "glass"@) {
            "glass"@
        } else {
            n
        }, no_shapes(), 0, 63)
    } else if class_leaves(state, n) {
        (CullCategory::CutoutLeaves, true, false, "leaves"@, no_shapes(), 0, 63)
    } else if class_non_occluding(state, n) {
        (CullCategory::NonOccluding, false, false, "non_occluding"@, no_shapes(), 0, 63)
    } else if quads is Some {
        let full_cube = !non_full || class_double_slab(n, ps);
        let opaque = match hint {
            Some(h) => h,
            None => full_cube,
        } && !non_full;
        if full_cube && opaque {
            (CullCategory::SolidOpaque, full_cube, opaque, "solid"@, all_full_shapes(), 63, 0)
        } else {
            let sh = quads_shapes(quads->0);
            (CullCategory::PartialShape, full_cube, opaque, "partial"@, sh, full_mask_of(sh), empty_mask_of(sh))
        }
    } else if non_full {
        let sh = parametric_shapes(n, ps);
        (CullCategory::PartialShape, false, false, "partial"@, sh, full_mask_of(sh), empty_mask_of(sh))
    } else {
        (CullCategory::SolidOpaque, true, match hint {
            Some(h) => h,
            None => true,
        }, "solid"@, all_full_shapes(), 63, 0)
    }
}

/// The culling metadata of a block state string.
#[verifier::opaque]
pub open spec fn meta_spec(state: Seq<char>, quads: Option<Seq<ElementQuad>>, hint: Option<bool>) -> MetaView {
    let (name, ps) = parse_spec(state);
    let n = lower(name);
    let c = meta_core(state, quads, hint);
    MetaView {
        state_str: state,
        block_name: name,
        category: c.0,
        is_full_cube: c.1,
        is_opaque: c.2,
        is_air: class_air(state, n),
        is_fluid: class_fluid(state, n),
        cull_group: c.3,
        face_shapes: c.4,
        full_face_mask: c.5,
        empty_face_mask: c.6,
        props: ps,
        is_waterlogged: class_waterlogged(n, ps),
        has_baked_model: quads is Some,
    }
}

/// Each bit of the mask stands for its flag.
pub proof fn lemma_flag_bits(f: Seq<bool>, d: Direction)
    requires
        f.len() == 6,
    ensures
        crate::direction::mask_has(flag_bits(f), d) == f[dir_index(d)],
{
    let x0: u8 = if f[0] { 1u8 } else { 0u8 };
    let x1: u8 = if f[1] { 2u8 } else { 0u8 };
    let x2: u8 = if f[2] { 4u8 } else { 0u8 };
    let x3: u8 = if f[3] { 8u8 } else { 0u8 };
    let x4: u8 = if f[4] { 16u8 } else { 0u8 };
    let x5: u8 = if f[5] { 32u8 } else { 0u8 };
    assert((x0 == 0 || x0 == 1) && (x1 == 0 || x1 == 2) && (x2 == 0 || x2 == 4) && (x3 == 0 || x3 == 8)
        && (x4 == 0 || x4 == 16) && (x5 == 0 || x5 == 32) ==> {
        let b = x0 | x1 | x2 | x3 | x4 | x5;
        &&& (b & 1 != 0) == (x0 != 0)
        &&& (b & 2 != 0) == (x1 != 0)
        &&& (b & 4 != 0) == (x2 != 0)
        &&& (b & 8 != 0) == (x3 != 0)
        &&& (b & 16 != 0) == (x4 != 0)
        &&& (b & 32 != 0) == (x5 != 0)
    }) by (bit_vector);
}

/// Without model quads, a partial block's shapes are the parametric shapes of its
/// lower-case name and properties, and its masks are those of the shapes.
pub proof fn lemma_partial_shapes(state: Seq<char>, hint: Option<bool>)
    ensures
        ({
            let m = meta_spec(state, None, hint);
            m.category == CullCategory::PartialShape ==> {
                let sh = parametric_shapes(lower(m.block_name), m.props);
                &&& m.face_shapes == sh
                &&& m.full_face_mask == full_mask_of(sh)
                &&& m.empty_face_mask == empty_mask_of(sh)
            }
        }),
{
    reveal(meta_spec);
}

/// Mask bits of two exclusive flag lists share no bit.
proof fn lemma_flag_bits_disjoint(f: Seq<bool>, g: Seq<bool>)
    requires
        f.len() == 6,
        g.len() == 6,
        forall|i: int| 0 <= i < 6 ==> !(f[i] && g[i]),
    ensures
        flag_bits(f) & flag_bits(g) == 0,
{
    let x0: u8 = if f[0] { 1u8 } else { 0u8 };
    let x1: u8 = if f[1] { 2u8 } else { 0u8 };
    let x2: u8 = if f[2] { 4u8 } else { 0u8 };
    let x3: u8 = if f[3] { 8u8 } else { 0u8 };
    let x4: u8 = if f[4] { 16u8 } else { 0u8 };
    let x5: u8 = if f[5] { 32u8 } else { 0u8 };
    let y0: u8 = if g[0] { 1u8 } else { 0u8 };
    let y1: u8 = if g[1] { 2u8 } else { 0u8 };
    let y2: u8 = if g[2] { 4u8 } else { 0u8 };
    let y3: u8 = if g[3] { 8u8 } else { 0u8 };
    let y4: u8 = if g[4] { 16u8 } else { 0u8 };
    let y5: u8 = if g[5] { 32u8 } else { 0u8 };
    assert(!(f[0] && g[0]) && !(f[1] && g[1]) && !(f[2] && g[2]));
    assert(!(f[3] && g[3]) && !(f[4] && g[4]) && !(f[5] && g[5]));
    assert((x0 == 0 || x0 == 1) && (x1 == 0 || x1 == 2) && (x2 == 0 || x2 == 4) && (x3 == 0 || x3 == 8)
        && (x4 == 0 || x4 == 16) && (x5 == 0 || x5 == 32) && (y0 == 0 || y0 == 1) && (y1 == 0 || y1 == 2)
        && (y2 == 0 || y2 == 4) && (y3 == 0 || y3 == 8) && (y4 == 0 || y4 == 16) && (y5 == 0 || y5 == 32)
        && (x0 == 0 || y0 == 0) && (x1 == 0 || y1 == 0) && (x2 == 0 || y2 == 0) && (x3 == 0 || y3 == 0)
        && (x4 == 0 || y4 == 0) && (x5 == 0 || y5 == 0) ==> (x0 | x1 | x2 | x3 | x4 | x5) & (y0 | y1 | y2
        | y3 | y4 | y5) == 0) by (bit_vector);
}

/// What every computed metadata value satisfies: it keeps its state text and
/// whether it came from model quads; it is air exactly in the air category and
/// a fluid exactly in the fluid category; no direction is both full and empty;
/// its block name holds no `:`; and a solid block is full on every side.
pub proof fn lemma_meta_invariants(state: Seq<char>, quads: Option<Seq<ElementQuad>>, hint: Option<bool>)
    ensures
        ({
            let m = meta_spec(state, quads, hint);
            &&& m.state_str == state
            &&& m.has_baked_model == quads is Some
            &&& m.is_air <==> m.category == CullCategory::Air
            &&& m.is_fluid <==> m.category == CullCategory::Fluid
            &&& m.full_face_mask & m.empty_face_mask == 0
            &&& forall|k: int| 0 <= k < m.block_name.len() ==> #[trigger] m.block_name[k] != ':'
            &&& m.category == CullCategory::SolidOpaque ==> m.full_face_mask == 63 && m.face_shapes
                == all_full_shapes()
        }),
{
    reveal(meta_spec);
    let m = meta_spec(state, quads, hint);
    assert(0u8 & 63u8 == 0u8) by (bit_vector);
    assert(63u8 & 0u8 == 0u8) by (bit_vector);
    if m.category == CullCategory::PartialShape {
        let sh = m.face_shapes;
        let f = Seq::new(6, |i: int| any_full(sh[i]));
        let g = Seq::new(6, |i: int| !any_full(sh[i]) && sh[i].len() == 0);
        lemma_flag_bits_disjoint(f, g);
        assert(m.full_face_mask == flag_bits(f));
        assert(m.empty_face_mask == flag_bits(g));
    }
    let t = trim(state);
    reveal_strlit("air");
    if t.len() == 0 {
        assert(m.block_name == "air"@);
    } else {
        match (find(t, '['), rfind(t, ']')) {
            (Some(o), Some(c)) => {
                lemma_after_last_free(t.take(o), ':');
            },
            _ => {
                lemma_after_last_free(t, ':');
            },
        }
    }
}

// ---------------------------------------------------------------------------
// Executable computation
// ---------------------------------------------------------------------------

fn any_full_exec(rs: &Vec<Aabb2d>) -> (b: bool)
    ensures
        b == any_full(rs@),
{
    let mut i: usize = 0;
    while i < rs.len()
        invariant
            i <= rs.len(),
            forall|k: int| 0 <= k < i ==> !full_rect(rs@[k], EPS as int),
        decreases rs.len() - i,
    {
        if is_full_rect(&rs[i], EPS) {
            return true;
        }
        i += 1;
    }
    false
}

fn mask_from_flags(f: [bool; 6]) -> (m: DirMask)
    ensures
        m.bits == flag_bits(f@),
{
    let b: u8 = (if f[0] { 1u8 } else { 0u8 }) | (if f[1] { 2u8 } else { 0u8 }) | (if f[2] { 4u8 } else {
        0u8
    }) | (if f[3] { 8u8 } else { 0u8 }) | (if f[4] { 16u8 } else { 0u8 }) | (if f[5] { 32u8 } else { 0u8 });
    DirMask { bits: b }
}

fn masks_of(sh: &[Vec<Aabb2d>; 6]) -> (r: (DirMask, DirMask))
    ensures
        r.0.bits == full_mask_of(shapes_view(*sh)),
        r.1.bits == empty_mask_of(shapes_view(*sh)),
{
    let mut full: [bool; 6] = [false; 6];
    let mut empty: [bool; 6] = [false; 6];
    let mut i: usize = 0;
    while i < 6
        invariant
            i <= 6,
            forall|k: int| 0 <= k < i ==> full[k] == any_full(sh[k]@),
            forall|k: int| 0 <= k < i ==> empty[k] == (!any_full(sh[k]@) && sh[k]@.len() == 0),
        decreases 6 - i,
    {
        let f = any_full_exec(&sh[i]);
        full.set(i, f);
        empty.set(i, !f && sh[i].len() == 0);
        i += 1;
    }
    assert(full@ =~= Seq::new(6, |k: int| any_full(shapes_view(*sh)[k])));
    assert(empty@ =~= Seq::new(6, |k: int| !any_full(shapes_view(*sh)[k]) && shapes_view(*sh)[k].len() == 0));
    (mask_from_flags(full), mask_from_flags(empty))
}

fn empty_shapes() -> (a: [Vec<Aabb2d>; 6])
    ensures
        shapes_view(a) == no_shapes(),
{
    let a = [Vec::new(), Vec::new(), Vec::new(), Vec::new(), Vec::new(), Vec::new()];
    assert(shapes_view(a) =~= no_shapes());
    a
}

fn full_shapes() -> (a: [Vec<Aabb2d>; 6])
    ensures
        shapes_view(a) == all_full_shapes(),
{
    let mut a = [Vec::new(), Vec::new(), Vec::new(), Vec::new(), Vec::new(), Vec::new()];
    let mut i: usize = 0;
    while i < 6
        invariant
            i <= 6,
            forall|k: int| 0 <= k < i ==> a[k]@ == seq![full_face()],
        decreases 6 - i,
    {
        let mut v = Vec::new();
        v.push(full_face_rect());
        a.set(i, v);
        i += 1;
    }
    assert(shapes_view(a) =~= all_full_shapes());
    a
}

fn shapes_from_quads(quads: &[ElementQuad]) -> (a: [Vec<Aabb2d>; 6])
    ensures
        shapes_view(a) == quads_shapes(quads@),
{
    let mut a = [Vec::new(), Vec::new(), Vec::new(), Vec::new(), Vec::new(), Vec::new()];
    let mut i: usize = 0;
    while i < quads.len()
        invariant
            i <= quads.len(),
            forall|k: int| 0 <= k < 6 ==> a[k]@ == #[trigger] quads_shapes(quads@.take(i as int))[k],
        decreases quads.len() - i,
    {
        let (verts, dir) = quads[i];
        let d = dir.to_index();
        let ghost before = a;
        let ghost pre = quads@.take(i as int);
        let ghost post = quads@.take(i + 1);
        proof {
            assert(post.drop_last() =~= pre);
            assert(post.last() == quads@[i as int]);
        }
        match extract_quad_face_occlusion_rect(&verts, dir) {
            Some(rect) => {
                let mut v = a[d].clone();
                v.push(rect);
                a.set(d, v);
            },
            None => {},
        }
        proof {
            assert forall|k: int| 0 <= k < 6 implies a[k]@ == #[trigger] quads_shapes(post)[k] by {
                assert(before[k]@ == quads_shapes(pre)[k]);
            }
        }
        i += 1;
    }
    assert(quads@.take(quads.len() as int) =~= quads@);
    assert(shapes_view(a) =~= quads_shapes(quads@));
    a
}

/// Computes the culling metadata of a block state directly, without a cache
/// (see `meta_spec`).
///
/// `element_quads` are the model quads of the state when known (vertices in
/// fixed-point block coordinates); `is_opaque_hint` overrides the opacity of solid
/// blocks.
pub fn compute_block_cull_meta(
    state_str: &str,
    element_quads: Option<&[ElementQuad]>,
    is_opaque_hint: Option<bool>,
) -> (r: BlockCullMeta)
    requires
        parse_ok(state_str@),
    ensures
        r@ == meta_spec(state_str@, quads_view(element_quads), is_opaque_hint),
{
    proof {
        reveal(meta_spec);
    }
    let (name, props) = parse_block_name_and_props(state_str);
    let name_chars = chars_of(name.as_str());
    let nl = to_lower(name_chars.as_slice());
    let n = nl.as_slice();
    let ghost ps = pairs_view(props@);
    let ghost st = state_str@;

    let is_waterlogged = props_value_is(&props, "waterlogged", "true") || chars_eq_str(n, "seagrass")
        || chars_eq_str(n, "tall_seagrass") || chars_eq_str(n, "kelp") || chars_eq_str(n, "kelp_plant");
    let is_air = state_str.is_empty() || is_one_of(n, &AIR_NAMES) || ends_with_str(n, "air");
    let is_fluid = !is_air && (is_one_of(n, &FLUID_NAMES) || contains_str(n, "water") || contains_str(
        n,
        "lava",
    ));
    let is_leaves = !is_air && (is_one_of(n, &LEAVES_NAMES) || ends_with_str(n, "_leaves")
        || chars_eq_str(n, "mangrove_roots"));
    let is_pane = ends_with_str(n, "_pane") || ends_with_str(n, "_bars") || chars_eq_str(n, "glass_pane")
        || chars_eq_str(n, "iron_bars");
    let is_glass = !is_air && !is_pane && (is_one_of(n, &GLASS_NAMES) || contains_str(n, "stained_glass")
        || ends_with_str(n, "glass") || ends_with_str(n, "ice"));
    let is_non_occluding = !is_air && (is_one_of(n, &NON_OCCLUDING_NAMES) || ends_with_str(n, "_flower")
        || ends_with_str(n, "_sapling") || ends_with_str(n, "_torch") || ends_with_str(n, "_lantern")
        || ends_with_str(n, "_plant") || ends_with_str(n, "_bush"));
    let is_double_slab = ends_with_str(n, "_slab") && props_value_is(&props, "type", "double");
    let name_low = string_from(n);
    let is_non_full = !is_air && !is_double_slab && (is_pane || ends_with_str(n, "_slab")
        || ends_with_str(n, "_stairs") || is_non_full_or_partial_block(name_low.as_str()));

    let ghost core = meta_core(st, quads_view(element_quads), is_opaque_hint);
    let (category, is_full_cube, is_opaque, cull_group, face_shapes, full_face_mask, empty_face_mask) =
        if is_air {
        (CullCategory::Air, false, false, string_from(chars_of("air").as_slice()), empty_shapes(), DirMask::empty(), DirMask::all())
    } else if is_fluid {
        let g = if contains_str(n, "water") { "water" } else { "lava" };
        (CullCategory::Fluid, false, false, string_from(chars_of(g).as_slice()), empty_shapes(), DirMask::empty(), DirMask::all())
    } else if is_glass {
        let g = if contains_str(n, "glass") { string_from(chars_of("glass").as_slice()) } else { string_from(n) };
        (CullCategory::GlassTranslucent, true, false, g, empty_shapes(), DirMask::empty(), DirMask::all())
    } else if is_leaves {
        (CullCategory::CutoutLeaves, true, false, string_from(chars_of("leaves").as_slice()), empty_shapes(), DirMask::empty(), DirMask::all())
    } else if is_non_occluding {
        (CullCategory::NonOccluding, false, false, string_from(chars_of("non_occluding").as_slice()), empty_shapes(), DirMask::empty(), DirMask::all())
    } else if element_quads.is_some() {
        let quads = element_quads.unwrap();
        let full_cube = !is_non_full || is_double_slab;
        let opaque = (match is_opaque_hint {
            Some(h) => h,
            None => full_cube,
        }) && !is_non_full;
        if full_cube && opaque {
            (CullCategory::SolidOpaque, full_cube, opaque, string_from(chars_of("solid").as_slice()), full_shapes(), DirMask::all(), DirMask::empty())
        } else {
            let sh = shapes_from_quads(quads);
            let (fm, em) = masks_of(&sh);
            (CullCategory::PartialShape, full_cube, opaque, string_from(chars_of("partial").as_slice()), sh, fm, em)
        }
    } else if is_non_full {
        let sh = derive_parametric_face_shapes(name_low.as_str(), &props);
        let (fm, em) = masks_of(&sh);
        (CullCategory::PartialShape, false, false, string_from(chars_of("partial").as_slice()), sh, fm, em)
    } else {
        let opaque = match is_opaque_hint {
            Some(h) => h,
            None => true,
        };
        (CullCategory::SolidOpaque, true, opaque, string_from(chars_of("solid").as_slice()), full_shapes(), DirMask::all(), DirMask::empty())
    };
    let meta = BlockCullMeta {
        state_str: string_from(chars_of(state_str).as_slice()),
        block_name: name,
        category,
        is_full_cube,
        is_opaque,
        is_air,
        is_fluid,
        cull_group,
        face_shapes,
        full_face_mask,
        empty_face_mask,
        props,
        is_waterlogged,
        has_baked_model: element_quads.is_some(),
    };
    assert(meta@.face_shapes =~= shapes_view(meta.face_shapes));
    meta
}

} // verus!
