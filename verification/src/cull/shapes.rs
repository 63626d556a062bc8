//! Face occlusion shapes of known non-full blocks, derived from block state
//! properties when no model geometry is given.
use vstd::prelude::*;
use crate::constants::geometry::UNITS_PER_BLOCK;
use crate::cull::parse::{pairs_view, prop_value, props_get, props_value_is, PropsView};
use crate::cull::types::{full_face, full_face_rect};
use crate::geometry::{rect_spec, Aabb2d};
use crate::text::{chars_of, chars_eq_str, ends_with, ends_with_str, parse_u32, parse_u32_spec};

verus! {

/// Six shape lists in direction index order (east, west, up, down, south, north).
pub open spec fn six(
    e: Seq<Aabb2d>,
    w: Seq<Aabb2d>,
    u: Seq<Aabb2d>,
    d: Seq<Aabb2d>,
    s: Seq<Aabb2d>,
    n: Seq<Aabb2d>,
) -> Seq<Seq<Aabb2d>> {
    seq![e, w, u, d, s, n]
}

/// The property `k` is present with value `true`.
pub open spec fn prop_true(ps: PropsView, k: Seq<char>) -> bool {
    prop_value(ps, k) == Some("true"@)
}

/// `seq![r]` when `c` holds, else empty.
pub open spec fn when(c: bool, r: Seq<Aabb2d>) -> Seq<Aabb2d> {
    if c {
        r
    } else {
        seq![]
    }
}

/// Snow layer count: the `layers` property parsed as a number (1 when absent or
/// not a number), clamped to `1..=8`.
pub open spec fn snow_layers(ps: PropsView) -> u32 {
    let l: u32 = match prop_value(ps, "layers"@) {
        Some(v) => match parse_u32_spec(v) {
            Some(n) => n,
            None => 1,
        },
        None => 1,
    };
    if l < 1 {
        1
    } else if l > 8 {
        8
    } else {
        l
    }
}

/// Occlusion shapes of a known non-full block (lower-case name `n`, properties `ps`).
///
/// Slabs (bottom, top or double), snow layers (`layers/8` high), carpets (1/16
/// high), bars and panes (a 2/16 post and the connected sides), fences (a 4/16
/// post and two bars towards connected sides) and stairs (the full bottom or top);
/// any other block has no shapes.
pub open spec fn parametric_shapes(n: Seq<char>, ps: PropsView) -> Seq<Seq<Aabb2d>> {
    let u = UNITS_PER_BLOCK as int;
    let full = seq![full_face()];
    if ends_with(n, "_slab"@) {
        let ty = match prop_value(ps, "type"@) {
            Some(t) => t,
            None => "bottom"@,
        };
        if ty == "double"@ {
            six(full, full, full, full, full, full)
        } else if ty == "top"@ {
            let side = seq![rect_spec(0, u / 2, u, u)];
            six(side, side, full, seq![], side, side)
        } else {
            let side = seq![rect_spec(0, 0, u, u / 2)];
            six(side, side, seq![], full, side, side)
        }
    } else if n == "snow"@ || ends_with(n, ":snow"@) {
        let layers = snow_layers(ps);
        let side = seq![rect_spec(0, 0, u, layers * (u / 8))];
        six(side, side, when(layers == 8, full), full, side, side)
    } else if ends_with(n, "_carpet"@) || n == "carpet"@ {
        let side = seq![rect_spec(0, 0, u, u / 16)];
        six(side, side, seq![], full, side, side)
    } else if ends_with(n, "_bars"@) || ends_with(n, "_pane"@) || n == "iron_bars"@ || n == "glass_pane"@ {
        let post = seq![rect_spec(7 * u / 16, 7 * u / 16, 9 * u / 16, 9 * u / 16)];
        let side = seq![rect_spec(7 * u / 16, 0, 9 * u / 16, u)];
        six(
            when(prop_true(ps, "east"@), side),
            when(prop_true(ps, "west"@), side),
            post,
            post,
            when(prop_true(ps, "south"@), side),
            when(prop_true(ps, "north"@), side),
        )
    } else if ends_with(n, "_fence"@) || n == "fence"@ {
        let post = seq![rect_spec(6 * u / 16, 6 * u / 16, 10 * u / 16, 10 * u / 16)];
        let bars = seq![
            rect_spec(7 * u / 16, 6 * u / 16, 9 * u / 16, 9 * u / 16),
            rect_spec(7 * u / 16, 12 * u / 16, 9 * u / 16, 15 * u / 16),
        ];
        six(
            when(prop_true(ps, "east"@), bars),
            when(prop_true(ps, "west"@), bars),
            post,
            post,
            when(prop_true(ps, "south"@), bars),
            when(prop_true(ps, "north"@), bars),
        )
    } else if ends_with(n, "_stairs"@) {
        if prop_value(ps, "half"@) == Some("top"@) {
            six(seq![], seq![], full, seq![], seq![], seq![])
        } else {
            six(seq![], seq![], seq![], full, seq![], seq![])
        }
    } else {
        six(seq![], seq![], seq![], seq![], seq![], seq![])
    }
}

/// The six shape lists as a sequence, in direction index order.
pub open spec fn shapes_view(a: [Vec<Aabb2d>; 6]) -> Seq<Seq<Aabb2d>> {
    Seq::new(6, |i: int| a[i]@)
}

fn one(r: Aabb2d) -> (v: Vec<Aabb2d>)
    ensures
        v@ == seq![r],
{
    let mut v = Vec::new();
    v.push(r);
    v
}

fn one_if(c: bool, r: Aabb2d) -> (v: Vec<Aabb2d>)
    ensures
        v@ == when(c, seq![r]),
{
    let mut v = Vec::new();
    if c {
        v.push(r);
    }
    assert(v@ =~= when(c, seq![r]));
    v
}

fn two_if(c: bool, a: Aabb2d, b: Aabb2d) -> (v: Vec<Aabb2d>)
    ensures
        v@ == when(c, seq![a, b]),
{
    let mut v = Vec::new();
    if c {
        v.push(a);
        v.push(b);
    }
    assert(v@ =~= when(c, seq![a, b]));
    v
}

fn none() -> (v: Vec<Aabb2d>)
    ensures
        v@ == Seq::<Aabb2d>::empty(),
{
    Vec::new()
}

fn pack(
    e: Vec<Aabb2d>,
    w: Vec<Aabb2d>,
    u: Vec<Aabb2d>,
    d: Vec<Aabb2d>,
    s: Vec<Aabb2d>,
    n: Vec<Aabb2d>,
) -> (a: [Vec<Aabb2d>; 6])
    ensures
        shapes_view(a) == six(e@, w@, u@, d@, s@, n@),
{
    let a = [e, w, u, d, s, n];
    assert(shapes_view(a) =~= six(a[0]@, a[1]@, a[2]@, a[3]@, a[4]@, a[5]@));
    a
}

fn snow_layer_count(props: &Vec<(String, String)>) -> (l: u32)
    ensures
        l == snow_layers(pairs_view(props@)),
{
    let l: u32 = match props_get(props, "layers") {
        Some(v) => match parse_u32(chars_of(v.as_str()).as_slice()) {
            Some(n) => n,
            None => 1,
        },
        None => 1,
    };
    if l < 1 {
        1
    } else if l > 8 {
        8
    } else {
        l
    }
}

/// Derives the occlusion shapes of known partial blocks from their properties,
/// for blocks without model geometry (see `parametric_shapes`).
pub fn derive_parametric_face_shapes(name_low: &str, props: &Vec<(String, String)>) -> (r: [Vec<Aabb2d>;
    6])
    ensures
        shapes_view(r) == parametric_shapes(name_low@, pairs_view(props@)),
{
    let n = chars_of(name_low);
    let n = n.as_slice();
    let u = UNITS_PER_BLOCK;
    if ends_with_str(n, "_slab") {
        let ty = props_get(props, "type");
        let is_double = match ty {
            Some(t) => chars_eq_str(chars_of(t.as_str()).as_slice(), "double"),
            None => false,
        };
        let is_top = match ty {
            Some(t) => chars_eq_str(chars_of(t.as_str()).as_slice(), "top"),
            None => false,
        };
        proof {
            reveal_strlit("bottom");
            reveal_strlit("double");
            reveal_strlit("top");
            assert("bottom"@[0] != "double"@[0]);
            assert("bottom"@.len() != "top"@.len());
        }
        if is_double {
            return pack(
                one(full_face_rect()),
                one(full_face_rect()),
                one(full_face_rect()),
                one(full_face_rect()),
                one(full_face_rect()),
                one(full_face_rect()),
            );
        } else if is_top {
            let side = Aabb2d::from_min_max(0, u / 2, u, u);
            return pack(one(side), one(side), one(full_face_rect()), none(), one(side), one(side));
        } else {
            let side = Aabb2d::from_min_max(0, 0, u, u / 2);
            return pack(one(side), one(side), none(), one(full_face_rect()), one(side), one(side));
        }
    }
    if chars_eq_str(n, "snow") || ends_with_str(n, ":snow") {
        let layers = snow_layer_count(props);
        let h: i32 = (layers as i32) * (u / 8);
        let side = Aabb2d::from_min_max(0, 0, u, h);
        return pack(
            one(side),
            one(side),
            one_if(layers == 8, full_face_rect()),
            one(full_face_rect()),
            one(side),
            one(side),
        );
    }
    if ends_with_str(n, "_carpet") || chars_eq_str(n, "carpet") {
        let side = Aabb2d::from_min_max(0, 0, u, u / 16);
        return pack(one(side), one(side), none(), one(full_face_rect()), one(side), one(side));
    }
    if ends_with_str(n, "_bars") || ends_with_str(n, "_pane") || chars_eq_str(n, "iron_bars")
        || chars_eq_str(n, "glass_pane") {
        let post = Aabb2d::from_min_max(7 * u / 16, 7 * u / 16, 9 * u / 16, 9 * u / 16);
        let side = Aabb2d::from_min_max(7 * u / 16, 0, 9 * u / 16, u);
        return pack(
            one_if(props_value_is(props, "east", "true"), side),
            one_if(props_value_is(props, "west", "true"), side),
            one(post),
            one(post),
            one_if(props_value_is(props, "south", "true"), side),
            one_if(props_value_is(props, "north", "true"), side),
        );
    }
    if ends_with_str(n, "_fence") || chars_eq_str(n, "fence") {
        let post = Aabb2d::from_min_max(6 * u / 16, 6 * u / 16, 10 * u / 16, 10 * u / 16);
        let bot = Aabb2d::from_min_max(7 * u / 16, 6 * u / 16, 9 * u / 16, 9 * u / 16);
        let top = Aabb2d::from_min_max(7 * u / 16, 12 * u / 16, 9 * u / 16, 15 * u / 16);
        return pack(
            two_if(props_value_is(props, "east", "true"), bot, top),
            two_if(props_value_is(props, "west", "true"), bot, top),
            one(post),
            one(post),
            two_if(props_value_is(props, "south", "true"), bot, top),
            two_if(props_value_is(props, "north", "true"), bot, top),
        );
    }
    if ends_with_str(n, "_stairs") {
        if props_value_is(props, "half", "top") {
            return pack(none(), none(), one(full_face_rect()), none(), none(), none());
        } else {
            return pack(none(), none(), none(), one(full_face_rect()), none(), none());
        }
    }
    pack(none(), none(), none(), none(), none(), none())
}

} // verus!
