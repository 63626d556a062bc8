//! Evaluation of face-culling reference cases: a block state, an optional
//! neighbour state, a direction and culling modes, given as text.
use vstd::prelude::*;
use crate::cull::classify::meta_spec;
use crate::cull::engine::{render_spec, FaceCuller};
use crate::cull::parse::parse_ok;
use crate::cull::types::{GlassCullMode, LeavesCullMode, MetaView};
use crate::direction::{parse_loose_spec, Direction};
use crate::text::{str_eq, to_uppercase, upper_case};

verus! {

/// The leaves mode named by an upper-case text: `FANCY`, `FAST`, `NONE`, and
/// single-face for anything else.
pub open spec fn leaves_mode_named(u: Seq<char>) -> LeavesCullMode {
    if u == "FANCY"@ {
        LeavesCullMode::Fancy
    } else if u == "FAST"@ {
        LeavesCullMode::Fast
    } else if u == "NONE"@ {
        LeavesCullMode::NoCull
    } else {
        LeavesCullMode::SingleFace
    }
}

/// The glass mode named by an upper-case text: `SAME_BLOCK`, `NONE`, and group
/// culling for anything else.
pub open spec fn glass_mode_named(u: Seq<char>) -> GlassCullMode {
    if u == "SAME_BLOCK"@ {
        GlassCullMode::SameBlock
    } else if u == "NONE"@ {
        GlassCullMode::NoCull
    } else {
        GlassCullMode::Group
    }
}

/// The leaves mode named by an already upper-cased text.
pub fn leaves_mode_from_upper(u: &str) -> (m: LeavesCullMode)
    ensures
        m == leaves_mode_named(u@),
{
    if str_eq(u, "FANCY") {
        LeavesCullMode::Fancy
    } else if str_eq(u, "FAST") {
        LeavesCullMode::Fast
    } else if str_eq(u, "NONE") {
        LeavesCullMode::NoCull
    } else {
        LeavesCullMode::SingleFace
    }
}

/// The glass mode named by an already upper-cased text.
pub fn glass_mode_from_upper(u: &str) -> (m: GlassCullMode)
    ensures
        m == glass_mode_named(u@),
{
    if str_eq(u, "SAME_BLOCK") {
        GlassCullMode::SameBlock
    } else if str_eq(u, "NONE") {
        GlassCullMode::NoCull
    } else {
        GlassCullMode::Group
    }
}

/// The leaves mode named by a text in any case.
pub fn parse_leaves_mode(s: &str) -> (m: LeavesCullMode)
    ensures
        m == leaves_mode_named(upper_case(s@)),
{
    let u = to_uppercase(s);
    leaves_mode_from_upper(u.as_str())
}

/// The glass mode named by a text in any case.
pub fn parse_glass_mode(s: &str) -> (m: GlassCullMode)
    ensures
        m == glass_mode_named(upper_case(s@)),
{
    let u = to_uppercase(s);
    glass_mode_from_upper(u.as_str())
}

/// The metadata of an optional state text.
pub open spec fn opt_meta(s: Option<&str>) -> Option<MetaView> {
    match s {
        Some(t) => Some(meta_spec(t@, None, None)),
        None => None,
    }
}

/// The direction named by a text, East when it names none.
pub open spec fn case_direction(s: Seq<char>) -> Direction {
    match parse_loose_spec(s) {
        Some(d) => d,
        None => Direction::East,
    }
}

/// Whether the face of `state` towards the direction named by `direction` is
/// rendered next to `neighbor` under the given modes, with a fresh culler.
pub fn evaluate_cull_case(
    state: &str,
    neighbor: Option<&str>,
    direction: &str,
    leaves: LeavesCullMode,
    glass: GlassCullMode,
    pos_a: Option<(i32, i32, i32)>,
    pos_b: Option<(i32, i32, i32)>,
) -> (r: bool)
    requires
        parse_ok(state@),
        neighbor matches Some(n) ==> parse_ok(n@),
    ensures
        r == render_spec(
            leaves,
            glass,
            meta_spec(state@, None, None),
            opt_meta(neighbor),
            case_direction(direction@),
            None,
            pos_a,
            pos_b,
        ),
{
    let mut culler = FaceCuller::new(leaves, glass);
    let state_meta = culler.get_meta(state, None, None);
    let neighbor_meta = match neighbor {
        Some(n) => Some(culler.get_meta(n, None, None)),
        None => None,
    };
    let dir = match Direction::parse_loose(direction) {
        Some(d) => d,
        None => Direction::East,
    };
    let nb = match &neighbor_meta {
        Some(m) => Some(&**m),
        None => None,
    };
    culler.should_render_face(&state_meta, nb, dir, None, pos_a, pos_b)
}

} // verus!
