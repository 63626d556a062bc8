//! Face-skipping rules between touching blocks of special kinds.
use vstd::prelude::*;
use crate::cull::types::{BlockCullMeta, CullCategory, GlassCullMode, LeavesCullMode, MetaView};
use crate::direction::Direction;
use crate::text::{starts_with, str_eq, str_starts_with};

verus! {

/// Lexicographic order of block positions: `a` comes after `b`.
pub open spec fn pos_after(a: (i32, i32, i32), b: (i32, i32, i32)) -> bool {
    a.0 > b.0 || (a.0 == b.0 && (a.1 > b.1 || (a.1 == b.1 && a.2 > b.2)))
}

/// Whether the face of block `a` towards its neighbour `b` in direction `dir` is
/// skipped by the special rules (glass, leaves, fluids, mangrove roots, powder snow).
pub open spec fn skip_spec(
    a: MetaView,
    b: MetaView,
    dir: Direction,
    leaves: LeavesCullMode,
    glass: GlassCullMode,
    pa: Option<(i32, i32, i32)>,
    pb: Option<(i32, i32, i32)>,
) -> bool {
    if a.is_air || b.is_air {
        false
    } else if a.category == CullCategory::GlassTranslucent && b.category == CullCategory::GlassTranslucent {
        match glass {
            GlassCullMode::Group => a.cull_group == b.cull_group || (starts_with(a.cull_group, "glass"@)
                && starts_with(b.cull_group, "glass"@)),
            GlassCullMode::SameBlock => a.block_name == b.block_name,
            GlassCullMode::NoCull => false,
        }
    } else if a.category == CullCategory::CutoutLeaves && b.category == CullCategory::CutoutLeaves {
        match leaves {
            LeavesCullMode::Fast => true,
            LeavesCullMode::SingleFace => match (pa, pb) {
                (Some(x), Some(y)) => pos_after(x, y),
                _ => dir == Direction::East || dir == Direction::Up || dir == Direction::South,
            },
            _ => false,
        }
    } else if a.category == CullCategory::Fluid {
        if b.category == CullCategory::Fluid {
            a.cull_group == b.cull_group
        } else {
            a.cull_group == "water"@ && b.is_waterlogged
        }
    } else if a.block_name == "mangrove_roots"@ && b.block_name == "mangrove_roots"@ && (dir
        == Direction::Up || dir == Direction::Down) {
        true
    } else {
        a.block_name == "powder_snow"@ && b.block_name == "powder_snow"@
    }
}

fn pos_after_exec(a: (i32, i32, i32), b: (i32, i32, i32)) -> (r: bool)
    ensures
        r == pos_after(a, b),
{
    a.0 > b.0 || (a.0 == b.0 && (a.1 > b.1 || (a.1 == b.1 && a.2 > b.2)))
}

/// Custom face-skipping rules for specialised blocks, after the game's
/// `skipRendering` overrides. Returns `true` when the face is skipped (see `skip_spec`).
pub fn should_skip_rendering(
    state_meta: &BlockCullMeta,
    neighbor_meta: &BlockCullMeta,
    direction: Direction,
    leaves_mode: LeavesCullMode,
    glass_mode: GlassCullMode,
    block_pos: Option<(i32, i32, i32)>,
    neighbor_pos: Option<(i32, i32, i32)>,
) -> (r: bool)
    ensures
        r == skip_spec(state_meta@, neighbor_meta@, direction, leaves_mode, glass_mode, block_pos, neighbor_pos),
{
    if state_meta.is_air || neighbor_meta.is_air {
        return false;
    }
    let cat_a = state_meta.category;
    let cat_b = neighbor_meta.category;
    let group_a = state_meta.cull_group.as_str();
    let group_b = neighbor_meta.cull_group.as_str();
    let name_a = state_meta.block_name.as_str();
    let name_b = neighbor_meta.block_name.as_str();

    if cat_a == CullCategory::GlassTranslucent && cat_b == CullCategory::GlassTranslucent {
        match glass_mode {
            GlassCullMode::Group => {
                if str_eq(group_a, group_b) {
                    return true;
                }
                if str_starts_with(group_a, "glass") && str_starts_with(group_b, "glass") {
                    return true;
                }
            },
            GlassCullMode::SameBlock => {
                if str_eq(name_a, name_b) {
                    return true;
                }
            },
            GlassCullMode::NoCull => {},
        }
        return false;
    }
    if cat_a == CullCategory::CutoutLeaves && cat_b == CullCategory::CutoutLeaves {
        match leaves_mode {
            LeavesCullMode::Fast => {
                return true;
            },
            LeavesCullMode::SingleFace => {
                match (block_pos, neighbor_pos) {
                    (Some(pos_a), Some(pos_b)) => {
                        return pos_after_exec(pos_a, pos_b);
                    },
                    _ => {
                        return direction == Direction::East || direction == Direction::Up || direction
                            == Direction::South;
                    },
                }
            },
            _ => {
                return false;
            },
        }
    }
    if cat_a == CullCategory::Fluid {
        if cat_b == CullCategory::Fluid {
            if str_eq(group_a, group_b) {
                return true;
            }
        } else if str_eq(group_a, "water") && neighbor_meta.is_waterlogged {
            return true;
        }
        return false;
    }
    if str_eq(name_a, "mangrove_roots") && str_eq(name_b, "mangrove_roots") {
        if direction == Direction::Up || direction == Direction::Down {
            return true;
        }
    }
    if str_eq(name_a, "powder_snow") && str_eq(name_b, "powder_snow") {
        return true;
    }
    false
}

} // verus!
