//! Boolean subtraction of 2D boxes and face-plane occlusion boxes.
use vstd::prelude::*;
use crate::constants::geometry::{EPS, UNITS_PER_BLOCK};
use crate::cull::types::{empty_rect, full_rect, is_empty_rect, is_full_rect};
use crate::direction::Direction;
use crate::geometry::{
    covers, max_i, min_i, rect_contains_rect, rect_intersects, rect_spec, rect_wf, Aabb2d,
};

verus! {

/// `seq![r]` when `c` holds, else the empty sequence.
pub open spec fn opt_rect(c: bool, r: Aabb2d) -> Seq<Aabb2d> {
    if c {
        seq![r]
    } else {
        seq![]
    }
}

/// The boxes that `subtract_rect(s, o)` returns.
///
/// When the boxes do not overlap the source stays whole; when the occluder covers
/// the source up to `EPS` nothing is left; otherwise the strips below, above, left
/// of and right of the overlap are kept, in that order, each only when it is
/// thicker than `EPS`.
pub open spec fn pieces_of(s: Aabb2d, o: Aabb2d) -> Seq<Aabb2d> {
    if !rect_intersects(s, o) {
        seq![s]
    } else if rect_contains_rect(o, s, EPS as int) {
        seq![]
    } else {
        let ix0 = max_i(s.min.x as int, o.min.x as int);
        let ix1 = min_i(s.max.x as int, o.max.x as int);
        let iy0 = max_i(s.min.y as int, o.min.y as int);
        let iy1 = min_i(s.max.y as int, o.max.y as int);
        opt_rect(iy0 - s.min.y > EPS, rect_spec(s.min.x as int, s.min.y as int, s.max.x as int, iy0))
            + opt_rect(s.max.y - iy1 > EPS, rect_spec(s.min.x as int, iy1, s.max.x as int, s.max.y as int))
            + opt_rect(ix0 - s.min.x > EPS, rect_spec(s.min.x as int, iy0, ix0, iy1))
            + opt_rect(s.max.x - ix1 > EPS, rect_spec(ix1, iy0, s.max.x as int, iy1))
    }
}

/// Every box of `ps` with `o` subtracted, the results concatenated in order.
pub open spec fn subtract_each(ps: Seq<Aabb2d>, o: Aabb2d) -> Seq<Aabb2d>
    decreases ps.len(),
{
    if ps.len() == 0 {
        seq![]
    } else {
        subtract_each(ps.drop_last(), o) + pieces_of(ps.last(), o)
    }
}

/// What is left of `s` after subtracting the occluders one after the other.
pub open spec fn remainder(s: Aabb2d, occs: Seq<Aabb2d>) -> Seq<Aabb2d>
    decreases occs.len(),
{
    if occs.len() == 0 {
        seq![s]
    } else {
        subtract_each(remainder(s, occs.drop_last()), occs.last())
    }
}

/// The occluders that are thicker than `EPS`, in order.
pub open spec fn thick(occs: Seq<Aabb2d>) -> Seq<Aabb2d>
    decreases occs.len(),
{
    if occs.len() == 0 {
        seq![]
    } else if empty_rect(occs.last(), EPS as int) {
        thick(occs.drop_last())
    } else {
        thick(occs.drop_last()).push(occs.last())
    }
}

/// What `is_face_completely_occluded(targets, occs)` answers.
pub open spec fn completely_occluded(targets: Seq<Aabb2d>, occs: Seq<Aabb2d>) -> bool {
    if targets.len() == 0 {
        true
    } else if occs.len() == 0 {
        false
    } else if exists|j: int| 0 <= j < occs.len() && full_rect(occs[j], EPS as int) {
        true
    } else {
        forall|i: int|
            0 <= i < targets.len() ==> empty_rect(targets[i], EPS as int) || remainder(
                targets[i],
                thick(occs),
            ).len() == 0
    }
}

/// Some box of the sequence covers the cell.
pub open spec fn some_covers(ps: Seq<Aabb2d>, x: int, y: int) -> bool {
    exists|i: int| 0 <= i < ps.len() && covers(ps[i], x, y)
}

/// The cell lies within `EPS` of an edge of the box.
pub open spec fn near_border(s: Aabb2d, x: int, y: int) -> bool {
    x < s.min.x + EPS || x >= s.max.x - EPS || y < s.min.y + EPS || y >= s.max.y - EPS
}

/// `v` lies within `EPS` of the edge coordinate `e`.
pub open spec fn near(v: int, e: int) -> bool {
    e - EPS <= v < e + EPS
}

/// `x` lies within `EPS` of a vertical edge of the source or of an occluder.
pub open spec fn near_x_edge(s: Aabb2d, occs: Seq<Aabb2d>, x: int) -> bool {
    near(x, s.min.x as int) || near(x, s.max.x as int) || exists|j: int|
        0 <= j < occs.len() && (near(x, occs[j].min.x as int) || near(x, occs[j].max.x as int))
}

/// `y` lies within `EPS` of a horizontal edge of the source or of an occluder.
pub open spec fn near_y_edge(s: Aabb2d, occs: Seq<Aabb2d>, y: int) -> bool {
    near(y, s.min.y as int) || near(y, s.max.y as int) || exists|j: int|
        0 <= j < occs.len() && (near(y, occs[j].min.y as int) || near(y, occs[j].max.y as int))
}

/// Every box of the sequence is well formed.
pub open spec fn all_wf(ps: Seq<Aabb2d>) -> bool {
    forall|i: int| 0 <= i < ps.len() ==> rect_wf(#[trigger] ps[i])
}

/// Every box of the sequence has positive width and height.
pub open spec fn all_pos(ps: Seq<Aabb2d>) -> bool {
    forall|i: int| 0 <= i < ps.len() ==> #[trigger] ps[i].min.x < ps[i].max.x && ps[i].min.y < ps[i].max.y
}

// ---------------------------------------------------------------------------
// Executable operations
// ---------------------------------------------------------------------------

/// Subtracts `occluder` from `source`, returning disjoint boxes covering
/// `source \ occluder` (see `pieces_of`).
///
/// If `occluder` does not overlap `source` the result is `[source]`; if it covers
/// `source` up to `EPS` the result is empty.
pub fn subtract_rect(source: &Aabb2d, occluder: &Aabb2d) -> (r: Vec<Aabb2d>)
    ensures
        r@ == pieces_of(*source, *occluder),
{
    if !source.intersects(occluder) {
        let mut v = Vec::new();
        v.push(*source);
        assert(v@ == seq![*source]);
        return v;
    }
    if occluder.contains_rect(source, EPS) {
        return Vec::new();
    }
    let mut result: Vec<Aabb2d> = Vec::new();
    let ix0 = if source.min.x >= occluder.min.x { source.min.x } else { occluder.min.x };
    let ix1 = if source.max.x <= occluder.max.x { source.max.x } else { occluder.max.x };
    let iy0 = if source.min.y >= occluder.min.y { source.min.y } else { occluder.min.y };
    let iy1 = if source.max.y <= occluder.max.y { source.max.y } else { occluder.max.y };
    let ghost s = *source;
    let ghost b = opt_rect(iy0 - s.min.y > EPS, rect_spec(s.min.x as int, s.min.y as int, s.max.x as int, iy0 as int));
    let ghost t = opt_rect(s.max.y - iy1 > EPS, rect_spec(s.min.x as int, iy1 as int, s.max.x as int, s.max.y as int));
    let ghost l = opt_rect(ix0 - s.min.x > EPS, rect_spec(s.min.x as int, iy0 as int, ix0 as int, iy1 as int));
    let ghost rr = opt_rect(s.max.x - ix1 > EPS, rect_spec(ix1 as int, iy0 as int, s.max.x as int, iy1 as int));
    if (iy0 as i64) - (source.min.y as i64) > EPS as i64 {
        result.push(Aabb2d::from_min_max(source.min.x, source.min.y, source.max.x, iy0));
    }
    assert(result@ == b);
    if (source.max.y as i64) - (iy1 as i64) > EPS as i64 {
        result.push(Aabb2d::from_min_max(source.min.x, iy1, source.max.x, source.max.y));
    }
    assert(result@ == b + t);
    if (ix0 as i64) - (source.min.x as i64) > EPS as i64 {
        result.push(Aabb2d::from_min_max(source.min.x, iy0, ix0, iy1));
    }
    assert(result@ == b + t + l);
    if (source.max.x as i64) - (ix1 as i64) > EPS as i64 {
        result.push(Aabb2d::from_min_max(ix1, iy0, source.max.x, iy1));
    }
    assert(result@ == b + t + l + rr);
    result
}

/// Subtracts `occ` from every box of `pieces`, concatenating the results.
fn subtract_from_all(pieces: &Vec<Aabb2d>, occ: &Aabb2d) -> (r: Vec<Aabb2d>)
    ensures
        r@ == subtract_each(pieces@, *occ),
{
    let mut next: Vec<Aabb2d> = Vec::new();
    let mut k: usize = 0;
    while k < pieces.len()
        invariant
            k <= pieces.len(),
            next@ == subtract_each(pieces@.take(k as int), *occ),
        decreases pieces.len() - k,
    {
        let mut sub = subtract_rect(&pieces[k], occ);
        next.append(&mut sub);
        k += 1;
        assert(pieces@.take(k as int).drop_last() == pieces@.take(k - 1));
    }
    assert(pieces@.take(pieces.len() as int) == pieces@);
    next
}

proof fn lemma_subtract_each_empty(o: Aabb2d)
    ensures
        subtract_each(seq![], o) == Seq::<Aabb2d>::empty(),
{
}

proof fn lemma_remainder_stays_empty(s: Aabb2d, occs: Seq<Aabb2d>, i: int)
    requires
        0 <= i <= occs.len(),
        remainder(s, occs.take(i)).len() == 0,
    ensures
        remainder(s, occs).len() == 0,
    decreases occs.len() - i,
{
    if i < occs.len() {
        assert(occs.take(i + 1).drop_last() == occs.take(i));
        assert(remainder(s, occs.take(i)) == Seq::<Aabb2d>::empty());
        lemma_subtract_each_empty(occs[i]);
        lemma_remainder_stays_empty(s, occs, i + 1);
    } else {
        assert(occs.take(i) == occs);
    }
}

/// Subtracts the occluders one after the other from `source` (see `remainder`).
pub fn subtract_rect_multi(source: &Aabb2d, occluders: &[Aabb2d]) -> (r: Vec<Aabb2d>)
    ensures
        r@ == remainder(*source, occluders@),
{
    let mut current: Vec<Aabb2d> = Vec::new();
    current.push(*source);
    assert(occluders@.take(0) == Seq::<Aabb2d>::empty());
    assert(current@ == remainder(*source, occluders@.take(0)));
    let mut i: usize = 0;
    while i < occluders.len() && current.len() > 0
        invariant
            i <= occluders.len(),
            current@ == remainder(*source, occluders@.take(i as int)),
        decreases occluders.len() - i,
    {
        current = subtract_from_all(&current, &occluders[i]);
        i += 1;
        assert(occluders@.take(i as int).drop_last() == occluders@.take(i - 1));
    }
    proof {
        if i < occluders.len() {
            lemma_remainder_stays_empty(*source, occluders@, i as int);
        } else {
            assert(occluders@.take(i as int) == occluders@);
        }
    }
    current
}

/// Whether subtracting the occluders leaves nothing of `source`.
pub fn is_fully_occluded(source: &Aabb2d, occluders: &[Aabb2d]) -> (b: bool)
    ensures
        b == (remainder(*source, occluders@).len() == 0),
{
    let remaining = subtract_rect_multi(source, occluders);
    remaining.len() == 0
}

fn thick_occluders(occs: &[Aabb2d]) -> (r: Vec<Aabb2d>)
    ensures
        r@ == thick(occs@),
{
    let mut r: Vec<Aabb2d> = Vec::new();
    let mut i: usize = 0;
    while i < occs.len()
        invariant
            i <= occs.len(),
            r@ == thick(occs@.take(i as int)),
        decreases occs.len() - i,
    {
        if !is_empty_rect(&occs[i], EPS) {
            r.push(occs[i]);
        }
        i += 1;
        assert(occs@.take(i as int).drop_last() == occs@.take(i - 1));
    }
    assert(occs@.take(occs.len() as int) == occs@);
    r
}

/// Checks whether every box of `target_rects` is covered by `neighbor_occluders`
/// (see `completely_occluded`): `true` means the face is hidden and culled.
///
/// Occluders and targets at most `EPS` thick are ignored in the subtraction, and an
/// occluder covering the whole face hides everything.
pub fn is_face_completely_occluded(target_rects: &[Aabb2d], neighbor_occluders: &[Aabb2d]) -> (b:
    bool)
    ensures
        b == completely_occluded(target_rects@, neighbor_occluders@),
{
    if target_rects.len() == 0 {
        return true;
    }
    if neighbor_occluders.len() == 0 {
        return false;
    }
    let mut j: usize = 0;
    while j < neighbor_occluders.len()
        invariant
            j <= neighbor_occluders.len(),
            forall|k: int| 0 <= k < j ==> !full_rect(neighbor_occluders@[k], EPS as int),
        decreases neighbor_occluders.len() - j,
    {
        if is_full_rect(&neighbor_occluders[j], EPS) {
            return true;
        }
        j += 1;
    }
    let thick_occs = thick_occluders(neighbor_occluders);
    let mut i: usize = 0;
    while i < target_rects.len()
        invariant
            i <= target_rects.len(),
            thick_occs@ == thick(neighbor_occluders@),
            target_rects@.len() > 0,
            neighbor_occluders@.len() > 0,
            forall|k: int| 0 <= k < neighbor_occluders@.len() ==> !full_rect(neighbor_occluders@[k], EPS as int),
            forall|k: int|
                0 <= k < i ==> empty_rect(target_rects@[k], EPS as int) || remainder(
                    target_rects@[k],
                    thick(neighbor_occluders@),
                ).len() == 0,
        decreases target_rects.len() - i,
    {
        if !is_empty_rect(&target_rects[i], EPS) {
            let pieces = subtract_rect_multi(&target_rects[i], thick_occs.as_slice());
            if pieces.len() != 0 {
                return false;
            }
        }
        i += 1;
    }
    true
}

// ---------------------------------------------------------------------------
// Face-plane occlusion boxes
// ---------------------------------------------------------------------------

/// `|v - e| <= EPS`.
pub open spec fn on_plane(v: int, e: int) -> bool {
    -EPS <= v - e <= EPS
}

/// The occlusion box of a quad whose bounding box is `[lo, hi]`, on the outer
/// plane of the block towards `dir`: the projection onto that plane when the quad
/// lies flat on it and is thicker than `EPS`, else `None`.
pub open spec fn plane_rect(lo: [i32; 3], hi: [i32; 3], dir: Direction) -> Option<Aabb2d> {
    let (on, r) = match dir {
        Direction::East => (
            on_plane(hi[0] as int, UNITS_PER_BLOCK as int) && on_plane(lo[0] as int, UNITS_PER_BLOCK as int),
            rect_spec(lo[2] as int, lo[1] as int, hi[2] as int, hi[1] as int),
        ),
        Direction::West => (
            on_plane(lo[0] as int, 0) && on_plane(hi[0] as int, 0),
            rect_spec(lo[2] as int, lo[1] as int, hi[2] as int, hi[1] as int),
        ),
        Direction::Up => (
            on_plane(hi[1] as int, UNITS_PER_BLOCK as int) && on_plane(lo[1] as int, UNITS_PER_BLOCK as int),
            rect_spec(lo[0] as int, lo[2] as int, hi[0] as int, hi[2] as int),
        ),
        Direction::Down => (
            on_plane(lo[1] as int, 0) && on_plane(hi[1] as int, 0),
            rect_spec(lo[0] as int, lo[2] as int, hi[0] as int, hi[2] as int),
        ),
        Direction::South => (
            on_plane(hi[2] as int, UNITS_PER_BLOCK as int) && on_plane(lo[2] as int, UNITS_PER_BLOCK as int),
            rect_spec(lo[0] as int, lo[1] as int, hi[0] as int, hi[1] as int),
        ),
        Direction::North => (
            on_plane(lo[2] as int, 0) && on_plane(hi[2] as int, 0),
            rect_spec(lo[0] as int, lo[1] as int, hi[0] as int, hi[1] as int),
        ),
    };
    if on && !empty_rect(r, EPS as int) {
        Some(r)
    } else {
        None
    }
}

/// Smallest of the four values.
pub open spec fn min4(a: int, b: int, c: int, d: int) -> int {
    min_i(min_i(min_i(a, b), c), d)
}

/// Largest of the four values.
pub open spec fn max4(a: int, b: int, c: int, d: int) -> int {
    max_i(max_i(max_i(a, b), c), d)
}

/// Component-wise minimum of the four vertices.
pub open spec fn quad_lo(v: [[i32; 3]; 4]) -> [i32; 3] {
    [
        min4(v[0][0] as int, v[1][0] as int, v[2][0] as int, v[3][0] as int) as i32,
        min4(v[0][1] as int, v[1][1] as int, v[2][1] as int, v[3][1] as int) as i32,
        min4(v[0][2] as int, v[1][2] as int, v[2][2] as int, v[3][2] as int) as i32,
    ]
}

/// Component-wise maximum of the four vertices.
pub open spec fn quad_hi(v: [[i32; 3]; 4]) -> [i32; 3] {
    [
        max4(v[0][0] as int, v[1][0] as int, v[2][0] as int, v[3][0] as int) as i32,
        max4(v[0][1] as int, v[1][1] as int, v[2][1] as int, v[3][1] as int) as i32,
        max4(v[0][2] as int, v[1][2] as int, v[2][2] as int, v[3][2] as int) as i32,
    ]
}

fn near_units(v: i32, e: i32) -> (b: bool)
    ensures
        b == on_plane(v as int, e as int),
{
    let d = (v as i64) - (e as i64);
    -(EPS as i64) <= d && d <= EPS as i64
}

fn plane_rect_exec(lo: [i32; 3], hi: [i32; 3], direction: Direction) -> (r: Option<Aabb2d>)
    ensures
        r == plane_rect(lo, hi, direction),
{
    let u = UNITS_PER_BLOCK;
    let (on, rect) = match direction {
        Direction::East => (
            near_units(hi[0], u) && near_units(lo[0], u),
            Aabb2d::from_min_max(lo[2], lo[1], hi[2], hi[1]),
        ),
        Direction::West => (
            near_units(lo[0], 0) && near_units(hi[0], 0),
            Aabb2d::from_min_max(lo[2], lo[1], hi[2], hi[1]),
        ),
        Direction::Up => (
            near_units(hi[1], u) && near_units(lo[1], u),
            Aabb2d::from_min_max(lo[0], lo[2], hi[0], hi[2]),
        ),
        Direction::Down => (
            near_units(lo[1], 0) && near_units(hi[1], 0),
            Aabb2d::from_min_max(lo[0], lo[2], hi[0], hi[2]),
        ),
        Direction::South => (
            near_units(hi[2], u) && near_units(lo[2], u),
            Aabb2d::from_min_max(lo[0], lo[1], hi[0], hi[1]),
        ),
        Direction::North => (
            near_units(lo[2], 0) && near_units(hi[2], 0),
            Aabb2d::from_min_max(lo[0], lo[1], hi[0], hi[1]),
        ),
    };
    if on && !is_empty_rect(&rect, EPS) {
        Some(rect)
    } else {
        None
    }
}

fn min_of(a: i32, b: i32) -> (r: i32)
    ensures
        r == min_i(a as int, b as int),
{
    if a <= b { a } else { b }
}

fn max_of(a: i32, b: i32) -> (r: i32)
    ensures
        r == max_i(a as int, b as int),
{
    if a >= b { a } else { b }
}

/// The occlusion box, on the outer plane towards `direction`, of one quad face
/// given by its four vertices in fixed-point block coordinates (see `plane_rect`).
pub fn extract_quad_face_occlusion_rect(vertices: &[[i32; 3]; 4], direction: Direction) -> (r: Option<
    Aabb2d,
>)
    ensures
        r == plane_rect(quad_lo(*vertices), quad_hi(*vertices), direction),
{
    let v = vertices;
    let mut lo: [i32; 3] = [0, 0, 0];
    let mut hi: [i32; 3] = [0, 0, 0];
    let mut a: usize = 0;
    while a < 3
        invariant
            a <= 3,
            forall|k: int| 0 <= k < a ==> lo[k] == quad_lo(*v)[k] && hi[k] == quad_hi(*v)[k],
        decreases 3 - a,
    {
        lo[a] = min_of(min_of(min_of(v[0][a], v[1][a]), v[2][a]), v[3][a]);
        hi[a] = max_of(max_of(max_of(v[0][a], v[1][a]), v[2][a]), v[3][a]);
        a += 1;
    }
    assert(lo == quad_lo(*v));
    assert(hi == quad_hi(*v));
    plane_rect_exec(lo, hi, direction)
}

/// Occlusion boxes of element boxes `[min, max]` on the outer plane towards `dir`,
/// in order, without the ones at most `EPS` thick.
pub open spec fn boxes_rects(boxes: Seq<([i32; 3], [i32; 3])>, dir: Direction) -> Seq<Aabb2d>
    decreases boxes.len(),
{
    if boxes.len() == 0 {
        seq![]
    } else {
        let rest = boxes_rects(boxes.drop_last(), dir);
        match box_face_rect(boxes.last().0, boxes.last().1, dir) {
            Some(r) => if empty_rect(r, EPS as int) {
                rest
            } else {
                rest.push(r)
            },
            None => rest,
        }
    }
}

/// The face of the element box `[mins, maxs]` on the outer plane towards `dir`, when
/// the box touches that plane (within `EPS`).
pub open spec fn box_face_rect(mins: [i32; 3], maxs: [i32; 3], dir: Direction) -> Option<Aabb2d> {
    match dir {
        Direction::East => if on_plane(maxs[0] as int, UNITS_PER_BLOCK as int) {
            Some(rect_spec(mins[2] as int, mins[1] as int, maxs[2] as int, maxs[1] as int))
        } else {
            None
        },
        Direction::West => if on_plane(mins[0] as int, 0) {
            Some(rect_spec(mins[2] as int, mins[1] as int, maxs[2] as int, maxs[1] as int))
        } else {
            None
        },
        Direction::Up => if on_plane(maxs[1] as int, UNITS_PER_BLOCK as int) {
            Some(rect_spec(mins[0] as int, mins[2] as int, maxs[0] as int, maxs[2] as int))
        } else {
            None
        },
        Direction::Down => if on_plane(mins[1] as int, 0) {
            Some(rect_spec(mins[0] as int, mins[2] as int, maxs[0] as int, maxs[2] as int))
        } else {
            None
        },
        Direction::South => if on_plane(maxs[2] as int, UNITS_PER_BLOCK as int) {
            Some(rect_spec(mins[0] as int, mins[1] as int, maxs[0] as int, maxs[1] as int))
        } else {
            None
        },
        Direction::North => if on_plane(mins[2] as int, 0) {
            Some(rect_spec(mins[0] as int, mins[1] as int, maxs[0] as int, maxs[1] as int))
        } else {
            None
        },
    }
}

fn box_face_rect_exec(mins: [i32; 3], maxs: [i32; 3], direction: Direction) -> (r: Option<Aabb2d>)
    ensures
        r == box_face_rect(mins, maxs, direction),
{
    let u = UNITS_PER_BLOCK;
    match direction {
        Direction::East => if near_units(maxs[0], u) {
            Some(Aabb2d::from_min_max(mins[2], mins[1], maxs[2], maxs[1]))
        } else {
            None
        },
        Direction::West => if near_units(mins[0], 0) {
            Some(Aabb2d::from_min_max(mins[2], mins[1], maxs[2], maxs[1]))
        } else {
            None
        },
        Direction::Up => if near_units(maxs[1], u) {
            Some(Aabb2d::from_min_max(mins[0], mins[2], maxs[0], maxs[2]))
        } else {
            None
        },
        Direction::Down => if near_units(mins[1], 0) {
            Some(Aabb2d::from_min_max(mins[0], mins[2], maxs[0], maxs[2]))
        } else {
            None
        },
        Direction::South => if near_units(maxs[2], u) {
            Some(Aabb2d::from_min_max(mins[0], mins[1], maxs[0], maxs[1]))
        } else {
            None
        },
        Direction::North => if near_units(mins[2], 0) {
            Some(Aabb2d::from_min_max(mins[0], mins[1], maxs[0], maxs[1]))
        } else {
            None
        },
    }
}

/// Occlusion boxes on the outer plane towards `direction` of element boxes
/// `(min, max)` in fixed-point block coordinates (see `boxes_rects`).
pub fn extract_face_occlusion_from_boxes(elements_boxes: &[([i32; 3], [i32; 3])], direction: Direction) -> (r:
    Vec<Aabb2d>)
    ensures
        r@ == boxes_rects(elements_boxes@, direction),
{
    let mut rects: Vec<Aabb2d> = Vec::new();
    let mut i: usize = 0;
    while i < elements_boxes.len()
        invariant
            i <= elements_boxes.len(),
            rects@ == boxes_rects(elements_boxes@.take(i as int), direction),
        decreases elements_boxes.len() - i,
    {
        let (mins, maxs) = elements_boxes[i];
        match box_face_rect_exec(mins, maxs, direction) {
            Some(r) => {
                if !is_empty_rect(&r, EPS) {
                    rects.push(r);
                }
            },
            None => {},
        }
        i += 1;
        assert(elements_boxes@.take(i as int).drop_last() == elements_boxes@.take(i - 1));
    }
    assert(elements_boxes@.take(elements_boxes.len() as int) == elements_boxes@);
    rects
}

} // verus!
