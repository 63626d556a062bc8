//! Geometric laws of box subtraction and face occlusion.
use vstd::prelude::*;
use crate::constants::geometry::EPS;
use crate::cull::rect_ops::{
    all_pos, all_wf, completely_occluded, thick, near, near_border, near_x_edge, near_y_edge, opt_rect, pieces_of, remainder, some_covers,
    subtract_each,
};
use crate::cull::types::empty_rect;
use crate::geometry::{covers, max_i, min_i, rect_contains_rect, rect_intersects, rect_spec, rect_wf, Aabb2d};

verus! {

spec fn strip_b(s: Aabb2d, o: Aabb2d) -> Aabb2d {
    rect_spec(s.min.x as int, s.min.y as int, s.max.x as int, max_i(s.min.y as int, o.min.y as int))
}

spec fn strip_t(s: Aabb2d, o: Aabb2d) -> Aabb2d {
    rect_spec(s.min.x as int, min_i(s.max.y as int, o.max.y as int), s.max.x as int, s.max.y as int)
}

spec fn strip_l(s: Aabb2d, o: Aabb2d) -> Aabb2d {
    rect_spec(
        s.min.x as int,
        max_i(s.min.y as int, o.min.y as int),
        max_i(s.min.x as int, o.min.x as int),
        min_i(s.max.y as int, o.max.y as int),
    )
}

spec fn strip_r(s: Aabb2d, o: Aabb2d) -> Aabb2d {
    rect_spec(
        min_i(s.max.x as int, o.max.x as int),
        max_i(s.min.y as int, o.min.y as int),
        s.max.x as int,
        min_i(s.max.y as int, o.max.y as int),
    )
}

spec fn keep_b(s: Aabb2d, o: Aabb2d) -> bool {
    max_i(s.min.y as int, o.min.y as int) - s.min.y > EPS
}

spec fn keep_t(s: Aabb2d, o: Aabb2d) -> bool {
    s.max.y - min_i(s.max.y as int, o.max.y as int) > EPS
}

spec fn keep_l(s: Aabb2d, o: Aabb2d) -> bool {
    max_i(s.min.x as int, o.min.x as int) - s.min.x > EPS
}

spec fn keep_r(s: Aabb2d, o: Aabb2d) -> bool {
    s.max.x - min_i(s.max.x as int, o.max.x as int) > EPS
}

/// In the overlapping case the pieces are the kept strips, each at most once, and
/// a cell lies in some piece exactly when it lies in a kept strip.
proof fn lemma_pieces_strips(s: Aabb2d, o: Aabb2d, x: int, y: int)
    requires
        rect_intersects(s, o),
        !rect_contains_rect(o, s, EPS as int),
    ensures
        forall|i: int|
            0 <= i < pieces_of(s, o).len() ==> {
                let p = #[trigger] pieces_of(s, o)[i];
                (p == strip_b(s, o) && keep_b(s, o)) || (p == strip_t(s, o) && keep_t(s, o)) || (p
                    == strip_l(s, o) && keep_l(s, o)) || (p == strip_r(s, o) && keep_r(s, o))
            },
        rect_wf(s) && rect_wf(o) ==> forall|i: int, j: int|
            0 <= i < pieces_of(s, o).len() && 0 <= j < pieces_of(s, o).len() && i != j ==> #[trigger] pieces_of(s, o)[i]
                != #[trigger] pieces_of(s, o)[j],
        (keep_b(s, o) && covers(strip_b(s, o), x, y)) || (keep_t(s, o) && covers(strip_t(s, o), x, y))
            || (keep_l(s, o) && covers(strip_l(s, o), x, y)) || (keep_r(s, o) && covers(
            strip_r(s, o),
            x,
            y,
        )) ==> some_covers(pieces_of(s, o), x, y),
{
    let b = strip_b(s, o);
    let t = strip_t(s, o);
    let l = strip_l(s, o);
    let r = strip_r(s, o);
    let ps = pieces_of(s, o);
    assert(ps == opt_rect(keep_b(s, o), b) + opt_rect(keep_t(s, o), t) + opt_rect(keep_l(s, o), l)
        + opt_rect(keep_r(s, o), r));
    // kept strips of well-formed boxes are pairwise different boxes
    if rect_wf(s) && rect_wf(o) {
        assert(keep_b(s, o) && keep_t(s, o) ==> b != t);
        assert(keep_b(s, o) && keep_l(s, o) ==> b != l);
        assert(keep_b(s, o) && keep_r(s, o) ==> b != r);
        assert(keep_t(s, o) && keep_l(s, o) ==> t != l);
        assert(keep_t(s, o) && keep_r(s, o) ==> t != r);
        assert(keep_l(s, o) && keep_r(s, o) ==> l != r);
    }
    let kb = keep_b(s, o);
    let kt = keep_t(s, o);
    let kl = keep_l(s, o);
    let kr = keep_r(s, o);
    let q1 = opt_rect(kb, b);
    let q2 = q1 + opt_rect(kt, t);
    let q3 = q2 + opt_rect(kl, l);
    assert(ps == q3 + opt_rect(kr, r));
    if kb {
        assert(q1 =~= seq![b]);
    } else {
        assert(q1 =~= Seq::<Aabb2d>::empty());
    }
    if kb && covers(b, x, y) {
        assert(ps[0] == b);
    }
    if kt && covers(t, x, y) {
        assert(ps[q1.len() as int] == t);
    }
    if kl && covers(l, x, y) {
        assert(ps[q2.len() as int] == l);
    }
    if kr && covers(r, x, y) {
        assert(ps[q3.len() as int] == r);
    }
    assert forall|i: int| 0 <= i < ps.len() implies {
        let p = #[trigger] ps[i];
        (p == b && kb) || (p == t && kt) || (p == l && kl) || (p == r && kr)
    } by {
        if i < q1.len() {
            assert(ps[i] == q1[i]);
        } else if i < q2.len() {
            assert(ps[i] == q2[i]);
        } else if i < q3.len() {
            assert(ps[i] == q3[i]);
        }
    }
    if rect_wf(s) && rect_wf(o) {
    assert forall|i: int, j: int|
        0 <= i < ps.len() && 0 <= j < ps.len() && i != j implies #[trigger] ps[i] != #[trigger] ps[j] by {
        // position of each strip in the sequence
        let pos_b = 0int;
        let pos_t = q1.len() as int;
        let pos_l = q2.len() as int;
        let pos_r = q3.len() as int;
        assert(kb ==> ps[pos_b] == b);
        assert(kt ==> ps[pos_t] == t);
        assert(kl ==> ps[pos_l] == l);
        assert(kr ==> ps[pos_r] == r);
        assert(i < q1.len() ==> ps[i] == b && i == pos_b);
        assert(q1.len() <= i < q2.len() ==> ps[i] == t && i == pos_t);
        assert(q2.len() <= i < q3.len() ==> ps[i] == l && i == pos_l);
        assert(q3.len() <= i ==> ps[i] == r && i == pos_r);
        assert(j < q1.len() ==> ps[j] == b && j == pos_b);
        assert(q1.len() <= j < q2.len() ==> ps[j] == t && j == pos_t);
        assert(q2.len() <= j < q3.len() ==> ps[j] == l && j == pos_l);
        assert(q3.len() <= j ==> ps[j] == r && j == pos_r);
    }
    }
}

/// Subtracting one box from another: the pieces are well formed, lie inside the
/// source and outside the occluder, overlap nowhere, and together with the
/// occluder cover the source except for cells within `EPS` of the source's edges.
pub proof fn lemma_subtract_rect_partition(s: Aabb2d, o: Aabb2d, x: int, y: int)
    requires
        rect_wf(s),
        rect_wf(o),
    ensures
        all_wf(pieces_of(s, o)),
        forall|i: int|
            0 <= i < pieces_of(s, o).len() && covers(#[trigger] pieces_of(s, o)[i], x, y) ==> covers(
                s,
                x,
                y,
            ) && !covers(o, x, y),
        forall|i: int, j: int|
            0 <= i < pieces_of(s, o).len() && 0 <= j < pieces_of(s, o).len() && i != j ==> !(covers(
                #[trigger] pieces_of(s, o)[i],
                x,
                y,
            ) && covers(#[trigger] pieces_of(s, o)[j], x, y)),
        covers(s, x, y) ==> covers(o, x, y) || some_covers(pieces_of(s, o), x, y) || near_border(s, x, y),
{
    let ps = pieces_of(s, o);
    if !rect_intersects(s, o) {
        assert(ps == seq![s]);
        if covers(s, x, y) {
            assert(covers(ps[0], x, y));
        }
    } else if rect_contains_rect(o, s, EPS as int) {
        assert(ps.len() == 0);
    } else {
        lemma_pieces_strips(s, o, x, y);
        let b = strip_b(s, o);
        let t = strip_t(s, o);
        let l = strip_l(s, o);
        let r = strip_r(s, o);
        assert forall|i: int| 0 <= i < ps.len() implies rect_wf(#[trigger] ps[i]) by {
        }
        assert forall|i: int, j: int|
            0 <= i < ps.len() && 0 <= j < ps.len() && i != j implies !(covers(
                #[trigger] ps[i],
                x,
                y,
            ) && covers(#[trigger] ps[j], x, y)) by {
            assert(ps[i] != ps[j]);
        }
    }
}

/// Every cell of what `subtract_each` leaves lies in one of the boxes and outside the occluder.
proof fn lemma_subtract_each_sound(ps: Seq<Aabb2d>, o: Aabb2d, x: int, y: int)
    requires
        all_wf(ps),
        rect_wf(o),
    ensures
        all_wf(subtract_each(ps, o)),
        some_covers(subtract_each(ps, o), x, y) ==> some_covers(ps, x, y) && !covers(o, x, y),
    decreases ps.len(),
{
    if ps.len() > 0 {
        let rest = ps.drop_last();
        lemma_subtract_each_sound(rest, o, x, y);
        lemma_subtract_rect_partition(ps.last(), o, x, y);
        let a = subtract_each(rest, o);
        let p = pieces_of(ps.last(), o);
        assert(subtract_each(ps, o) == a + p);
        assert forall|i: int| 0 <= i < (a + p).len() implies rect_wf(#[trigger] (a + p)[i]) by {
            if i < a.len() {
                assert((a + p)[i] == a[i]);
            } else {
                assert((a + p)[i] == p[i - a.len()]);
            }
        }
        if some_covers(a + p, x, y) {
            let i = choose|i: int| 0 <= i < (a + p).len() && covers((a + p)[i], x, y);
            if i < a.len() {
                assert((a + p)[i] == a[i]);
                assert(some_covers(a, x, y));
                let k = choose|k: int| 0 <= k < rest.len() && covers(rest[k], x, y);
                assert(ps[k] == rest[k]);
            } else {
                assert((a + p)[i] == p[i - a.len()]);
                assert(covers(p[i - a.len()], x, y));
                assert(ps[ps.len() - 1] == ps.last());
            }
        }
    }
}

/// What is left after subtracting occluders lies inside the source and outside every occluder.
pub proof fn lemma_remainder_sound(s: Aabb2d, occs: Seq<Aabb2d>, x: int, y: int)
    requires
        rect_wf(s),
        all_wf(occs),
    ensures
        all_wf(remainder(s, occs)),
        some_covers(remainder(s, occs), x, y) ==> covers(s, x, y) && forall|j: int|
            0 <= j < occs.len() ==> !covers(#[trigger] occs[j], x, y),
    decreases occs.len(),
{
    if occs.len() == 0 {
        let r = remainder(s, occs);
        assert(r == seq![s]);
        assert forall|i: int| 0 <= i < r.len() implies rect_wf(#[trigger] r[i]) by {
            assert(r[i] == s);
        }
        if some_covers(r, x, y) {
            let i = choose|i: int| 0 <= i < r.len() && covers(r[i], x, y);
            assert(r[i] == s);
        }
    } else {
        let front = occs.drop_last();
        assert forall|j: int| 0 <= j < front.len() implies rect_wf(#[trigger] front[j]) by {
            assert(front[j] == occs[j]);
        }
        lemma_remainder_sound(s, front, x, y);
        assert(rect_wf(occs[occs.len() - 1]));
        lemma_subtract_each_sound(remainder(s, front), occs.last(), x, y);
        if some_covers(remainder(s, occs), x, y) {
            assert forall|j: int| 0 <= j < occs.len() implies !covers(#[trigger] occs[j], x, y) by {
                if j < front.len() {
                    assert(front[j] == occs[j]);
                }
            }
        }
    }
}

/// Every cell of the source is covered by an occluder or by what is left, or lies
/// within `EPS` of an edge of the source or of an occluder: the only cells that
/// subtraction loses are those in strips at most `EPS` thick along edges.
pub proof fn lemma_remainder_complete(s: Aabb2d, occs: Seq<Aabb2d>, x: int, y: int)
    requires
        rect_wf(s),
        all_wf(occs),
        covers(s, x, y),
    ensures
        (exists|j: int| 0 <= j < occs.len() && covers(#[trigger] occs[j], x, y)) || some_covers(
            remainder(s, occs),
            x,
            y,
        ) || near_x_edge(s, occs, x) || near_y_edge(s, occs, y),
    decreases occs.len(),
{
    if occs.len() == 0 {
        assert(remainder(s, occs)[0] == s);
    } else {
        let front = occs.drop_last();
        let o = occs.last();
        assert forall|j: int| 0 <= j < front.len() implies rect_wf(#[trigger] front[j]) by {
            assert(front[j] == occs[j]);
        }
        assert(rect_wf(occs[occs.len() - 1]));
        lemma_remainder_complete(s, front, x, y);
        lemma_remainder_sound(s, front, x, y);
        let prev = remainder(s, front);
        if exists|j: int| 0 <= j < front.len() && covers(#[trigger] front[j], x, y) {
            let j = choose|j: int| 0 <= j < front.len() && covers(#[trigger] front[j], x, y);
            assert(occs[j] == front[j]);
        } else if some_covers(prev, x, y) {
            let k = choose|k: int| 0 <= k < prev.len() && covers(prev[k], x, y);
            let p = prev[k];
            lemma_edges_of_remainder(s, front, k);
            lemma_subtract_rect_partition(p, o, x, y);
            if covers(o, x, y) {
                assert(occs[occs.len() - 1] == o);
            } else if some_covers(pieces_of(p, o), x, y) {
                lemma_subtract_each_contains(prev, o, k, x, y);
            } else {
                // the cell lies within EPS of an edge of p, and p's edges are
                // edges of the source or of earlier occluders
                assert(near_border(p, x, y));
                lemma_near_edge_grows(s, front, occs, x, y);
                assert(near(x, p.min.x as int) || near(x, p.max.x as int) || near(y, p.min.y as int)
                    || near(y, p.max.y as int));
            }
        } else {
            lemma_near_edge_grows(s, front, occs, x, y);
        }
    }
}

/// `v` is one of the vertical edge coordinates of the source or of an occluder.
spec fn is_x_edge(s: Aabb2d, occs: Seq<Aabb2d>, v: int) -> bool {
    v == s.min.x || v == s.max.x || exists|j: int|
        0 <= j < occs.len() && (v == occs[j].min.x || v == occs[j].max.x)
}

/// `v` is one of the horizontal edge coordinates of the source or of an occluder.
spec fn is_y_edge(s: Aabb2d, occs: Seq<Aabb2d>, v: int) -> bool {
    v == s.min.y || v == s.max.y || exists|j: int|
        0 <= j < occs.len() && (v == occs[j].min.y || v == occs[j].max.y)
}

spec fn edges_from(ps: Seq<Aabb2d>, s: Aabb2d, occs: Seq<Aabb2d>) -> bool {
    forall|k: int|
        0 <= k < ps.len() ==> is_x_edge(s, occs, #[trigger] ps[k].min.x as int) && is_x_edge(
            s,
            occs,
            ps[k].max.x as int,
        ) && is_y_edge(s, occs, ps[k].min.y as int) && is_y_edge(s, occs, ps[k].max.y as int)
}

proof fn lemma_edges_extend(s: Aabb2d, occs: Seq<Aabb2d>, more: Seq<Aabb2d>, v: int)
    requires
        occs.len() <= more.len(),
        occs == more.take(occs.len() as int),
    ensures
        is_x_edge(s, occs, v) ==> is_x_edge(s, more, v),
        is_y_edge(s, occs, v) ==> is_y_edge(s, more, v),
{
    if is_x_edge(s, occs, v) && !(v == s.min.x || v == s.max.x) {
        let j = choose|j: int| 0 <= j < occs.len() && (v == occs[j].min.x || v == occs[j].max.x);
        assert(more[j] == occs[j]);
    }
    if is_y_edge(s, occs, v) && !(v == s.min.y || v == s.max.y) {
        let j = choose|j: int| 0 <= j < occs.len() && (v == occs[j].min.y || v == occs[j].max.y);
        assert(more[j] == occs[j]);
    }
}

proof fn lemma_edges_of_subtract_each(ps: Seq<Aabb2d>, o: Aabb2d, s: Aabb2d, occs: Seq<Aabb2d>)
    requires
        edges_from(ps, s, occs),
        occs.len() > 0,
        o == occs.last(),
    ensures
        edges_from(subtract_each(ps, o), s, occs),
    decreases ps.len(),
{
    if ps.len() > 0 {
        let rest = ps.drop_last();
        assert forall|k: int| 0 <= k < rest.len() implies is_x_edge(s, occs, #[trigger] rest[k].min.x as int)
            && is_x_edge(s, occs, rest[k].max.x as int) && is_y_edge(s, occs, rest[k].min.y as int)
            && is_y_edge(s, occs, rest[k].max.y as int) by {
            assert(rest[k] == ps[k]);
        }
        lemma_edges_of_subtract_each(rest, o, s, occs);
        let p = ps.last();
        assert(ps[ps.len() - 1] == p);
        let a = subtract_each(rest, o);
        let q = pieces_of(p, o);
        let last = occs.len() - 1;
        assert(occs[last] == o);
        assert(is_x_edge(s, occs, o.min.x as int));
        assert(is_x_edge(s, occs, o.max.x as int));
        assert(is_y_edge(s, occs, o.min.y as int));
        assert(is_y_edge(s, occs, o.max.y as int));
        assert forall|k: int| 0 <= k < q.len() implies is_x_edge(s, occs, #[trigger] q[k].min.x as int)
            && is_x_edge(s, occs, q[k].max.x as int) && is_y_edge(s, occs, q[k].min.y as int)
            && is_y_edge(s, occs, q[k].max.y as int) by {
            if !rect_intersects(p, o) {
                assert(q[k] == p);
            } else if !rect_contains_rect(o, p, EPS as int) {
                lemma_pieces_strips(p, o, 0, 0);
            }
        }
        assert forall|k: int| 0 <= k < (a + q).len() implies is_x_edge(s, occs, #[trigger] (a + q)[k].min.x as int)
            && is_x_edge(s, occs, (a + q)[k].max.x as int) && is_y_edge(s, occs, (a + q)[k].min.y as int)
            && is_y_edge(s, occs, (a + q)[k].max.y as int) by {
            if k < a.len() {
                assert((a + q)[k] == a[k]);
                assert(edges_from(a, s, occs));
                let e = a[k];
                assert(is_x_edge(s, occs, e.min.x as int) && is_x_edge(s, occs, e.max.x as int)
                    && is_y_edge(s, occs, e.min.y as int) && is_y_edge(s, occs, e.max.y as int));
            } else {
                let kk = k - a.len();
                assert((a + q)[k] == q[kk]);
                let e = q[kk];
                assert(is_x_edge(s, occs, e.min.x as int) && is_x_edge(s, occs, e.max.x as int)
                    && is_y_edge(s, occs, e.min.y as int) && is_y_edge(s, occs, e.max.y as int));
            }
        }
        assert(subtract_each(ps, o) == a + q);
    }
}

proof fn lemma_edges_of_remainder_all(s: Aabb2d, occs: Seq<Aabb2d>)
    ensures
        edges_from(remainder(s, occs), s, occs),
    decreases occs.len(),
{
    if occs.len() == 0 {
        assert(remainder(s, occs) == seq![s]);
    } else {
        let front = occs.drop_last();
        lemma_edges_of_remainder_all(s, front);
        let prev = remainder(s, front);
        assert(front == occs.take(front.len() as int));
        assert forall|k: int| 0 <= k < prev.len() implies is_x_edge(s, occs, #[trigger] prev[k].min.x as int)
            && is_x_edge(s, occs, prev[k].max.x as int) && is_y_edge(s, occs, prev[k].min.y as int)
            && is_y_edge(s, occs, prev[k].max.y as int) by {
            lemma_edges_extend(s, front, occs, prev[k].min.x as int);
            lemma_edges_extend(s, front, occs, prev[k].max.x as int);
            lemma_edges_extend(s, front, occs, prev[k].min.y as int);
            lemma_edges_extend(s, front, occs, prev[k].max.y as int);
        }
        lemma_edges_of_subtract_each(prev, occs.last(), s, occs);
    }
}

proof fn lemma_edges_of_remainder(s: Aabb2d, occs: Seq<Aabb2d>, k: int)
    requires
        0 <= k < remainder(s, occs).len(),
    ensures
        is_x_edge(s, occs, remainder(s, occs)[k].min.x as int),
        is_x_edge(s, occs, remainder(s, occs)[k].max.x as int),
        is_y_edge(s, occs, remainder(s, occs)[k].min.y as int),
        is_y_edge(s, occs, remainder(s, occs)[k].max.y as int),
{
    lemma_edges_of_remainder_all(s, occs);
}

proof fn lemma_near_edge_grows(s: Aabb2d, front: Seq<Aabb2d>, occs: Seq<Aabb2d>, x: int, y: int)
    requires
        occs.len() > 0,
        front == occs.drop_last(),
    ensures
        near_x_edge(s, front, x) ==> near_x_edge(s, occs, x),
        near_y_edge(s, front, y) ==> near_y_edge(s, occs, y),
        forall|v: int| is_x_edge(s, front, v) && near(x, v) ==> near_x_edge(s, occs, x),
        forall|v: int| is_y_edge(s, front, v) && near(y, v) ==> near_y_edge(s, occs, y),
{
    if near_x_edge(s, front, x) && !(near(x, s.min.x as int) || near(x, s.max.x as int)) {
        let j = choose|j: int|
            0 <= j < front.len() && (near(x, front[j].min.x as int) || near(x, front[j].max.x as int));
        assert(occs[j] == front[j]);
    }
    if near_y_edge(s, front, y) && !(near(y, s.min.y as int) || near(y, s.max.y as int)) {
        let j = choose|j: int|
            0 <= j < front.len() && (near(y, front[j].min.y as int) || near(y, front[j].max.y as int));
        assert(occs[j] == front[j]);
    }
    assert forall|v: int| is_x_edge(s, front, v) && near(x, v) implies near_x_edge(s, occs, x) by {
        if !(v == s.min.x || v == s.max.x) {
            let j = choose|j: int| 0 <= j < front.len() && (v == front[j].min.x || v == front[j].max.x);
            assert(occs[j] == front[j]);
        }
    }
    assert forall|v: int| is_y_edge(s, front, v) && near(y, v) implies near_y_edge(s, occs, y) by {
        if !(v == s.min.y || v == s.max.y) {
            let j = choose|j: int| 0 <= j < front.len() && (v == front[j].min.y || v == front[j].max.y);
            assert(occs[j] == front[j]);
        }
    }
}

proof fn lemma_subtract_each_contains(ps: Seq<Aabb2d>, o: Aabb2d, k: int, x: int, y: int)
    requires
        0 <= k < ps.len(),
        some_covers(pieces_of(ps[k], o), x, y),
    ensures
        some_covers(subtract_each(ps, o), x, y),
    decreases ps.len(),
{
    let rest = ps.drop_last();
    let a = subtract_each(rest, o);
    let q = pieces_of(ps.last(), o);
    assert(subtract_each(ps, o) == a + q);
    if k == ps.len() - 1 {
        let i = choose|i: int| 0 <= i < q.len() && covers(q[i], x, y);
        assert((a + q)[a.len() + i] == q[i]);
    } else {
        assert(rest[k] == ps[k]);
        lemma_subtract_each_contains(rest, o, k, x, y);
        let i = choose|i: int| 0 <= i < a.len() && covers(a[i], x, y);
        assert((a + q)[i] == a[i]);
    }
}

/// Subtracting a box with positive area from a box with positive area leaves
/// boxes with positive area.
proof fn lemma_pieces_pos(s: Aabb2d, o: Aabb2d)
    requires
        s.min.x < s.max.x && s.min.y < s.max.y,
        o.min.x < o.max.x && o.min.y < o.max.y,
    ensures
        all_pos(pieces_of(s, o)),
{
    let ps = pieces_of(s, o);
    if !rect_intersects(s, o) {
        assert(ps == seq![s]);
    } else if !rect_contains_rect(o, s, EPS as int) {
        lemma_pieces_strips(s, o, 0, 0);
        assert forall|i: int| 0 <= i < ps.len() implies #[trigger] ps[i].min.x < ps[i].max.x && ps[i].min.y
            < ps[i].max.y by {
        }
    }
}

proof fn lemma_subtract_each_pos(ps: Seq<Aabb2d>, o: Aabb2d)
    requires
        all_pos(ps),
        o.min.x < o.max.x && o.min.y < o.max.y,
    ensures
        all_pos(subtract_each(ps, o)),
    decreases ps.len(),
{
    if ps.len() > 0 {
        let rest = ps.drop_last();
        assert forall|i: int| 0 <= i < rest.len() implies #[trigger] rest[i].min.x < rest[i].max.x
            && rest[i].min.y < rest[i].max.y by {
            assert(rest[i] == ps[i]);
        }
        lemma_subtract_each_pos(rest, o);
        assert(ps[ps.len() - 1] == ps.last());
        lemma_pieces_pos(ps.last(), o);
        let a = subtract_each(rest, o);
        let q = pieces_of(ps.last(), o);
        assert forall|i: int| 0 <= i < (a + q).len() implies #[trigger] (a + q)[i].min.x < (a + q)[i].max.x
            && (a + q)[i].min.y < (a + q)[i].max.y by {
            if i < a.len() {
                assert((a + q)[i] == a[i]);
                assert(all_pos(a));
                let e = a[i];
                assert(e.min.x < e.max.x && e.min.y < e.max.y);
            } else {
                let ii = i - a.len();
                assert((a + q)[i] == q[ii]);
                assert(all_pos(q));
                let e = q[ii];
                assert(e.min.x < e.max.x && e.min.y < e.max.y);
            }
        }
        assert(subtract_each(ps, o) == a + q);
    }
}

proof fn lemma_remainder_pos(s: Aabb2d, occs: Seq<Aabb2d>)
    requires
        s.min.x < s.max.x && s.min.y < s.max.y,
        all_pos(occs),
    ensures
        all_pos(remainder(s, occs)),
    decreases occs.len(),
{
    if occs.len() == 0 {
        assert(remainder(s, occs) == seq![s]);
    } else {
        let front = occs.drop_last();
        assert forall|j: int| 0 <= j < front.len() implies #[trigger] front[j].min.x < front[j].max.x
            && front[j].min.y < front[j].max.y by {
            assert(front[j] == occs[j]);
        }
        lemma_remainder_pos(s, front);
        assert(occs[occs.len() - 1] == occs.last());
        lemma_subtract_each_pos(remainder(s, front), occs.last());
    }
}

/// The thick occluders are exactly the occluders thicker than `EPS`.
proof fn lemma_thick_members(occs: Seq<Aabb2d>)
    ensures
        forall|k: int| 0 <= k < thick(occs).len() ==> !empty_rect(#[trigger] thick(occs)[k], EPS as int),
        forall|j: int|
            0 <= j < occs.len() && !empty_rect(#[trigger] occs[j], EPS as int) ==> exists|k: int|
                0 <= k < thick(occs).len() && thick(occs)[k] == occs[j],
    decreases occs.len(),
{
    if occs.len() > 0 {
        let front = occs.drop_last();
        lemma_thick_members(front);
        let tf = thick(front);
        assert forall|j: int|
            0 <= j < occs.len() && !empty_rect(#[trigger] occs[j], EPS as int) implies exists|k: int|
                0 <= k < thick(occs).len() && thick(occs)[k] == occs[j] by {
            if j < front.len() {
                assert(front[j] == occs[j]);
                let k = choose|k: int| 0 <= k < tf.len() && tf[k] == front[j];
                assert(thick(occs)[k] == tf[k]);
            } else {
                assert(thick(occs)[tf.len() as int] == occs[j]);
            }
        }
    }
}

/// When the occlusion test says a face is visible and some target box is thicker
/// than `EPS`, some cell of a target box is covered by no occluder thicker than `EPS`:
/// a face is never reported visible while fully hidden.
pub proof fn lemma_visible_face_exposed(targets: Seq<Aabb2d>, occs: Seq<Aabb2d>)
    requires
        !completely_occluded(targets, occs),
        exists|i: int| 0 <= i < targets.len() && !empty_rect(#[trigger] targets[i], EPS as int),
    ensures
        exists|i: int, x: int, y: int|
            0 <= i < targets.len() && #[trigger] covers(targets[i], x, y) && forall|j: int|
                0 <= j < occs.len() ==> empty_rect(#[trigger] occs[j], EPS as int) || !covers(occs[j], x, y),
{
    if occs.len() == 0 {
        let i = choose|i: int| 0 <= i < targets.len() && !empty_rect(#[trigger] targets[i], EPS as int);
        let t = targets[i];
        assert(covers(t, t.min.x as int, t.min.y as int));
    } else {
        let th = thick(occs);
        lemma_thick_members(occs);
        let i = choose|i: int|
            0 <= i < targets.len() && !(empty_rect(targets[i], EPS as int) || remainder(targets[i], th).len()
                == 0);
        let t = targets[i];
        assert(all_pos(th));
        assert forall|k: int| 0 <= k < th.len() implies rect_wf(#[trigger] th[k]) by {
        }
        lemma_remainder_pos(t, th);
        let rem = remainder(t, th);
        let p = rem[0];
        let x = p.min.x as int;
        let y = p.min.y as int;
        assert(covers(p, x, y));
        assert(some_covers(rem, x, y));
        lemma_remainder_sound(t, th, x, y);
        assert forall|j: int| 0 <= j < occs.len() implies empty_rect(#[trigger] occs[j], EPS as int) || !covers(
            occs[j],
            x,
            y,
        ) by {
            if !empty_rect(occs[j], EPS as int) {
                let k = choose|k: int| 0 <= k < th.len() && th[k] == occs[j];
                assert(!covers(th[k], x, y));
            }
        }
        assert(covers(targets[i], x, y));
    }
}

} // verus!
