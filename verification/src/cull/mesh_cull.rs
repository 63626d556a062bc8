//! Face culling on arbitrary imported meshes: the face layout of a mesh, the
//! rule deciding what two coincident faces do to each other, and the rebuild of
//! the mesh without the culled faces.
//!
//! Finding coincident faces measures distances between face centers in floating
//! point and is done by the caller; everything else is here.
use vstd::prelude::*;
use crate::attributes::{values_emptied, MeshAttrView, MeshAttribute};
use crate::geometry::{F32_ONE_BITS, F32_ZERO_BITS};
use crate::mesh::{attrs_view, MeshData, MeshView};

verus! {

/// The mesh is laid out as quads: six indices per face and one material per face.
pub open spec fn is_quad_layout(m: MeshView) -> bool {
    m.indices.len() % 6 == 0 && m.face_materials.len() == m.indices.len() / 6
}

/// Indices per face: six for a quad layout, three otherwise.
pub open spec fn poly_step(m: MeshView) -> nat {
    if is_quad_layout(m) {
        6
    } else {
        3
    }
}

/// Number of faces.
pub open spec fn face_total(m: MeshView) -> nat {
    m.indices.len() / poly_step(m)
}

/// The vertices of face `f`: the first three of its indices, and for a quad the
/// last one too (0-1-2 and 0-2-3 share the first and third).
pub open spec fn face_vertices(m: MeshView, f: int) -> Seq<u32> {
    let b = f * poly_step(m);
    if is_quad_layout(m) {
        seq![m.indices[b], m.indices[b + 1], m.indices[b + 2], m.indices[b + 5]]
    } else {
        seq![m.indices[b], m.indices[b + 1], m.indices[b + 2]]
    }
}

/// The faces not marked in `culled`, in order.
pub open spec fn kept_faces(culled: Seq<bool>) -> Seq<usize>
    decreases culled.len(),
{
    if culled.len() == 0 {
        Seq::empty()
    } else {
        let k = kept_faces(culled.drop_last());
        if culled.last() {
            k
        } else {
            k.push((culled.len() - 1) as usize)
        }
    }
}

/// The indices of face `f`, in order.
pub open spec fn face_corners(m: MeshView, step: nat, f: int) -> Seq<u32> {
    m.indices.subrange(f * step, f * step + step)
}

/// The indices of the faces `fs`, face after face.
pub open spec fn corners_of(m: MeshView, step: nat, fs: Seq<usize>) -> Seq<u32>
    decreases fs.len(),
{
    if fs.len() == 0 {
        Seq::empty()
    } else {
        corners_of(m, step, fs.drop_last()) + face_corners(m, step, fs.last() as int)
    }
}

/// Element `i` of `s`, or `d` when `s` has none.
pub open spec fn get_or<T>(s: Seq<T>, i: int, d: T) -> T {
    if 0 <= i < s.len() {
        s[i]
    } else {
        d
    }
}

/// The elements of `s` at the positions `idx`, `d` where `s` has none.
pub open spec fn gathered<T>(s: Seq<T>, idx: Seq<u32>, d: T) -> Seq<T> {
    idx.map_values(|v: u32| get_or(s, v as int, d))
}

/// The elements of `s` at the positions `fs`.
pub open spec fn picked<T>(s: Seq<T>, fs: Seq<usize>) -> Seq<T> {
    fs.map_values(|f: usize| s[f as int])
}

/// Normal given to a corner whose vertex has none: `(0, 0, 1)`.
pub open spec fn normal_default() -> [u32; 3] {
    [F32_ZERO_BITS, F32_ZERO_BITS, F32_ONE_BITS]
}

/// UV given to a corner whose vertex has none: `(0, 0)`.
pub open spec fn uv_default() -> [u32; 2] {
    [F32_ZERO_BITS, F32_ZERO_BITS]
}

/// Color given to a corner whose vertex has none: opaque white.
pub open spec fn color_default() -> [u32; 4] {
    [F32_ONE_BITS, F32_ONE_BITS, F32_ONE_BITS, F32_ONE_BITS]
}

/// Every corner of a face kept by `culled` refers to a vertex.
pub open spec fn kept_corners_valid(m: MeshView, culled: Seq<bool>) -> bool {
    let src = corners_of(m, poly_step(m), kept_faces(culled));
    forall|p: int| 0 <= p < src.len() ==> (#[trigger] src[p]) < m.positions.len()
}

/// The mesh rebuilt from the faces kept by `culled`: each corner of each kept
/// face becomes a vertex of its own (with the position of its source vertex and
/// its normal, UVs and color, or the defaults where the source has none), the
/// indices number these vertices in order, each kept face keeps its material and
/// tint where it has one, and each custom attribute is kept with no element.
pub open spec fn culled_rebuild(m: MeshView, culled: Seq<bool>) -> MeshView {
    let step = poly_step(m);
    let src = corners_of(m, step, kept_faces(culled));
    MeshView {
        positions: src.map_values(|v: u32| m.positions[v as int]),
        normals: gathered(m.normals, src, normal_default()),
        indices: Seq::new(src.len(), |p: int| p as u32),
        uvs: gathered(m.uvs, src, uv_default()),
        secondary_uvs: match m.secondary_uvs {
            Some(s) => Some(gathered(s, src, uv_default())),
            None => None,
        },
        colors: match m.colors {
            Some(c) => Some(gathered(c, src, color_default())),
            None => None,
        },
        face_materials: picked(
            m.face_materials,
            kept_faces(culled.take(vstd::math::min(m.face_materials.len() as int, culled.len() as int))),
        ),
        face_tint_indices: picked(
            m.face_tint_indices,
            kept_faces(culled.take(vstd::math::min(m.face_tint_indices.len() as int, culled.len() as int))),
        ),
        attributes: m.attributes.map_values(
            |a: MeshAttrView| MeshAttrView { values: values_emptied(a.values), ..a },
        ),
    }
}

/// Number of marked faces.
pub open spec fn culled_count(culled: Seq<bool>) -> nat {
    (culled.len() - kept_faces(culled).len()) as nat
}

/// Outcome of culling the faces of a mesh.
#[derive(Debug)]
pub struct MeshCullResult {
    pub initial_faces: usize,
    pub culled_faces: usize,
    pub remaining_faces: usize,
    pub mesh: MeshData,
}

/// What a face does, given an earlier face whose center lies within tolerance of
/// its own.
#[derive(Debug, Clone, Copy, PartialEq, Eq, Structural)]
pub enum FacePairAction {
    /// The faces touch back to back: both are culled.
    CullBoth,
    /// The faces coincide: the later one is culled.
    CullLater,
    /// Neither is culled on account of the other.
    Keep,
}

/// Each component of `a + b` lies within one of zero: opposite quantized normals.
pub open spec fn keys_opposite(a: [i8; 3], b: [i8; 3]) -> bool {
    &&& -1 <= a[0] + b[0] <= 1
    &&& -1 <= a[1] + b[1] <= 1
    &&& -1 <= a[2] + b[2] <= 1
}

/// Each component of `a - b` lies within one of zero: equal quantized normals.
pub open spec fn keys_alike(a: [i8; 3], b: [i8; 3]) -> bool {
    &&& -1 <= a[0] - b[0] <= 1
    &&& -1 <= a[1] - b[1] <= 1
    &&& -1 <= a[2] - b[2] <= 1
}

/// Component sums of two keys stay within `i8`, and so do the differences when
/// they are looked at.
pub open spec fn keys_in_range(a: [i8; 3], b: [i8; 3], cull_opposite: bool) -> bool {
    &&& -127 <= a[0] + b[0] <= 127
    &&& -127 <= a[1] + b[1] <= 127
    &&& -127 <= a[2] + b[2] <= 127
    &&& !(cull_opposite && keys_opposite(a, b)) ==> {
        &&& -127 <= a[0] - b[0] <= 127
        &&& -127 <= a[1] - b[1] <= 127
        &&& -127 <= a[2] - b[2] <= 127
    }
}

/// The action for a face with quantized normal `key` against an earlier face with
/// quantized normal `other`: back-to-back faces are both culled when
/// `cull_opposite` is set; otherwise coinciding faces cull the later one when
/// `cull_duplicates` is set.
pub open spec fn pair_action_spec(key: [i8; 3], other: [i8; 3], cull_opposite: bool, cull_duplicates: bool) -> FacePairAction {
    if cull_opposite && keys_opposite(key, other) {
        FacePairAction::CullBoth
    } else if cull_duplicates && keys_alike(key, other) {
        FacePairAction::CullLater
    } else {
        FacePairAction::Keep
    }
}

/// Decides what a face does given an earlier face within tolerance, from their
/// quantized normals.
pub fn face_pair_action(key: [i8; 3], other: [i8; 3], cull_opposite: bool, cull_duplicates: bool) -> (r: FacePairAction)
    requires
        keys_in_range(key, other, cull_opposite),
    ensures
        r == pair_action_spec(key, other, cull_opposite, cull_duplicates),
{
    let s0 = key[0] + other[0];
    let s1 = key[1] + other[1];
    let s2 = key[2] + other[2];
    let is_opposite = -1 <= s0 && s0 <= 1 && -1 <= s1 && s1 <= 1 && -1 <= s2 && s2 <= 1;
    if cull_opposite && is_opposite {
        return FacePairAction::CullBoth;
    }
    let d0 = key[0] - other[0];
    let d1 = key[1] - other[1];
    let d2 = key[2] - other[2];
    let is_duplicate = -1 <= d0 && d0 <= 1 && -1 <= d1 && d1 <= 1 && -1 <= d2 && d2 <= 1;
    if cull_duplicates && is_duplicate {
        FacePairAction::CullLater
    } else {
        FacePairAction::Keep
    }
}

/// The candidate that decides for a face: the first candidate not marked in
/// `culled` whose action is not `Keep`, as its position in `cands` and its action.
pub open spec fn deciding_candidate(
    key: [i8; 3],
    cands: Seq<(usize, [i8; 3])>,
    culled: Seq<bool>,
    cull_opposite: bool,
    cull_duplicates: bool,
) -> Option<(int, FacePairAction)>
    decreases cands.len(),
{
    if cands.len() == 0 {
        None
    } else {
        match deciding_candidate(key, cands.drop_last(), culled, cull_opposite, cull_duplicates) {
            Some(d) => Some(d),
            None => {
                let c = cands.last();
                let a = pair_action_spec(key, c.1, cull_opposite, cull_duplicates);
                if !culled[c.0 as int] && a != FacePairAction::Keep {
                    Some(((cands.len() - 1) as int, a))
                } else {
                    None
                }
            },
        }
    }
}

/// Every candidate looked at before a decision has keys within `i8` range.
#[verifier::opaque]
pub open spec fn candidates_in_range(
    key: [i8; 3],
    cands: Seq<(usize, [i8; 3])>,
    culled: Seq<bool>,
    cull_opposite: bool,
    cull_duplicates: bool,
) -> bool {
    forall|k: int|
        0 <= k < cands.len() && deciding_candidate(key, cands.take(k), culled, cull_opposite, cull_duplicates)
            is None && !culled[(#[trigger] cands[k]).0 as int] ==> keys_in_range(key, cands[k].1, cull_opposite)
}

/// The marks after face `face` meets its candidates: both marked when the
/// deciding candidate lies back to back with it, the face marked when it
/// coincides with it, nothing changed without a deciding candidate.
pub open spec fn resolved_marks(
    face: int,
    key: [i8; 3],
    cands: Seq<(usize, [i8; 3])>,
    culled: Seq<bool>,
    cull_opposite: bool,
    cull_duplicates: bool,
) -> Seq<bool> {
    match deciding_candidate(key, cands, culled, cull_opposite, cull_duplicates) {
        Some((k, FacePairAction::CullBoth)) => culled.update(face, true).update(cands[k].0 as int, true),
        Some((_, FacePairAction::CullLater)) => culled.update(face, true),
        _ => culled,
    }
}

/// Lets face `face`, with quantized normal `key`, meet the earlier faces `cands`
/// (with their quantized normals) whose centers lie within tolerance of its own,
/// in the order given, and marks the faces that are culled.
pub fn resolve_face(
    face: usize,
    key: [i8; 3],
    cands: &Vec<(usize, [i8; 3])>,
    culled: &mut Vec<bool>,
    cull_opposite: bool,
    cull_duplicates: bool,
)
    requires
        face < old(culled)@.len(),
        forall|k: int| 0 <= k < cands@.len() ==> (#[trigger] cands@[k]).0 < old(culled)@.len(),
        candidates_in_range(key, cands@, old(culled)@, cull_opposite, cull_duplicates),
    ensures
        final(culled)@ == resolved_marks(face as int, key, cands@, old(culled)@, cull_opposite, cull_duplicates),
{
    let ghost c0 = culled@;
    let mut k: usize = 0;
    while k < cands.len()
        invariant
            k <= cands.len(),
            culled@ == c0,
            c0 == old(culled)@,
            face < c0.len(),
            forall|j: int| 0 <= j < cands@.len() ==> (#[trigger] cands@[j]).0 < c0.len(),
            candidates_in_range(key, cands@, c0, cull_opposite, cull_duplicates),
            deciding_candidate(key, cands@.take(k as int), c0, cull_opposite, cull_duplicates) is None,
        decreases cands.len() - k,
    {
        let (other, other_key) = cands[k];
        let ghost pre = cands@.take(k as int);
        assert(cands@.take(k as int + 1).drop_last() == pre);
        assert(cands@.take(k as int + 1).last() == cands@[k as int]);
        if !culled[other] {
            assert(keys_in_range(key, cands@[k as int].1, cull_opposite)) by {
                reveal(candidates_in_range);
            }
            let a = face_pair_action(key, other_key, cull_opposite, cull_duplicates);
            match a {
                FacePairAction::CullBoth => {
                    assert(deciding_candidate(key, cands@.take(k as int + 1), c0, cull_opposite, cull_duplicates)
                        == Some((k as int, a)));
                    proof {
                        lemma_decision_prefix(key, cands@, c0, cull_opposite, cull_duplicates, k as int + 1);
                    }
                    assert(deciding_candidate(key, cands@, c0, cull_opposite, cull_duplicates) == Some((k as int, a)));
                    culled.set(face, true);
                    culled.set(other, true);
                    assert(culled@ == c0.update(face as int, true).update(cands@[k as int].0 as int, true));
                    return;
                },
                FacePairAction::CullLater => {
                    assert(deciding_candidate(key, cands@.take(k as int + 1), c0, cull_opposite, cull_duplicates)
                        == Some((k as int, a)));
                    proof {
                        lemma_decision_prefix(key, cands@, c0, cull_opposite, cull_duplicates, k as int + 1);
                    }
                    assert(deciding_candidate(key, cands@, c0, cull_opposite, cull_duplicates) == Some((k as int, a)));
                    culled.set(face, true);
                    return;
                },
                FacePairAction::Keep => {},
            }
        }
        assert(deciding_candidate(key, cands@.take(k as int + 1), c0, cull_opposite, cull_duplicates) is None);
        k += 1;
    }
    assert(cands@.take(cands@.len() as int) == cands@);
}

/// Whether the candidates of a face can be met without leaving `i8` range (see
/// `candidates_in_range`).
pub fn candidates_fit(
    key: [i8; 3],
    cands: &Vec<(usize, [i8; 3])>,
    culled: &Vec<bool>,
    cull_opposite: bool,
    cull_duplicates: bool,
) -> (b: bool)
    requires
        forall|k: int| 0 <= k < cands@.len() ==> (#[trigger] cands@[k]).0 < culled@.len(),
    ensures
        b == candidates_in_range(key, cands@, culled@, cull_opposite, cull_duplicates),
{
    let mut k: usize = 0;
    while k < cands.len()
        invariant
            k <= cands.len(),
            forall|j: int| 0 <= j < cands@.len() ==> (#[trigger] cands@[j]).0 < culled@.len(),
            deciding_candidate(key, cands@.take(k as int), culled@, cull_opposite, cull_duplicates) is None,
            forall|j: int|
                0 <= j < k && !culled@[(#[trigger] cands@[j]).0 as int] ==> keys_in_range(
                    key,
                    cands@[j].1,
                    cull_opposite,
                ),
        decreases cands.len() - k,
    {
        let (other, other_key) = cands[k];
        assert(cands@.take(k as int + 1).drop_last() == cands@.take(k as int));
        if !culled[other] {
            let s0 = key[0] as i16 + other_key[0] as i16;
            let s1 = key[1] as i16 + other_key[1] as i16;
            let s2 = key[2] as i16 + other_key[2] as i16;
            let sums_fit = -127 <= s0 && s0 <= 127 && -127 <= s1 && s1 <= 127 && -127 <= s2 && s2 <= 127;
            if !sums_fit {
                assert(!keys_in_range(key, cands@[k as int].1, cull_opposite));
                assert(!candidates_in_range(key, cands@, culled@, cull_opposite, cull_duplicates)) by {
                    reveal(candidates_in_range);
                }
                return false;
            }
            let opposite = -1 <= s0 && s0 <= 1 && -1 <= s1 && s1 <= 1 && -1 <= s2 && s2 <= 1;
            if !(cull_opposite && opposite) {
                let d0 = key[0] as i16 - other_key[0] as i16;
                let d1 = key[1] as i16 - other_key[1] as i16;
                let d2 = key[2] as i16 - other_key[2] as i16;
                let diffs_fit = -127 <= d0 && d0 <= 127 && -127 <= d1 && d1 <= 127 && -127 <= d2 && d2 <= 127;
                if !diffs_fit {
                    assert(!keys_in_range(key, cands@[k as int].1, cull_opposite));
                    assert(!candidates_in_range(key, cands@, culled@, cull_opposite, cull_duplicates)) by {
                        reveal(candidates_in_range);
                    }
                    return false;
                }
            }
            let a = face_pair_action(key, other_key, cull_opposite, cull_duplicates);
            if a != FacePairAction::Keep {
                assert(deciding_candidate(key, cands@.take(k as int + 1), culled@, cull_opposite, cull_duplicates)
                    is Some);
                assert forall|j: int|
                    0 <= j < cands@.len() && deciding_candidate(
                        key,
                        cands@.take(j),
                        culled@,
                        cull_opposite,
                        cull_duplicates,
                    ) is None && !culled@[(#[trigger] cands@[j]).0 as int] implies keys_in_range(
                    key,
                    cands@[j].1,
                    cull_opposite,
                ) by {
                    if j > k {
                        lemma_decision_prefix(key, cands@.take(j), culled@, cull_opposite, cull_duplicates, k as int + 1);
                        assert(cands@.take(j).take(k as int + 1) == cands@.take(k as int + 1));
                    }
                }
                assert(candidates_in_range(key, cands@, culled@, cull_opposite, cull_duplicates)) by {
                    reveal(candidates_in_range);
                }
                return true;
            }
        }
        k += 1;
    }
    assert(candidates_in_range(key, cands@, culled@, cull_opposite, cull_duplicates)) by {
        reveal(candidates_in_range);
    }
    true
}

/// A decision reached on a prefix stays the decision on the whole sequence.
proof fn lemma_decision_prefix(
    key: [i8; 3],
    cands: Seq<(usize, [i8; 3])>,
    culled: Seq<bool>,
    cull_opposite: bool,
    cull_duplicates: bool,
    n: int,
)
    requires
        0 <= n <= cands.len(),
        deciding_candidate(key, cands.take(n), culled, cull_opposite, cull_duplicates) is Some,
    ensures
        deciding_candidate(key, cands, culled, cull_opposite, cull_duplicates) == deciding_candidate(
            key,
            cands.take(n),
            culled,
            cull_opposite,
            cull_duplicates,
        ),
    decreases cands.len() - n,
{
    if n < cands.len() {
        assert(cands.take(n + 1).drop_last() == cands.take(n));
        lemma_decision_prefix(key, cands, culled, cull_opposite, cull_duplicates, n + 1);
    } else {
        assert(cands.take(n) == cands);
    }
}

/// The number of indices per face and the number of faces of a mesh.
pub fn mesh_face_layout(mesh: &MeshData) -> (r: (usize, usize))
    ensures
        r.0 == poly_step(mesh@),
        r.1 == face_total(mesh@),
{
    let n = mesh.indices.len();
    let is_quad = n % 6 == 0 && mesh.face_materials.len() == n / 6;
    let step: usize = if is_quad { 6 } else { 3 };
    (step, n / step)
}

proof fn lemma_face_in_range(f: int, n: int, step: int, t: int)
    requires
        step == 3 || step == 6,
        0 <= f < n / step,
        0 <= t < step,
        n >= 0,
    ensures
        0 <= f * step + t < n,
        f * step + step <= n,
{
    assert(f * step + step <= (n / step) * step) by (nonlinear_arith)
        requires
            0 <= f < n / step,
            step > 0,
    ;
    assert((n / step) * step <= n) by (nonlinear_arith)
        requires
            step > 0,
            n >= 0,
    ;
    assert(0 <= f * step) by (nonlinear_arith)
        requires
            0 <= f,
            step > 0,
    ;
}

/// The vertex indices of face `face`: three for a triangle layout, four for a
/// quad layout.
pub fn face_vertex_indices(mesh: &MeshData, face: usize) -> (r: Vec<u32>)
    requires
        face < face_total(mesh@),
    ensures
        r@ == face_vertices(mesh@, face as int),
{
    let (step, _) = mesh_face_layout(mesh);
    let total = mesh.indices.len();
    proof {
        lemma_face_in_range(face as int, mesh@.indices.len() as int, step as int, 0);
    }
    let b = face * step;
    let mut r: Vec<u32> = Vec::new();
    r.push(mesh.indices[b]);
    r.push(mesh.indices[b + 1]);
    r.push(mesh.indices[b + 2]);
    if step == 6 {
        r.push(mesh.indices[b + 5]);
    }
    assert(r@ =~= face_vertices(mesh@, face as int));
    r
}

/// The faces not marked among the first `limit` entries of `culled`.
fn kept_face_list(culled: &Vec<bool>, limit: usize) -> (r: Vec<usize>)
    ensures
        r@ == kept_faces(culled@.take(vstd::math::min(limit as int, culled@.len() as int))),
{
    let end = if limit < culled.len() { limit } else { culled.len() };
    let mut r: Vec<usize> = Vec::new();
    let mut i: usize = 0;
    while i < end
        invariant
            i <= end,
            end <= culled.len(),
            end == vstd::math::min(limit as int, culled@.len() as int),
            r@ == kept_faces(culled@.take(i as int)),
        decreases end - i,
    {
        assert(culled@.take(i as int + 1).drop_last() == culled@.take(i as int));
        if !culled[i] {
            r.push(i);
        }
        i += 1;
    }
    r
}

proof fn lemma_kept_faces_bounded(culled: Seq<bool>)
    ensures
        kept_faces(culled).len() <= culled.len(),
        forall|k: int| 0 <= k < kept_faces(culled).len() ==> (#[trigger] kept_faces(culled)[k]) < culled.len(),
    decreases culled.len(),
{
    if culled.len() > 0 {
        lemma_kept_faces_bounded(culled.drop_last());
    }
}

/// The indices of the faces `faces`, face after face.
fn corner_list(mesh: &MeshData, step: usize, faces: &Vec<usize>) -> (r: Vec<u32>)
    requires
        step == poly_step(mesh@),
        forall|k: int| 0 <= k < faces@.len() ==> (#[trigger] faces@[k]) < face_total(mesh@),
    ensures
        r@ == corners_of(mesh@, step as nat, faces@),
{
    let total = mesh.indices.len();
    let mut r: Vec<u32> = Vec::new();
    let mut k: usize = 0;
    while k < faces.len()
        invariant
            k <= faces.len(),
            total == mesh@.indices.len(),
            step == poly_step(mesh@),
            forall|j: int| 0 <= j < faces@.len() ==> (#[trigger] faces@[j]) < face_total(mesh@),
            r@ == corners_of(mesh@, step as nat, faces@.take(k as int)),
        decreases faces.len() - k,
    {
        let f = faces[k];
        proof {
            lemma_face_in_range(f as int, mesh@.indices.len() as int, step as int, 0);
        }
        let b = f * step;
        let ghost before = r@;
        let mut t: usize = 0;
        while t < step
            invariant
                t <= step,
                step == poly_step(mesh@),
                b + step <= mesh@.indices.len(),
                total == mesh@.indices.len(),
                b == f * step,
                r@ == before + mesh@.indices.subrange(b as int, b + t),
            decreases step - t,
        {
            r.push(mesh.indices[b + t]);
            t += 1;
            assert(mesh@.indices.subrange(b as int, b + t) == mesh@.indices.subrange(b as int, b + t - 1).push(
                mesh@.indices[b + t - 1],
            ));
        }
        k += 1;
        assert(faces@.take(k as int).drop_last() == faces@.take(k as int - 1));
    }
    assert(faces@.take(faces@.len() as int) == faces@);
    r
}

/// The elements of `src` at the positions `idx`, `d` where `src` has none.
fn gather<T: Copy>(src: &Vec<T>, idx: &Vec<u32>, d: T) -> (r: Vec<T>)
    ensures
        r@ == gathered(src@, idx@, d),
{
    let mut r: Vec<T> = Vec::new();
    let mut i: usize = 0;
    while i < idx.len()
        invariant
            i <= idx.len(),
            r@ == gathered(src@, idx@.take(i as int), d),
        decreases idx.len() - i,
    {
        let v = idx[i] as usize;
        if v < src.len() {
            r.push(src[v]);
        } else {
            r.push(d);
        }
        i += 1;
        assert(gathered(src@, idx@.take(i as int), d) =~= gathered(src@, idx@.take(i as int - 1), d).push(
            get_or(src@, idx@[i as int - 1] as int, d),
        ));
    }
    assert(idx@.take(idx@.len() as int) == idx@);
    r
}

/// The elements of `src` at the positions `faces`.
fn pick<T: Copy>(src: &Vec<T>, faces: &Vec<usize>) -> (r: Vec<T>)
    requires
        forall|k: int| 0 <= k < faces@.len() ==> (#[trigger] faces@[k]) < src@.len(),
    ensures
        r@ == picked(src@, faces@),
{
    let mut r: Vec<T> = Vec::new();
    let mut i: usize = 0;
    while i < faces.len()
        invariant
            i <= faces.len(),
            forall|k: int| 0 <= k < faces@.len() ==> (#[trigger] faces@[k]) < src@.len(),
            r@ == picked(src@, faces@.take(i as int)),
        decreases faces.len() - i,
    {
        r.push(src[faces[i]]);
        i += 1;
        assert(picked(src@, faces@.take(i as int)) =~= picked(src@, faces@.take(i as int - 1)).push(
            src@[faces@[i as int - 1] as int],
        ));
    }
    assert(faces@.take(faces@.len() as int) == faces@);
    r
}

/// `0, 1, ..., n - 1` as vertex indices.
fn sequential_indices(n: usize) -> (r: Vec<u32>)
    ensures
        r@ == Seq::new(n as nat, |p: int| p as u32),
{
    let mut r: Vec<u32> = Vec::new();
    let mut i: usize = 0;
    while i < n
        invariant
            i <= n,
            r@ == Seq::new(i as nat, |p: int| p as u32),
        decreases n - i,
    {
        #[verifier::truncate]
        let v = i as u32;
        r.push(v);
        i += 1;
        assert(r@ =~= Seq::new(i as nat, |p: int| p as u32));
    }
    r
}

/// Whether some entry is set.
fn any_set(v: &Vec<bool>) -> (r: bool)
    ensures
        r == v@.contains(true),
{
    let mut i: usize = 0;
    while i < v.len()
        invariant
            i <= v.len(),
            forall|k: int| 0 <= k < i ==> !v@[k],
        decreases v.len() - i,
    {
        if v[i] {
            assert(v@[i as int] == true);
            return true;
        }
        i += 1;
    }
    false
}

proof fn lemma_kept_all_when_none(culled: Seq<bool>)
    requires
        !culled.contains(true),
    ensures
        kept_faces(culled).len() == culled.len(),
    decreases culled.len(),
{
    if culled.len() > 0 {
        assert(!culled.drop_last().contains(true)) by {
            if culled.drop_last().contains(true) {
                let k = choose|k: int| 0 <= k < culled.drop_last().len() && culled.drop_last()[k] == true;
                assert(culled[k] == true);
            }
        }
        lemma_kept_all_when_none(culled.drop_last());
        assert(culled[culled.len() - 1] != true);
    }
}

/// Finishes culling a mesh whose faces marked in `culled` were found to be
/// hidden: with no face marked, the mesh is handed back as it is; otherwise it is
/// rebuilt from the unmarked faces (see `culled_rebuild`). The counts report the
/// faces before, the faces marked, and the faces left.
pub fn finish_mesh_cull(mesh: &MeshData, culled: &Vec<bool>) -> (r: MeshCullResult)
    requires
        culled@.len() == face_total(mesh@),
        culled@.contains(true) ==> kept_corners_valid(mesh@, culled@),
    ensures
        r.initial_faces == face_total(mesh@),
        r.culled_faces == culled_count(culled@),
        r.remaining_faces == kept_faces(culled@).len(),
        !culled@.contains(true) ==> r.mesh@ == mesh@,
        culled@.contains(true) ==> r.mesh@ == culled_rebuild(mesh@, culled@),
{
    let (step, n) = mesh_face_layout(mesh);
    let kept = kept_face_list(culled, n);
    assert(culled@.take(culled@.len() as int) == culled@);
    proof {
        lemma_kept_faces_bounded(culled@);
    }
    if !any_set(culled) {
        proof {
            lemma_kept_all_when_none(culled@);
        }
        return MeshCullResult { initial_faces: n, culled_faces: 0, remaining_faces: n, mesh: mesh.duplicate() };
    }
    let corners = corner_list(mesh, step, &kept);
    let ghost m = mesh@;
    let positions = gather(&mesh.positions, &corners, [0u32, 0u32, 0u32]);
    assert(positions@ =~= corners@.map_values(|v: u32| m.positions[v as int]));
    let zero = F32_ZERO_BITS;
    let one = F32_ONE_BITS;
    let normals = gather(&mesh.normals, &corners, [zero, zero, one]);
    let uvs = gather(&mesh.uvs, &corners, [zero, zero]);
    let secondary_uvs = match &mesh.secondary_uvs {
        Some(s) => Some(gather(s, &corners, [zero, zero])),
        None => None,
    };
    let colors = match &mesh.colors {
        Some(c) => Some(gather(c, &corners, [one, one, one, one])),
        None => None,
    };
    let indices = sequential_indices(corners.len());

    let mat_faces = kept_face_list(culled, mesh.face_materials.len());
    let tint_faces = kept_face_list(culled, mesh.face_tint_indices.len());
    proof {
        let cm = culled@.take(vstd::math::min(m.face_materials.len() as int, culled@.len() as int));
        let ct = culled@.take(vstd::math::min(m.face_tint_indices.len() as int, culled@.len() as int));
        lemma_kept_faces_bounded(cm);
        lemma_kept_faces_bounded(ct);
    }
    let face_materials = pick(&mesh.face_materials, &mat_faces);
    let face_tint_indices = pick(&mesh.face_tint_indices, &tint_faces);

    let mut attrs: Vec<MeshAttribute> = Vec::new();
    let mut i: usize = 0;
    while i < mesh.custom_attributes.len()
        invariant
            i <= mesh.custom_attributes.len(),
            attrs_view(attrs@) == attrs_view(mesh.custom_attributes@).take(i as int).map_values(
                |a: MeshAttrView| MeshAttrView { values: values_emptied(a.values), ..a },
            ),
        decreases mesh.custom_attributes.len() - i,
    {
        let a = &mesh.custom_attributes[i];
        let e = MeshAttribute { name: a.name.clone(), domain: a.domain, data: a.data.emptied() };
        let ghost prev = attrs@;
        attrs.push(e);
        assert(attrs_view(attrs@) =~= attrs_view(prev).push(e@));
        i += 1;
        assert(attrs_view(mesh.custom_attributes@).take(i as int) =~= attrs_view(
            mesh.custom_attributes@,
        ).take(i as int - 1).push(a@));
        assert(attrs_view(attrs@) =~= attrs_view(mesh.custom_attributes@).take(i as int).map_values(
            |a: MeshAttrView| MeshAttrView { values: values_emptied(a.values), ..a },
        ));
    }
    assert(attrs_view(mesh.custom_attributes@).take(i as int) =~= attrs_view(mesh.custom_attributes@));

    let out = MeshData {
        positions,
        normals,
        indices,
        uvs,
        secondary_uvs,
        colors,
        face_materials,
        face_tint_indices,
        custom_attributes: attrs,
    };
    assert(out@ == culled_rebuild(mesh@, culled@));
    MeshCullResult { initial_faces: n, culled_faces: n - kept.len(), remaining_faces: kept.len(), mesh: out }
}

/// Whether every corner of every face kept by `culled` refers to a vertex.
pub fn kept_corners_in_range(mesh: &MeshData, culled: &Vec<bool>) -> (b: bool)
    requires
        culled@.len() == face_total(mesh@),
    ensures
        b == kept_corners_valid(mesh@, culled@),
{
    let (step, n) = mesh_face_layout(mesh);
    let kept = kept_face_list(culled, n);
    assert(culled@.take(culled@.len() as int) == culled@);
    proof {
        lemma_kept_faces_bounded(culled@);
    }
    let corners = corner_list(mesh, step, &kept);
    let ghost src = corners_of(mesh@, poly_step(mesh@), kept_faces(culled@));
    assert(corners@ == src);
    let mut i: usize = 0;
    while i < corners.len()
        invariant
            i <= corners.len(),
            corners@ == src,
            src == corners_of(mesh@, poly_step(mesh@), kept_faces(culled@)),
            forall|p: int| 0 <= p < i ==> (#[trigger] corners@[p]) < mesh@.positions.len(),
        decreases corners.len() - i,
    {
        if corners[i] as usize >= mesh.positions.len() {
            assert(src[i as int] >= mesh@.positions.len());
            return false;
        }
        i += 1;
    }
    true
}

/// The counts of a culling add up: the faces before are the faces marked plus
/// the faces left.
pub proof fn lemma_cull_counts_add_up(culled: Seq<bool>)
    ensures
        culled_count(culled) + kept_faces(culled).len() == culled.len(),
{
    lemma_kept_faces_bounded(culled);
}

/// The pair rule does not depend on which of the two faces came first.
pub proof fn lemma_pair_action_symmetric(a: [i8; 3], b: [i8; 3], cull_opposite: bool, cull_duplicates: bool)
    ensures
        pair_action_spec(a, b, cull_opposite, cull_duplicates) == pair_action_spec(b, a, cull_opposite, cull_duplicates),
{
}

/// Meeting its candidates never clears a mark: marks only accumulate, and the
/// only faces newly marked are the face itself and the deciding candidate.
pub proof fn lemma_resolve_only_adds_marks(
    face: int,
    key: [i8; 3],
    cands: Seq<(usize, [i8; 3])>,
    culled: Seq<bool>,
    cull_opposite: bool,
    cull_duplicates: bool,
)
    requires
        0 <= face < culled.len(),
        forall|k: int| 0 <= k < cands.len() ==> (#[trigger] cands[k]).0 < culled.len(),
    ensures
        ({
            let r = resolved_marks(face, key, cands, culled, cull_opposite, cull_duplicates);
            &&& r.len() == culled.len()
            &&& forall|i: int| 0 <= i < culled.len() && culled[i] ==> r[i]
            &&& forall|i: int|
                0 <= i < culled.len() && r[i] && !culled[i] ==> i == face || (deciding_candidate(
                    key,
                    cands,
                    culled,
                    cull_opposite,
                    cull_duplicates,
                ) matches Some((k, FacePairAction::CullBoth)) && i == cands[k].0)
        }),
{
    lemma_deciding_in_range(key, cands, culled, cull_opposite, cull_duplicates);
}

/// With both rules off no face is culled: meeting candidates leaves every mark
/// as it was.
pub proof fn lemma_no_rules_no_marks(
    face: int,
    key: [i8; 3],
    cands: Seq<(usize, [i8; 3])>,
    culled: Seq<bool>,
)
    ensures
        deciding_candidate(key, cands, culled, false, false) is None,
        resolved_marks(face, key, cands, culled, false, false) == culled,
    decreases cands.len(),
{
    if cands.len() > 0 {
        lemma_no_rules_no_marks(face, key, cands.drop_last(), culled);
    }
}

proof fn lemma_deciding_in_range(
    key: [i8; 3],
    cands: Seq<(usize, [i8; 3])>,
    culled: Seq<bool>,
    cull_opposite: bool,
    cull_duplicates: bool,
)
    ensures
        deciding_candidate(key, cands, culled, cull_opposite, cull_duplicates) matches Some((k, a)) ==> 0 <= k
            < cands.len() && a != FacePairAction::Keep,
    decreases cands.len(),
{
    if cands.len() > 0 {
        lemma_deciding_in_range(key, cands.drop_last(), culled, cull_opposite, cull_duplicates);
    }
}

} // verus!
