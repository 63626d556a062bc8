//! Settings of face extrusion: how side-face UVs are rebuilt, and which noise
//! drives random extrusion heights.
use vstd::prelude::*;

verus! {

/// UV repair mode for extruded side polygons.
#[derive(Debug, Clone, Copy, PartialEq, Eq, Structural, Hash)]
pub enum ExtrudeUvMode {
    /// Chooses inward sampling for an outward extrusion and outward sampling for
    /// an indentation, by the sign of the extrusion along the top face normal.
    Smart,
    /// Samples a narrow band from the top face perimeter into its interior.
    Inward,
    /// Extends the UVs of the adjacent base polygon.
    Outward,
}

impl Default for ExtrudeUvMode {
    fn default() -> (m: ExtrudeUvMode)
        ensures
            m == ExtrudeUvMode::Smart,
    {
        ExtrudeUvMode::Smart
    }
}

/// Noise algorithm for random extrusion heights.
#[derive(Debug, Clone, Copy, PartialEq, Eq, Structural, Hash)]
pub enum ExtrudeNoiseType {
    /// Uniform pseudo-random values.
    UniformRandom,
    /// Smooth 3D gradient noise.
    Perlin,
    /// Cellular (Voronoi) noise with flat facets.
    Cellular,
}

impl Default for ExtrudeNoiseType {
    fn default() -> (n: ExtrudeNoiseType)
        ensures
            n == ExtrudeNoiseType::UniformRandom,
    {
        ExtrudeNoiseType::UniformRandom
    }
}

/// The undirected key of the edge between two vertices: smaller index first.
pub open spec fn edge_key_spec(a: u32, b: u32) -> (u32, u32) {
    if a < b {
        (a, b)
    } else {
        (b, a)
    }
}

/// The undirected key of the edge between two vertices.
pub fn edge_key(a: u32, b: u32) -> (r: (u32, u32))
    ensures
        r == edge_key_spec(a, b),
{
    if a < b {
        (a, b)
    } else {
        (b, a)
    }
}

/// Whether a corner is neither of the two top corners.
pub open spec fn not_top(top_a: u32, top_b: u32) -> spec_fn(u32) -> bool {
    |v: u32| v != top_a && v != top_b
}

/// The corners of a side quad other than the two top corners, in order.
pub open spec fn base_corners(side: Seq<u32>, top_a: u32, top_b: u32) -> Seq<u32> {
    side.filter(not_top(top_a, top_b))
}

/// The base corner that the last of the quad's four edges touching `t` leads
/// to, looking at the edges `side[j] - side[j + 1]` for `j < k` (indices taken
/// cyclically), if any.
pub open spec fn linked_base(side: Seq<u32>, t: u32, base: Seq<u32>, k: int) -> Option<u32>
    decreases k,
{
    if k <= 0 {
        None
    } else {
        let j = k - 1;
        let s1 = side[j];
        let s2 = side[(j + 1) % 4];
        if s1 == t && base.contains(s2) {
            Some(s2)
        } else if s2 == t && base.contains(s1) {
            Some(s1)
        } else {
            linked_base(side, t, base, j)
        }
    }
}

/// The base corners `(base_a, base_b)` of a side quad joined by quad edges to
/// the top corners `top_a` and `top_b`: present when exactly two corners are
/// not top corners and each top corner leads to a different one of them.
pub open spec fn side_base_spec(side: Seq<u32>, top_a: u32, top_b: u32) -> Option<(u32, u32)> {
    let base = base_corners(side, top_a, top_b);
    if side.len() != 4 || base.len() != 2 {
        None
    } else {
        match (linked_base(side, top_a, base, 4), linked_base(side, top_b, base, 4)) {
            (Some(ba), Some(bb)) => if ba != bb {
                Some((ba, bb))
            } else {
                None
            },
            _ => None,
        }
    }
}

/// Finds the base corners of the side quad `side` below the top edge
/// `top_a - top_b`.
pub fn side_quad_base(side: &Vec<u32>, top_a: u32, top_b: u32) -> (r: Option<(u32, u32)>)
    ensures
        r == side_base_spec(side@, top_a, top_b),
{
    if side.len() != 4 {
        return None;
    }
    let mut base: Vec<u32> = Vec::new();
    let mut i: usize = 0;
    while i < 4
        invariant
            i <= 4,
            side@.len() == 4,
            base@ == base_corners(side@.take(i as int), top_a, top_b),
        decreases 4 - i,
    {
        let v = side[i];
        proof {
            assert(side@.take(i as int + 1) == side@.take(i as int).push(v));
            side@.take(i as int).lemma_filter_push(v, not_top(top_a, top_b));
        }
        if v != top_a && v != top_b {
            base.push(v);
        }
        i += 1;
    }
    assert(side@.take(4) == side@);
    if base.len() != 2 {
        return None;
    }
    let mut va: Option<u32> = None;
    let mut vb: Option<u32> = None;
    let mut j: usize = 0;
    while j < 4
        invariant
            j <= 4,
            side@.len() == 4,
            base@ == base_corners(side@, top_a, top_b),
            base@.len() == 2,
            va == linked_base(side@, top_a, base@, j as int),
            vb == linked_base(side@, top_b, base@, j as int),
        decreases 4 - j,
    {
        let s1 = side[j];
        let s2 = side[(j + 1) % 4];
        let in2 = s2 == base[0] || s2 == base[1];
        let in1 = s1 == base[0] || s1 == base[1];
        proof {
            assert(base@.contains(s2) == in2) by {
                if in2 {
                    if s2 == base@[0] {
                        assert(base@[0] == s2);
                    } else {
                        assert(base@[1] == s2);
                    }
                }
            }
            assert(base@.contains(s1) == in1) by {
                if in1 {
                    if s1 == base@[0] {
                        assert(base@[0] == s1);
                    } else {
                        assert(base@[1] == s1);
                    }
                }
            }
        }
        if s1 == top_a && in2 {
            va = Some(s2);
        } else if s2 == top_a && in1 {
            va = Some(s1);
        }
        if s1 == top_b && in2 {
            vb = Some(s2);
        } else if s2 == top_b && in1 {
            vb = Some(s1);
        }
        j += 1;
    }
    match (va, vb) {
        (Some(ba), Some(bb)) => if ba != bb {
            Some((ba, bb))
        } else {
            None
        },
        _ => None,
    }
}

/// The side quad over edge `i` of an extruded face: base corners `i`, `i + 1`,
/// then top corners `i + 1`, `i` (indices taken cyclically).
pub open spec fn side_face_spec(base: Seq<u32>, top: Seq<u32>, i: int) -> Seq<u32> {
    let n = base.len() as int;
    seq![base[i], base[(i + 1) % n], top[(i + 1) % n], top[i]]
}

/// The side quads joining each edge of a face to the matching edge of its
/// extruded copy.
pub fn extruded_side_faces(base: &Vec<u32>, top: &Vec<u32>) -> (r: Vec<Vec<u32>>)
    requires
        top@.len() == base@.len(),
    ensures
        r@.len() == base@.len(),
        forall|i: int| 0 <= i < base@.len() ==> (#[trigger] r@[i])@ == side_face_spec(base@, top@, i),
{
    let n = base.len();
    let mut r: Vec<Vec<u32>> = Vec::new();
    let mut i: usize = 0;
    while i < n
        invariant
            i <= n,
            n == base@.len(),
            top@.len() == n,
            r@.len() == i,
            forall|k: int| 0 <= k < i ==> (#[trigger] r@[k])@ == side_face_spec(base@, top@, k),
        decreases n - i,
    {
        let next = (i + 1) % n;
        let mut face: Vec<u32> = Vec::new();
        face.push(base[i]);
        face.push(base[next]);
        face.push(top[next]);
        face.push(top[i]);
        assert(face@ =~= side_face_spec(base@, top@, i as int));
        r.push(face);
        i += 1;
    }
    r
}

/// One edge of a face: its undirected key, the face's index, and the position
/// of the edge's first corner in the face.
pub type FaceEdge = ((u32, u32), u32, usize);

/// The edges of face `fi` with corners `f`, in corner order: edge `i` joins
/// corner `i` to corner `i + 1` (the last corner to the first).
pub open spec fn face_edge_list(f: Seq<u32>, fi: int) -> Seq<FaceEdge> {
    Seq::new(f.len(), |i: int| (edge_key_spec(f[i], f[(i + 1) % (f.len() as int)]), fi as u32, i as usize))
}

/// The edges of every face, face after face, each face's in corner order.
pub open spec fn all_face_edges(fs: Seq<Seq<u32>>) -> Seq<FaceEdge>
    decreases fs.len(),
{
    if fs.len() == 0 {
        seq![]
    } else {
        all_face_edges(fs.drop_last()) + face_edge_list(fs.last(), fs.len() - 1)
    }
}

/// The corner lists of the faces.
pub open spec fn faces_view(fs: Seq<Vec<u32>>) -> Seq<Seq<u32>> {
    fs.map_values(|f: Vec<u32>| f@)
}

/// Lists the edges of every face (see `all_face_edges`): the edge-to-face
/// incidence from which the faces sharing an edge are found.
pub fn face_edges(faces: &Vec<Vec<u32>>) -> (r: Vec<FaceEdge>)
    requires
        faces@.len() <= u32::MAX,
    ensures
        r@ == all_face_edges(faces_view(faces@)),
{
    let ghost fs = faces_view(faces@);
    let mut r: Vec<FaceEdge> = Vec::new();
    let mut fi: usize = 0;
    while fi < faces.len()
        invariant
            fi <= faces@.len(),
            faces@.len() <= u32::MAX,
            fs == faces_view(faces@),
            r@ == all_face_edges(fs.take(fi as int)),
        decreases faces@.len() - fi,
    {
        let f = &faces[fi];
        let n = f.len();
        let ghost before = r@;
        let mut i: usize = 0;
        while i < n
            invariant
                i <= n,
                n == f@.len(),
                fi < faces@.len(),
                faces@.len() <= u32::MAX,
                f@ == fs[fi as int],
                r@ == before + face_edge_list(f@, fi as int).take(i as int),
            decreases n - i,
        {
            let next = (i + 1) % n;
            let k = edge_key(f[i], f[next]);
            r.push((k, fi as u32, i));
            assert(face_edge_list(f@, fi as int).take(i as int + 1) =~= face_edge_list(f@, fi as int).take(
                i as int,
            ).push((k, fi as u32, i)));
            i += 1;
        }
        assert(face_edge_list(f@, fi as int).take(n as int) =~= face_edge_list(f@, fi as int));
        assert(fs.take(fi as int + 1).drop_last() =~= fs.take(fi as int));
        assert(fs.take(fi as int + 1).last() == f@);
        fi += 1;
    }
    assert(fs.take(faces@.len() as int) =~= fs);
    r
}

/// A face met across an edge of a selected top face that is repaired as that
/// edge's side face: its index, the material it takes over from the top face
/// (when its own differs), and its base corners below the edge, if found.
#[derive(Debug, Clone, Copy, PartialEq, Eq)]
pub struct SideLink {
    pub side: u32,
    pub material_sync: Option<u32>,
    pub base: Option<(u32, u32)>,
}

/// The material of face `f`, `0` for a face without one.
pub open spec fn material_of(mats: Seq<u32>, f: int) -> u32 {
    if 0 <= f < mats.len() {
        mats[f]
    } else {
        0
    }
}

/// The link to face `f` across the edge `top_a - top_b` of the top face `top`
/// (material `top_mat`): none when `f` is the top face, a selected face, no face,
/// or not a quad.
pub open spec fn side_link_spec(
    fv: Seq<Seq<u32>>,
    mats: Seq<u32>,
    sel: Seq<bool>,
    top: u32,
    top_a: u32,
    top_b: u32,
    top_mat: u32,
    f: u32,
) -> Option<SideLink> {
    if f == top || (f < sel.len() && sel[f as int]) || f >= fv.len() || fv[f as int].len() != 4 {
        None
    } else {
        Some(
            SideLink {
                side: f,
                material_sync: if material_of(mats, f as int) != top_mat {
                    Some(top_mat)
                } else {
                    None
                },
                base: side_base_spec(fv[f as int], top_a, top_b),
            },
        )
    }
}

/// The side links of the faces `linked` on an edge, in their order.
pub open spec fn side_links_spec(
    fv: Seq<Seq<u32>>,
    mats: Seq<u32>,
    sel: Seq<bool>,
    top: u32,
    top_a: u32,
    top_b: u32,
    top_mat: u32,
    linked: Seq<(u32, usize)>,
) -> Seq<SideLink>
    decreases linked.len(),
{
    if linked.len() == 0 {
        seq![]
    } else {
        let rest = side_links_spec(fv, mats, sel, top, top_a, top_b, top_mat, linked.drop_last());
        match side_link_spec(fv, mats, sel, top, top_a, top_b, top_mat, linked.last().0) {
            Some(l) => rest.push(l),
            None => rest,
        }
    }
}

/// The side faces across the edge `top_a - top_b` of the selected top face
/// `top` (material `top_material`), given the faces on that edge (`linked`,
/// from `face_edges`) and which faces are selected: each with the material
/// it must take over and its base corners (see `side_links_spec`).
pub fn side_links(
    face_vertices: &Vec<Vec<u32>>,
    face_materials: &Vec<u32>,
    is_selected: &Vec<bool>,
    top: u32,
    top_a: u32,
    top_b: u32,
    top_material: u32,
    linked: &Vec<(u32, usize)>,
) -> (r: Vec<SideLink>)
    ensures
        r@ == side_links_spec(
            faces_view(face_vertices@),
            face_materials@,
            is_selected@,
            top,
            top_a,
            top_b,
            top_material,
            linked@,
        ),
{
    let ghost fv = faces_view(face_vertices@);
    let mut r: Vec<SideLink> = Vec::new();
    let mut i: usize = 0;
    while i < linked.len()
        invariant
            i <= linked@.len(),
            fv == faces_view(face_vertices@),
            r@ == side_links_spec(fv, face_materials@, is_selected@, top, top_a, top_b, top_material, linked@.take(i as int)),
        decreases linked@.len() - i,
    {
        let f = linked[i].0;
        proof {
            assert(linked@.take(i as int + 1).drop_last() =~= linked@.take(i as int));
            assert(linked@.take(i as int + 1).last() == linked@[i as int]);
        }
        let fu = f as usize;
        let skip = f == top || (fu < is_selected.len() && is_selected[fu]) || fu >= face_vertices.len()
            || face_vertices[fu].len() != 4;
        if !skip {
            let mat = if fu < face_materials.len() { face_materials[fu] } else { 0 };
            let material_sync = if mat != top_material { Some(top_material) } else { None };
            let base = side_quad_base(&face_vertices[fu], top_a, top_b);
            r.push(SideLink { side: f, material_sync, base });
        }
        i += 1;
    }
    assert(linked@.take(linked@.len() as int) =~= linked@);
    r
}

/// The edges a side quad adds to the crease set: the top edge, the base edge
/// and the two side edges joining them.
pub open spec fn side_crease_spec(top_a: u32, top_b: u32, base_a: u32, base_b: u32) -> Seq<(u32, u32)> {
    seq![
        edge_key_spec(top_a, top_b),
        edge_key_spec(base_a, base_b),
        edge_key_spec(top_a, base_a),
        edge_key_spec(top_b, base_b),
    ]
}

/// The crease edges of a repaired side quad (see `side_crease_spec`).
pub fn side_crease_edges(top_a: u32, top_b: u32, base_a: u32, base_b: u32) -> (r: [(u32, u32); 4])
    ensures
        r@ == side_crease_spec(top_a, top_b, base_a, base_b),
{
    let r = [edge_key(top_a, top_b), edge_key(base_a, base_b), edge_key(top_a, base_a), edge_key(top_b, base_b)];
    assert(r@ =~= side_crease_spec(top_a, top_b, base_a, base_b));
    r
}

/// The keys of the edges of a face with corners `f`, in corner order.
pub open spec fn face_edge_keys_spec(f: Seq<u32>) -> Seq<(u32, u32)> {
    Seq::new(f.len(), |i: int| edge_key_spec(f[i], f[(i + 1) % (f.len() as int)]))
}

/// The keys of the edges of a face: the crease edges of a top face.
pub fn face_edge_keys(f: &Vec<u32>) -> (r: Vec<(u32, u32)>)
    ensures
        r@ == face_edge_keys_spec(f@),
{
    let n = f.len();
    let mut r: Vec<(u32, u32)> = Vec::new();
    let mut i: usize = 0;
    while i < n
        invariant
            i <= n,
            n == f@.len(),
            r@ == face_edge_keys_spec(f@).take(i as int),
        decreases n - i,
    {
        let k = edge_key(f[i], f[(i + 1) % n]);
        r.push(k);
        assert(face_edge_keys_spec(f@).take(i as int + 1) =~= face_edge_keys_spec(f@).take(i as int).push(k));
        i += 1;
    }
    assert(face_edge_keys_spec(f@).take(n as int) =~= face_edge_keys_spec(f@));
    r
}

} // verus!
