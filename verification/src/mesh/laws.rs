//! Properties of mesh buffers that hold across operations.
use vstd::prelude::*;
use crate::attributes::{MaterialSlotId, TintIndex};
use crate::geometry::Quad;
use crate::mesh::{
    attr_insert, attr_merge, attr_merge_one, attr_pos, attr_remove, attrs_unique, empty_mesh,
    indices_valid, lemma_attr_pos_range, mesh_appended, quad_appended, quad_indices, shifted,
    MeshAttrView, MeshView,
};

verus! {

/// Appending a quad adds four vertices, six indices (two triangles) and one face,
/// and keeps every index referring to a vertex.
pub proof fn lemma_quad_append_counts(m: MeshView, q: Quad, material: MaterialSlotId, tint: TintIndex)
    requires
        m.positions.len() + 3 <= u32::MAX,
    ensures
        quad_appended(m, q, material, tint).positions.len() == m.positions.len() + 4,
        quad_appended(m, q, material, tint).normals.len() == m.normals.len() + 4,
        quad_appended(m, q, material, tint).uvs.len() == m.uvs.len() + 4,
        quad_appended(m, q, material, tint).indices.len() == m.indices.len() + 6,
        quad_appended(m, q, material, tint).indices.len() / 3 == m.indices.len() / 3 + 2,
        quad_appended(m, q, material, tint).face_materials.len() == m.face_materials.len() + 1,
        indices_valid(m) ==> indices_valid(quad_appended(m, q, material, tint)),
{
    let r = quad_appended(m, q, material, tint);
    let b = m.positions.len() as int;
    assert(quad_indices(b).len() == 6);
    if indices_valid(m) {
        assert forall|i: int| 0 <= i < r.indices.len() implies (#[trigger] r.indices[i]) < r.positions.len() by {
            if i >= m.indices.len() {
                assert(r.indices[i] == quad_indices(b)[i - m.indices.len()]);
            }
        }
    }
}

/// Appending a mesh adds up the vertex, index and face counts; when both meshes
/// have every index referring to a vertex, so does the result.
pub proof fn lemma_mesh_append_counts(m: MeshView, o: MeshView)
    requires
        forall|i: int| 0 <= i < o.indices.len() ==> m.positions.len() + (#[trigger] o.indices[i]) <= u32::MAX,
    ensures
        mesh_appended(m, o).positions.len() == m.positions.len() + o.positions.len(),
        mesh_appended(m, o).indices.len() == m.indices.len() + o.indices.len(),
        mesh_appended(m, o).face_materials.len() == m.face_materials.len() + o.face_materials.len(),
        indices_valid(m) && indices_valid(o) ==> indices_valid(mesh_appended(m, o)),
{
    let r = mesh_appended(m, o);
    let b = m.positions.len() as int;
    if indices_valid(m) && indices_valid(o) {
        assert forall|i: int| 0 <= i < r.indices.len() implies (#[trigger] r.indices[i]) < r.positions.len() by {
            if i >= m.indices.len() {
                let k = i - m.indices.len();
                assert(r.indices[i] == shifted(o.indices, b)[k]);
                assert(o.indices[k] < o.positions.len());
            }
        }
    }
}

proof fn lemma_merge_empty(s: Seq<MeshAttrView>, o: Seq<MeshAttrView>)
    requires
        o.len() == 0,
    ensures
        attr_merge(s, o) == s,
{
}

/// Appending the empty mesh leaves a mesh as it is.
pub proof fn lemma_append_empty_right(m: MeshView)
    ensures
        mesh_appended(m, empty_mesh()) == m,
{
    let r = mesh_appended(m, empty_mesh());
    lemma_merge_empty(m.attributes, Seq::empty());
    assert(r.positions =~= m.positions);
    assert(r.normals =~= m.normals);
    assert(r.uvs =~= m.uvs);
    assert(r.indices =~= m.indices);
    assert(r.face_materials =~= m.face_materials);
    assert(r.face_tint_indices =~= m.face_tint_indices);
}

proof fn lemma_merge_into_empty(o: Seq<MeshAttrView>, k: int)
    requires
        attrs_unique(o),
        0 <= k <= o.len(),
    ensures
        attr_merge(Seq::empty(), o.take(k)) == o.take(k),
    decreases k,
{
    if k > 0 {
        lemma_merge_into_empty(o, k - 1);
        let prev = o.take(k - 1);
        assert(o.take(k).drop_last() == prev);
        lemma_attr_pos_range(prev, o[k - 1].name);
        if attr_pos(prev, o[k - 1].name) >= 0 {
            assert(prev[attr_pos(prev, o[k - 1].name)] == o[attr_pos(prev, o[k - 1].name)]);
        }
        assert(attr_merge_one(prev, o[k - 1]) == prev.push(o[k - 1]));
        assert(prev.push(o[k - 1]) =~= o.take(k));
    }
}

/// Appending a mesh whose attribute names are distinct to an empty mesh gives
/// that mesh back.
pub proof fn lemma_append_to_empty(o: MeshView)
    requires
        attrs_unique(o.attributes),
        forall|i: int| 0 <= i < o.indices.len() ==> (#[trigger] o.indices[i]) <= u32::MAX,
    ensures
        mesh_appended(empty_mesh(), o) == o,
{
    let r = mesh_appended(empty_mesh(), o);
    lemma_merge_into_empty(o.attributes, o.attributes.len() as int);
    assert(o.attributes.take(o.attributes.len() as int) == o.attributes);
    assert(r.positions =~= o.positions);
    assert(r.normals =~= o.normals);
    assert(r.uvs =~= o.uvs);
    assert(r.indices =~= o.indices);
    assert(r.face_materials =~= o.face_materials);
    assert(r.face_tint_indices =~= o.face_tint_indices);
}

/// After adding an attribute, looking up its name gives it back.
pub proof fn lemma_attr_insert_then_get(s: Seq<MeshAttrView>, a: MeshAttrView)
    ensures
        attr_pos(attr_insert(s, a), a.name) >= 0,
        attr_insert(s, a)[attr_pos(attr_insert(s, a), a.name)] == a,
{
    let r = attr_insert(s, a);
    lemma_attr_pos_range(s, a.name);
    lemma_attr_pos_range(r, a.name);
    let p = attr_pos(s, a.name);
    if p >= 0 {
        assert(r[p] == a);
        if attr_pos(r, a.name) != p {
            assert(r[attr_pos(r, a.name)].name == a.name);
            lemma_first_match(s, a.name, p);
            lemma_first_match(r, a.name, attr_pos(r, a.name));
        }
    } else {
        assert(r[s.len() as int] == a);
        lemma_first_match(r, a.name, attr_pos(r, a.name));
    }
}

/// The position of a name is the first index holding it.
proof fn lemma_first_match(s: Seq<MeshAttrView>, name: Seq<char>, p: int)
    requires
        p == attr_pos(s, name),
        p >= 0,
    ensures
        forall|i: int| 0 <= i < p ==> s[i].name != name,
    decreases s.len(),
{
    let front = s.drop_last();
    lemma_attr_pos_range(front, name);
    if attr_pos(front, name) >= 0 {
        lemma_first_match(front, name, p);
        assert forall|i: int| 0 <= i < p implies s[i].name != name by {
            assert(front[i] == s[i]);
        }
    } else {
        assert forall|i: int| 0 <= i < p implies s[i].name != name by {
            assert(front[i] == s[i]);
        }
    }
}

/// Adding an attribute leaves the lookup of every other name as it was.
pub proof fn lemma_attr_insert_other(s: Seq<MeshAttrView>, a: MeshAttrView, name: Seq<char>)
    requires
        name != a.name,
    ensures
        attr_pos(s, name) < 0 ==> attr_pos(attr_insert(s, a), name) < 0,
        attr_pos(s, name) >= 0 ==> attr_pos(attr_insert(s, a), name) >= 0 && attr_insert(s, a)[attr_pos(
            attr_insert(s, a),
            name,
        )] == s[attr_pos(s, name)],
{
    let r = attr_insert(s, a);
    lemma_attr_pos_range(s, name);
    lemma_attr_pos_range(r, name);
    let q = attr_pos(r, name);
    let p = attr_pos(s, name);
    lemma_attr_pos_range(s, a.name);
    let pa = attr_pos(s, a.name);
    if q >= 0 {
        assert(q < s.len()) by {
            if q >= s.len() {
                assert(r[q] == a);
            }
        }
        assert(r[q] == s[q]) by {
            if pa >= 0 && q == pa {
                assert(r[q] == a);
            }
        }
        lemma_first_match(r, name, q);
        assert(p >= 0);
        lemma_first_match(s, name, p);
        if p < q {
            assert(r[p] == s[p]) by {
                if pa >= 0 && p == pa {
                    assert(s[pa].name == a.name);
                }
            }
        }
    } else if p >= 0 {
        assert(r[p] == s[p]) by {
            if pa >= 0 && p == pa {
                assert(s[pa].name == a.name);
            }
        }
    }
}

/// Adding an attribute keeps the attribute names distinct.
pub proof fn lemma_attr_insert_unique(s: Seq<MeshAttrView>, a: MeshAttrView)
    requires
        attrs_unique(s),
    ensures
        attrs_unique(attr_insert(s, a)),
{
    lemma_attr_pos_range(s, a.name);
    let r = attr_insert(s, a);
    assert forall|i: int, j: int| 0 <= i < j < r.len() implies r[i].name != r[j].name by {
        if j == s.len() {
            assert(s[i].name != a.name);
        }
    }
}

/// Removing an attribute from distinct names leaves no attribute of that name,
/// and the names distinct.
pub proof fn lemma_attr_remove_absent(s: Seq<MeshAttrView>, name: Seq<char>)
    requires
        attrs_unique(s),
    ensures
        attr_pos(attr_remove(s, name), name) < 0,
        attrs_unique(attr_remove(s, name)),
{
    lemma_attr_pos_range(s, name);
    let r = attr_remove(s, name);
    let p = attr_pos(s, name);
    lemma_attr_pos_range(r, name);
    if p >= 0 {
        assert forall|i: int| 0 <= i < r.len() implies r[i].name != name by {
            if i < p {
                assert(r[i] == s[i]);
            } else {
                assert(r[i] == s[i + 1]);
            }
        }
        assert forall|i: int, j: int| 0 <= i < j < r.len() implies r[i].name != r[j].name by {
            let si = if i < p { i } else { i + 1 };
            let sj = if j < p { j } else { j + 1 };
            assert(r[i] == s[si]);
            assert(r[j] == s[sj]);
        }
    }
}

/// Merging attributes into distinct names keeps them distinct.
pub proof fn lemma_attr_merge_unique(s: Seq<MeshAttrView>, o: Seq<MeshAttrView>)
    requires
        attrs_unique(s),
    ensures
        attrs_unique(attr_merge(s, o)),
    decreases o.len(),
{
    if o.len() > 0 {
        lemma_attr_merge_unique(s, o.drop_last());
        let t = attr_merge(s, o.drop_last());
        let a = o.last();
        lemma_attr_pos_range(t, a.name);
        let r = attr_merge_one(t, a);
        assert forall|i: int, j: int| 0 <= i < j < r.len() implies r[i].name != r[j].name by {
            if j == t.len() {
                assert(t[i].name != a.name);
            }
        }
    }
}

} // verus!
