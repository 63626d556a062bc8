//! Flat, contiguous mesh buffers for direct transfer to graphics APIs and 3D hosts.
//!
//! Floating-point components are stored as their IEEE-754 single-precision bit
//! patterns: the buffer logic only moves them.
use vstd::prelude::*;
use crate::attributes::{
    flat2, flat3, flat4, flatten2, flatten3, flatten4, values_concat, FaceAttributes,
    MaterialSlotId, MeshAttrView, MeshAttribute, TintIndex,
};
use crate::geometry::Quad;
use crate::text::str_eq;
use crate::vecs::{append_copies, copy_vec, texts};

pub mod buffers;
pub mod buffer_laws;
pub mod laws;

verus! {

/// Vertex, index and face buffers of a mesh, with named custom attributes.
#[derive(Debug)]
pub struct MeshData {
    /// Vertex positions `[x, y, z]`.
    pub positions: Vec<[u32; 3]>,
    /// Vertex normals `[nx, ny, nz]`.
    pub normals: Vec<[u32; 3]>,
    /// Triangle indices, three per triangle.
    pub indices: Vec<u32>,
    /// Primary UVs `[u, v]`.
    pub uvs: Vec<[u32; 2]>,
    /// Secondary UVs, when present.
    pub secondary_uvs: Option<Vec<[u32; 2]>>,
    /// Vertex RGBA colors, when present.
    pub colors: Option<Vec<[u32; 4]>>,
    /// Material slot per quad face.
    pub face_materials: Vec<MaterialSlotId>,
    /// Tint index per quad face.
    pub face_tint_indices: Vec<TintIndex>,
    /// Custom attributes, looked up by name.
    pub custom_attributes: Vec<MeshAttribute>,
}

/// The mathematical contents of a `MeshData`.
pub struct MeshView {
    pub positions: Seq<[u32; 3]>,
    pub normals: Seq<[u32; 3]>,
    pub indices: Seq<u32>,
    pub uvs: Seq<[u32; 2]>,
    pub secondary_uvs: Option<Seq<[u32; 2]>>,
    pub colors: Option<Seq<[u32; 4]>>,
    pub face_materials: Seq<MaterialSlotId>,
    pub face_tint_indices: Seq<TintIndex>,
    pub attributes: Seq<MeshAttrView>,
}

/// The views of a sequence of attributes.
pub open spec fn attrs_view(s: Seq<MeshAttribute>) -> Seq<MeshAttrView> {
    s.map_values(|a: MeshAttribute| a@)
}

/// The view of an optional vector.
pub open spec fn opt_view<T>(o: Option<Vec<T>>) -> Option<Seq<T>> {
    match o {
        Some(v) => Some(v@),
        None => None,
    }
}

impl View for MeshData {
    type V = MeshView;

    open spec fn view(&self) -> MeshView {
        MeshView {
            positions: self.positions@,
            normals: self.normals@,
            indices: self.indices@,
            uvs: self.uvs@,
            secondary_uvs: opt_view(self.secondary_uvs),
            colors: opt_view(self.colors),
            face_materials: self.face_materials@,
            face_tint_indices: self.face_tint_indices@,
            attributes: attrs_view(self.custom_attributes@),
        }
    }
}

/// The mesh with no vertex, index, face or attribute.
pub open spec fn empty_mesh() -> MeshView {
    MeshView {
        positions: Seq::empty(),
        normals: Seq::empty(),
        indices: Seq::empty(),
        uvs: Seq::empty(),
        secondary_uvs: None,
        colors: None,
        face_materials: Seq::empty(),
        face_tint_indices: Seq::empty(),
        attributes: Seq::empty(),
    }
}

/// Position of the first attribute named `name`, or -1.
pub open spec fn attr_pos(s: Seq<MeshAttrView>, name: Seq<char>) -> int
    decreases s.len(),
{
    if s.len() == 0 {
        -1
    } else {
        let p = attr_pos(s.drop_last(), name);
        if p >= 0 {
            p
        } else if s.last().name == name {
            s.len() - 1
        } else {
            -1
        }
    }
}

/// No two attributes share a name.
pub open spec fn attrs_unique(s: Seq<MeshAttrView>) -> bool {
    forall|i: int, j: int| 0 <= i < j < s.len() ==> s[i].name != s[j].name
}

/// Adds `a`, replacing the attribute of the same name if there is one.
pub open spec fn attr_insert(s: Seq<MeshAttrView>, a: MeshAttrView) -> Seq<MeshAttrView> {
    let p = attr_pos(s, a.name);
    if p >= 0 {
        s.update(p, a)
    } else {
        s.push(a)
    }
}

/// Removes the attribute named `name`, if there is one.
pub open spec fn attr_remove(s: Seq<MeshAttrView>, name: Seq<char>) -> Seq<MeshAttrView> {
    let p = attr_pos(s, name);
    if p >= 0 {
        s.remove(p)
    } else {
        s
    }
}

/// Merges `a` into the attributes: an attribute of the same name and domain gets
/// the elements of `a` appended (when the element types agree); one of the same
/// name in another domain is left as it is; otherwise `a` is added.
pub open spec fn attr_merge_one(s: Seq<MeshAttrView>, a: MeshAttrView) -> Seq<MeshAttrView> {
    let p = attr_pos(s, a.name);
    if p >= 0 {
        if s[p].domain == a.domain {
            s.update(p, MeshAttrView { values: values_concat(s[p].values, a.values), ..s[p] })
        } else {
            s
        }
    } else {
        s.push(a)
    }
}

/// Merges each attribute of `o` in turn into `s`.
pub open spec fn attr_merge(s: Seq<MeshAttrView>, o: Seq<MeshAttrView>) -> Seq<MeshAttrView>
    decreases o.len(),
{
    if o.len() == 0 {
        s
    } else {
        attr_merge_one(attr_merge(s, o.drop_last()), o.last())
    }
}

/// The six indices of the two triangles (0-1-2 and 0-2-3) of a quad whose first
/// vertex has index `b`.
pub open spec fn quad_indices(b: int) -> Seq<u32> {
    seq![b as u32, (b + 1) as u32, (b + 2) as u32, b as u32, (b + 2) as u32, (b + 3) as u32]
}

/// Every index is shifted by `base`.
pub open spec fn shifted(idx: Seq<u32>, base: int) -> Seq<u32> {
    idx.map_values(|i: u32| (i + base) as u32)
}

/// `Some(a + b)` when `b` is present (`a` counting as empty when absent); `a` otherwise.
pub open spec fn opt_concat<T>(a: Option<Seq<T>>, b: Option<Seq<T>>) -> Option<Seq<T>> {
    match b {
        Some(y) => match a {
            Some(x) => Some(x + y),
            None => Some(y),
        },
        None => a,
    }
}

/// `m` with the quad `q` appended: its four vertices, the quad normal for each,
/// its UVs, the two triangles 0-1-2 and 0-2-3, and the face's material and tint.
pub open spec fn quad_appended(m: MeshView, q: Quad, material: MaterialSlotId, tint: TintIndex) -> MeshView {
    MeshView {
        positions: m.positions + q.vertices@,
        normals: m.normals + seq![q.normal, q.normal, q.normal, q.normal],
        uvs: m.uvs + q.uvs@,
        indices: m.indices + quad_indices(m.positions.len() as int),
        face_materials: m.face_materials.push(material),
        face_tint_indices: m.face_tint_indices.push(tint),
        ..m
    }
}

/// `m` followed by `o`: buffers concatenated, the indices of `o` shifted by the
/// vertex count of `m`, optional buffers concatenated where `o` has them, and the
/// attributes of `o` merged in turn.
pub open spec fn mesh_appended(m: MeshView, o: MeshView) -> MeshView {
    MeshView {
        positions: m.positions + o.positions,
        normals: m.normals + o.normals,
        uvs: m.uvs + o.uvs,
        indices: m.indices + shifted(o.indices, m.positions.len() as int),
        secondary_uvs: opt_concat(m.secondary_uvs, o.secondary_uvs),
        colors: opt_concat(m.colors, o.colors),
        face_materials: m.face_materials + o.face_materials,
        face_tint_indices: m.face_tint_indices + o.face_tint_indices,
        attributes: attr_merge(m.attributes, o.attributes),
    }
}

/// Every index refers to a vertex.
pub open spec fn indices_valid(m: MeshView) -> bool {
    forall|i: int| 0 <= i < m.indices.len() ==> (#[trigger] m.indices[i]) < m.positions.len()
}

/// The same optional buffer emptied.
pub open spec fn opt_cleared<T>(o: Option<Seq<T>>) -> Option<Seq<T>> {
    match o {
        Some(_) => Some(Seq::empty()),
        None => None,
    }
}

proof fn lemma_attr_pos_first(s: Seq<MeshAttrView>, name: Seq<char>, j: int)
    requires
        0 <= j <= s.len(),
        forall|m: int| 0 <= m < j ==> s[m].name != name,
        j == s.len() || s[j].name == name,
    ensures
        attr_pos(s, name) == (if j < s.len() { j } else { -1 }),
    decreases s.len(),
{
    if s.len() > 0 {
        let front = s.drop_last();
        if j < s.len() - 1 {
            lemma_attr_pos_first(front, name, j);
        } else {
            assert forall|m: int| 0 <= m < front.len() implies front[m].name != name by {
                assert(front[m] == s[m]);
            }
            lemma_attr_pos_first(front, name, front.len() as int);
        }
    }
}

/// The position of a name is -1 or an index holding that name.
pub proof fn lemma_attr_pos_range(s: Seq<MeshAttrView>, name: Seq<char>)
    ensures
        -1 <= attr_pos(s, name) < s.len(),
        attr_pos(s, name) >= 0 ==> s[attr_pos(s, name)].name == name,
        attr_pos(s, name) < 0 ==> forall|i: int| 0 <= i < s.len() ==> s[i].name != name,
    decreases s.len(),
{
    if s.len() > 0 {
        let front = s.drop_last();
        lemma_attr_pos_range(front, name);
        if attr_pos(s, name) < 0 {
            assert forall|i: int| 0 <= i < s.len() implies s[i].name != name by {
                if i < front.len() {
                    assert(front[i] == s[i]);
                }
            }
        }
    }
}

/// Replacing an attribute replaces its view.
pub broadcast proof fn lemma_attrs_view_update(v: Seq<MeshAttribute>, i: int, x: MeshAttribute)
    requires
        0 <= i < v.len(),
    ensures
        #[trigger] attrs_view(v.update(i, x)) == attrs_view(v).update(i, x@),
{
    assert(attrs_view(v.update(i, x)) =~= attrs_view(v).update(i, x@));
}

/// Index of the first attribute named `name`.
fn find_attr(v: &Vec<MeshAttribute>, name: &str) -> (r: Option<usize>)
    ensures
        match r {
            Some(i) => i < v@.len() && attr_pos(attrs_view(v@), name@) == i,
            None => attr_pos(attrs_view(v@), name@) == -1,
        },
{
    let ghost s = attrs_view(v@);
    let mut i: usize = 0;
    while i < v.len()
        invariant
            i <= v.len(),
            s == attrs_view(v@),
            forall|m: int| 0 <= m < i ==> s[m].name != name@,
        decreases v.len() - i,
    {
        if str_eq(v[i].name.as_str(), name) {
            proof {
                lemma_attr_pos_first(s, name@, i as int);
            }
            return Some(i);
        }
        i += 1;
    }
    proof {
        lemma_attr_pos_first(s, name@, v.len() as int);
    }
    None
}

impl MeshData {
    /// A new, empty mesh.
    pub fn new() -> (m: MeshData)
        ensures
            m@ == empty_mesh(),
    {
        let m = MeshData {
            positions: Vec::new(),
            normals: Vec::new(),
            indices: Vec::new(),
            uvs: Vec::new(),
            secondary_uvs: None,
            colors: None,
            face_materials: Vec::new(),
            face_tint_indices: Vec::new(),
            custom_attributes: Vec::new(),
        };
        assert(attrs_view(m.custom_attributes@) =~= Seq::empty());
        m
    }

    /// A new, empty mesh with room reserved for the given numbers of vertices,
    /// indices and faces.
    pub fn with_capacity(num_vertices: usize, num_indices: usize, num_faces: usize) -> (m: MeshData)
        ensures
            m@ == empty_mesh(),
    {
        let m = MeshData {
            positions: Vec::with_capacity(num_vertices),
            normals: Vec::with_capacity(num_vertices),
            indices: Vec::with_capacity(num_indices),
            uvs: Vec::with_capacity(num_vertices),
            secondary_uvs: None,
            colors: None,
            face_materials: Vec::with_capacity(num_faces),
            face_tint_indices: Vec::with_capacity(num_faces),
            custom_attributes: Vec::new(),
        };
        assert(attrs_view(m.custom_attributes@) =~= Seq::empty());
        m
    }

    /// A copy with the same buffers and attributes.
    pub fn duplicate(&self) -> (r: MeshData)
        ensures
            r@ == self@,
    {
        let mut attrs: Vec<MeshAttribute> = Vec::new();
        let mut i: usize = 0;
        while i < self.custom_attributes.len()
            invariant
                i <= self.custom_attributes.len(),
                attrs_view(attrs@) == attrs_view(self.custom_attributes@).take(i as int),
            decreases self.custom_attributes.len() - i,
        {
            let ghost prev = attrs@;
            let d = self.custom_attributes[i].duplicate();
            attrs.push(d);
            assert(attrs_view(attrs@) =~= attrs_view(prev).push(d@));
            i += 1;
            assert(attrs_view(self.custom_attributes@).take(i as int) =~= attrs_view(
                self.custom_attributes@,
            ).take(i as int - 1).push(d@));
        }
        assert(attrs_view(self.custom_attributes@).take(i as int) =~= attrs_view(self.custom_attributes@));
        MeshData {
            positions: copy_vec(&self.positions),
            normals: copy_vec(&self.normals),
            indices: copy_vec(&self.indices),
            uvs: copy_vec(&self.uvs),
            secondary_uvs: match &self.secondary_uvs {
                Some(v) => Some(copy_vec(v)),
                None => None,
            },
            colors: match &self.colors {
                Some(v) => Some(copy_vec(v)),
                None => None,
            },
            face_materials: copy_vec(&self.face_materials),
            face_tint_indices: copy_vec(&self.face_tint_indices),
            custom_attributes: attrs,
        }
    }

    /// Number of vertices.
    pub fn vertex_count(&self) -> (n: usize)
        ensures
            n == self.positions@.len(),
    {
        self.positions.len()
    }

    /// Number of triangles.
    pub fn triangle_count(&self) -> (n: usize)
        ensures
            n == self.indices@.len() / 3,
    {
        self.indices.len() / 3
    }

    /// Number of quad-level faces (entries of `face_materials`).
    pub fn face_count(&self) -> (n: usize)
        ensures
            n == self.face_materials@.len(),
    {
        self.face_materials.len()
    }

    /// Whether the mesh has no vertex.
    pub fn is_empty(&self) -> (b: bool)
        ensures
            b == (self.positions@.len() == 0),
    {
        self.positions.len() == 0
    }

    /// Adds a custom attribute, replacing the one of the same name if any.
    pub fn add_custom_attribute(&mut self, attr: MeshAttribute)
        ensures
            final(self)@ == (MeshView {
                attributes: attr_insert(old(self)@.attributes, attr@),
                ..old(self)@
            }),
    {
        let ghost s = attrs_view(self.custom_attributes@);
        let ghost a = attr@;
        match find_attr(&self.custom_attributes, attr.name.as_str()) {
            Some(i) => {
                self.custom_attributes.set(i, attr);
                assert(attrs_view(self.custom_attributes@) =~= s.update(i as int, a));
            },
            None => {
                self.custom_attributes.push(attr);
                assert(attrs_view(self.custom_attributes@) =~= s.push(a));
            },
        }
    }

    /// The custom attribute named `name`, if any.
    pub fn get_custom_attribute(&self, name: &str) -> (r: Option<&MeshAttribute>)
        ensures
            attr_pos(self@.attributes, name@) >= 0 ==> r.is_some() && r.unwrap()@
                == self@.attributes[attr_pos(self@.attributes, name@)],
            attr_pos(self@.attributes, name@) < 0 ==> r.is_none(),
    {
        match find_attr(&self.custom_attributes, name) {
            Some(i) => Some(&self.custom_attributes[i]),
            None => None,
        }
    }

    /// Mutable access to the custom attribute named `name`, if any.
    pub fn get_custom_attribute_mut(&mut self, name: &str) -> (r: Option<&mut MeshAttribute>)
        ensures
            attr_pos(old(self)@.attributes, name@) < 0 ==> r.is_none() && final(self)@ == old(self)@,
            attr_pos(old(self)@.attributes, name@) >= 0 ==> r.is_some(),
            match r {
                Some(a) => {
                    &&& (*a)@ == old(self)@.attributes[attr_pos(old(self)@.attributes, name@)]
                    &&& final(self)@ == (MeshView {
                        attributes: old(self)@.attributes.update(
                            attr_pos(old(self)@.attributes, name@),
                            (*final(a))@,
                        ),
                        ..old(self)@
                    })
                },
                None => true,
            },
    {
        broadcast use lemma_attrs_view_update;

        match find_attr(&self.custom_attributes, name) {
            Some(i) => Some(&mut self.custom_attributes[i]),
            None => None,
        }
    }

    /// Removes the custom attribute named `name` and hands it back, if there is one.
    pub fn remove_custom_attribute(&mut self, name: &str) -> (r: Option<MeshAttribute>)
        ensures
            final(self)@ == (MeshView {
                attributes: attr_remove(old(self)@.attributes, name@),
                ..old(self)@
            }),
            attr_pos(old(self)@.attributes, name@) >= 0 ==> r.is_some() && r.unwrap()@
                == old(self)@.attributes[attr_pos(old(self)@.attributes, name@)],
            attr_pos(old(self)@.attributes, name@) < 0 ==> r.is_none(),
    {
        let ghost s = attrs_view(self.custom_attributes@);
        match find_attr(&self.custom_attributes, name) {
            Some(i) => {
                let a = self.custom_attributes.remove(i);
                assert(attrs_view(self.custom_attributes@) =~= s.remove(i as int));
                Some(a)
            },
            None => None,
        }
    }

    /// Whether a custom attribute named `name` exists.
    pub fn has_custom_attribute(&self, name: &str) -> (b: bool)
        ensures
            b == (attr_pos(self@.attributes, name@) >= 0),
    {
        find_attr(&self.custom_attributes, name).is_some()
    }

    /// The names of the custom attributes.
    pub fn custom_attribute_names(&self) -> (r: Vec<String>)
        ensures
            texts(r@) == self@.attributes.map_values(|a: MeshAttrView| a.name),
    {
        let mut r: Vec<String> = Vec::new();
        let mut i: usize = 0;
        while i < self.custom_attributes.len()
            invariant
                i <= self.custom_attributes.len(),
                r@.len() == i,
                forall|j: int| 0 <= j < i ==> r@[j]@ == self.custom_attributes@[j].name@,
            decreases self.custom_attributes.len() - i,
        {
            r.push(self.custom_attributes[i].name.clone());
            i += 1;
        }
        assert(texts(r@) =~= self@.attributes.map_values(|a: MeshAttrView| a.name));
        r
    }

    /// Empties every buffer and removes every custom attribute; present optional
    /// buffers stay present, empty.
    pub fn clear(&mut self)
        ensures
            final(self)@ == (MeshView {
                secondary_uvs: opt_cleared(old(self)@.secondary_uvs),
                colors: opt_cleared(old(self)@.colors),
                ..empty_mesh()
            }),
    {
        self.positions.clear();
        self.normals.clear();
        self.indices.clear();
        self.uvs.clear();
        if let Some(sec) = &mut self.secondary_uvs {
            sec.clear();
        }
        if let Some(cols) = &mut self.colors {
            cols.clear();
        }
        self.face_materials.clear();
        self.face_tint_indices.clear();
        self.custom_attributes.clear();
        assert(attrs_view(self.custom_attributes@) =~= Seq::empty());
    }

    /// Appends a quad: its four vertices (each with the quad normal and its UV),
    /// the two triangles 0-1-2 and 0-2-3 over them, and the face's material and tint.
    pub fn append_quad(&mut self, quad: &Quad, attributes: &FaceAttributes)
        requires
            old(self)@.positions.len() + 3 <= u32::MAX,
        ensures
            final(self)@ == quad_appended(old(self)@, *quad, attributes.material_slot, attributes.tint_index),
    {
        let ghost old_positions = self.positions@;
        let ghost old_normals = self.normals@;
        let ghost old_uvs = self.uvs@;
        let ghost old_indices = self.indices@;
        let base = self.positions.len() as u32;
        let n = quad.normal;
        self.positions.push(quad.vertices[0]);
        self.positions.push(quad.vertices[1]);
        self.positions.push(quad.vertices[2]);
        self.positions.push(quad.vertices[3]);
        self.normals.push(n);
        self.normals.push(n);
        self.normals.push(n);
        self.normals.push(n);
        self.uvs.push(quad.uvs[0]);
        self.uvs.push(quad.uvs[1]);
        self.uvs.push(quad.uvs[2]);
        self.uvs.push(quad.uvs[3]);
        self.indices.push(base);
        self.indices.push(base + 1);
        self.indices.push(base + 2);
        self.indices.push(base);
        self.indices.push(base + 2);
        self.indices.push(base + 3);
        self.face_materials.push(attributes.material_slot);
        self.face_tint_indices.push(attributes.tint_index);
        assert(self.positions@ =~= old_positions + quad.vertices@);
        assert(self.normals@ =~= old_normals + seq![n, n, n, n]);
        assert(self.uvs@ =~= old_uvs + quad.uvs@);
        assert(self.indices@ =~= old_indices + quad_indices(old_positions.len() as int));
    }

    /// Appends another mesh: its buffers follow this mesh's, its indices shifted by
    /// this mesh's vertex count; its optional buffers are appended where present
    /// (starting from empty ones here when absent); its custom attributes are
    /// merged in turn (see `attr_merge_one`).
    pub fn append_mesh(&mut self, other: &MeshData)
        requires
            forall|i: int|
                0 <= i < other@.indices.len() ==> old(self)@.positions.len() + (#[trigger] other@.indices[i])
                    <= u32::MAX,
        ensures
            final(self)@ == mesh_appended(old(self)@, other@),
    {
        broadcast use lemma_attrs_view_update;

        let ghost start = self@;
        let base_len = self.positions.len();
        #[verifier::truncate]
        let base = base_len as u32;
        append_copies(&mut self.positions, &other.positions);
        append_copies(&mut self.normals, &other.normals);
        append_copies(&mut self.uvs, &other.uvs);

        let mut i: usize = 0;
        while i < other.indices.len()
            invariant
                i <= other.indices.len(),
                base_len == start.positions.len(),
                base_len <= u32::MAX ==> base == base_len,
                forall|k: int|
                    0 <= k < other@.indices.len() ==> start.positions.len() + (#[trigger] other@.indices[k])
                        <= u32::MAX,
                self.indices@ == start.indices + shifted(other@.indices.take(i as int), base_len as int),
                self.positions@ == start.positions + other@.positions,
                self.normals@ == start.normals + other@.normals,
                self.uvs@ == start.uvs + other@.uvs,
                opt_view(self.secondary_uvs) == start.secondary_uvs,
                opt_view(self.colors) == start.colors,
                self.face_materials@ == start.face_materials,
                self.face_tint_indices@ == start.face_tint_indices,
                attrs_view(self.custom_attributes@) == start.attributes,
            decreases other.indices.len() - i,
        {
            let idx = other.indices[i];
            assert(start.positions.len() + other@.indices[i as int] <= u32::MAX);
            self.indices.push(base + idx);
            i += 1;
            assert(shifted(other@.indices.take(i as int), base_len as int) =~= shifted(
                other@.indices.take(i as int - 1),
                base_len as int,
            ).push((idx + base_len) as u32));
        }
        assert(other@.indices.take(other@.indices.len() as int) == other@.indices);

        append_copies(&mut self.face_materials, &other.face_materials);
        append_copies(&mut self.face_tint_indices, &other.face_tint_indices);

        if let Some(other_sec) = &other.secondary_uvs {
            let mut sec = match self.secondary_uvs.take() {
                Some(v) => v,
                None => Vec::new(),
            };
            append_copies(&mut sec, other_sec);
            self.secondary_uvs = Some(sec);
        }
        if let Some(other_col) = &other.colors {
            let mut col = match self.colors.take() {
                Some(v) => v,
                None => Vec::new(),
            };
            append_copies(&mut col, other_col);
            self.colors = Some(col);
        }
        assert(opt_view(self.secondary_uvs) == opt_concat(start.secondary_uvs, other@.secondary_uvs));
        assert(opt_view(self.colors) == opt_concat(start.colors, other@.colors));
        let ghost o = attrs_view(other.custom_attributes@);
        assert(o.take(0) =~= Seq::<MeshAttrView>::empty());
        let mut j: usize = 0;
        while j < other.custom_attributes.len()
            invariant
                j <= other.custom_attributes.len(),
                o == attrs_view(other.custom_attributes@),
                attrs_view(self.custom_attributes@) == attr_merge(start.attributes, o.take(j as int)),
                self.indices@ == start.indices + shifted(other@.indices, base_len as int),
                self.positions@ == start.positions + other@.positions,
                self.normals@ == start.normals + other@.normals,
                self.uvs@ == start.uvs + other@.uvs,
                opt_view(self.secondary_uvs) == opt_concat(start.secondary_uvs, other@.secondary_uvs),
                opt_view(self.colors) == opt_concat(start.colors, other@.colors),
                self.face_materials@ == start.face_materials + other@.face_materials,
                self.face_tint_indices@ == start.face_tint_indices + other@.face_tint_indices,
            decreases other.custom_attributes.len() - j,
        {
            let ghost cur = attrs_view(self.custom_attributes@);
            let a = &other.custom_attributes[j];
            match find_attr(&self.custom_attributes, a.name.as_str()) {
                Some(p) => {
                    if self.custom_attributes[p].domain == a.domain {
                        self.custom_attributes[p].data.extend_from(&a.data);
                        assert(attrs_view(self.custom_attributes@) =~= cur.update(
                            p as int,
                            MeshAttrView { values: values_concat(cur[p as int].values, a.data@), ..cur[p as int] },
                        ));
                    }
                },
                None => {
                    self.custom_attributes.push(a.duplicate());
                    assert(attrs_view(self.custom_attributes@) =~= cur.push(a@));
                },
            }
            j += 1;
            assert(o.take(j as int).drop_last() == o.take(j as int - 1));
        }
        assert(o.take(o.len() as int) == o);
    }

    /// Positions as consecutive components `[x0, y0, z0, x1, ...]`.
    pub fn positions_flat(&self) -> (r: Vec<u32>)
        ensures
            r@ == flat3(self@.positions),
    {
        flatten3(&self.positions)
    }

    /// Normals as consecutive components `[nx0, ny0, nz0, nx1, ...]`.
    pub fn normals_flat(&self) -> (r: Vec<u32>)
        ensures
            r@ == flat3(self@.normals),
    {
        flatten3(&self.normals)
    }

    /// Primary UVs as consecutive components `[u0, v0, u1, v1, ...]`.
    pub fn uvs_flat(&self) -> (r: Vec<u32>)
        ensures
            r@ == flat2(self@.uvs),
    {
        flatten2(&self.uvs)
    }

    /// Colors as consecutive components `[r0, g0, b0, a0, ...]`, when present.
    pub fn colors_flat(&self) -> (r: Option<Vec<u32>>)
        ensures
            match self@.colors {
                Some(c) => r.is_some() && r.unwrap()@ == flat4(c),
                None => r.is_none(),
            },
    {
        match &self.colors {
            Some(c) => Some(flatten4(c)),
            None => None,
        }
    }
}

impl Clone for MeshData {
    fn clone(&self) -> (r: MeshData)
        ensures
            r@ == self@,
    {
        self.duplicate()
    }
}

impl Default for MeshData {
    fn default() -> (m: MeshData)
        ensures
            m@ == empty_mesh(),
    {
        MeshData::new()
    }
}

} // verus!
