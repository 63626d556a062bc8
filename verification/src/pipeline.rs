//! Bookkeeping of the mesh processing pipeline: material resolution records,
//! per-face loop ranges and material names, source texture keys, statistics.
//!
//! Resolving material names against a texture atlas and remapping UVs belong
//! to the material and texture services; the pipeline feeds them the per-face
//! data computed here and records what they answer.
use vstd::prelude::*;
use crate::attributes::MaterialSlotId;
use crate::vecs::texts;

verus! {

/// A material slot of the output mesh as resolved against the atlas.
#[derive(Debug)]
pub struct ResolvedMaterialInfo {
    /// Material slot name before resolution.
    pub raw_name: String,
    /// Canonical resource location (e.g. `minecraft:block/stone`), when resolved.
    pub canonical_name: Option<String>,
    /// Atlas chunk index, -1 when standalone or unmapped.
    pub atlas_chunk_id: i32,
    /// Whether the material maps to an animated sprite strip.
    pub is_animated: bool,
}

/// Counts gathered by the pipeline.
#[derive(Debug, Clone, Copy, PartialEq, Eq, Structural)]
pub struct MeshProcessStats {
    pub input_vertices: usize,
    pub input_faces: usize,
    pub output_vertices: usize,
    pub output_faces: usize,
    pub resolved_slots: usize,
    pub unmapped_slots: usize,
}

impl Default for MeshProcessStats {
    fn default() -> (s: MeshProcessStats)
        ensures
            s == (MeshProcessStats {
                input_vertices: 0,
                input_faces: 0,
                output_vertices: 0,
                output_faces: 0,
                resolved_slots: 0,
                unmapped_slots: 0,
            }),
    {
        MeshProcessStats {
            input_vertices: 0,
            input_faces: 0,
            output_vertices: 0,
            output_faces: 0,
            resolved_slots: 0,
            unmapped_slots: 0,
        }
    }
}

impl ResolvedMaterialInfo {
    /// The record of a slot resolved to `canonical_name` in atlas chunk `atlas_chunk_id`.
    pub fn resolved(raw_name: &str, canonical_name: &str, atlas_chunk_id: i32, is_animated: bool) -> (r:
        ResolvedMaterialInfo)
        ensures
            r.raw_name@ == raw_name@,
            r.canonical_name matches Some(c) && c@ == canonical_name@,
            r.atlas_chunk_id == atlas_chunk_id,
            r.is_animated == is_animated,
    {
        ResolvedMaterialInfo {
            raw_name: raw_name.to_owned(),
            canonical_name: Some(canonical_name.to_owned()),
            atlas_chunk_id,
            is_animated,
        }
    }

    /// The record of a slot left unmapped: no canonical name, chunk -1, not animated.
    pub fn unmapped(raw_name: &str) -> (r: ResolvedMaterialInfo)
        ensures
            r.raw_name@ == raw_name@,
            r.canonical_name is None,
            r.atlas_chunk_id == -1,
            !r.is_animated,
    {
        ResolvedMaterialInfo { raw_name: raw_name.to_owned(), canonical_name: None, atlas_chunk_id: -1, is_animated: false }
    }
}

/// UV loops per face: the UV count shared evenly among the faces when it divides
/// evenly, four (a quad) otherwise.
pub open spec fn loops_per_face(face_count: int, total_uvs: int) -> u32 {
    if face_count > 0 && total_uvs % face_count == 0 {
        (total_uvs / face_count) as u32
    } else {
        4
    }
}

/// The UV loop range `(start, count)` of each face, faces laid out one after the
/// other with `loops_per_face` loops each.
pub fn face_loop_ranges(face_count: usize, total_uvs: usize) -> (r: Vec<(u32, u32)>)
    requires
        face_count <= u32::MAX + 1,
        face_count > 0 ==> (face_count - 1) * loops_per_face(face_count as int, total_uvs as int) <= u32::MAX,
    ensures
        r@.len() == face_count,
        forall|i: int|
            0 <= i < face_count ==> #[trigger] r@[i] == ((i * loops_per_face(face_count as int, total_uvs as int)) as u32,
                loops_per_face(face_count as int, total_uvs as int)),
{
    #[verifier::truncate]
    let loops: u32 = if face_count > 0 && total_uvs % face_count == 0 {
        (total_uvs / face_count) as u32
    } else {
        4
    };
    let mut r: Vec<(u32, u32)> = Vec::new();
    let mut i: usize = 0;
    while i < face_count
        invariant
            i <= face_count,
            face_count <= u32::MAX + 1,
            loops == loops_per_face(face_count as int, total_uvs as int),
            face_count > 0 ==> (face_count - 1) * loops <= u32::MAX,
            r@.len() == i,
            forall|j: int| 0 <= j < i ==> #[trigger] r@[j] == ((j * loops) as u32, loops),
        decreases face_count - i,
    {
        assert(i * loops <= (face_count - 1) * loops) by (nonlinear_arith)
            requires
                i < face_count,
        ;
        let start = (i as u32) * loops;
        r.push((start, loops));
        i += 1;
    }
    r
}

/// The material name of each face: the name its slot indexes, empty when the
/// slot has no name.
pub open spec fn face_names_spec(face_materials: Seq<MaterialSlotId>, names: Seq<Seq<char>>) -> Seq<Seq<char>> {
    face_materials.map_values(
        |m: MaterialSlotId|
            if (m as int) < names.len() {
                names[m as int]
            } else {
                Seq::<char>::empty()
            },
    )
}

/// The material name of each face.
pub fn per_face_material_names(face_materials: &Vec<MaterialSlotId>, material_names: &Vec<String>) -> (r: Vec<
    String,
>)
    ensures
        texts(r@) == face_names_spec(face_materials@, texts(material_names@)),
{
    let mut r: Vec<String> = Vec::new();
    let mut i: usize = 0;
    while i < face_materials.len()
        invariant
            i <= face_materials.len(),
            r@.len() == i,
            forall|j: int|
                0 <= j < i ==> (#[trigger] r@[j])@ == face_names_spec(face_materials@, texts(material_names@))[j],
        decreases face_materials.len() - i,
    {
        let m = face_materials[i] as usize;
        let name = if m < material_names.len() {
            material_names[m].clone()
        } else {
            String::new()
        };
        r.push(name);
        i += 1;
    }
    assert(texts(r@) =~= face_names_spec(face_materials@, texts(material_names@)));
    r
}

/// The canonical texture key of each face: that of its slot's record when the
/// record exists and was resolved, empty otherwise.
pub open spec fn source_keys_spec(face_materials: Seq<MaterialSlotId>, resolved: Seq<ResolvedMaterialInfo>) -> Seq<
    Seq<char>,
> {
    face_materials.map_values(
        |m: MaterialSlotId|
            if (m as int) < resolved.len() && resolved[m as int].canonical_name is Some {
                resolved[m as int].canonical_name.unwrap()@
            } else {
                Seq::<char>::empty()
            },
    )
}

/// The canonical texture key of each face.
pub fn source_texture_keys(face_materials: &Vec<MaterialSlotId>, resolved: &Vec<ResolvedMaterialInfo>) -> (r: Vec<
    String,
>)
    ensures
        texts(r@) == source_keys_spec(face_materials@, resolved@),
{
    let mut r: Vec<String> = Vec::new();
    let mut i: usize = 0;
    while i < face_materials.len()
        invariant
            i <= face_materials.len(),
            r@.len() == i,
            forall|j: int| 0 <= j < i ==> (#[trigger] r@[j])@ == source_keys_spec(face_materials@, resolved@)[j],
        decreases face_materials.len() - i,
    {
        let m = face_materials[i] as usize;
        let key = if m < resolved.len() {
            match &resolved[m].canonical_name {
                Some(c) => c.clone(),
                None => String::new(),
            }
        } else {
            String::new()
        };
        r.push(key);
        i += 1;
    }
    assert(texts(r@) =~= source_keys_spec(face_materials@, resolved@));
    r
}

/// Whether some key is not empty.
pub fn any_nonempty(keys: &Vec<String>) -> (b: bool)
    ensures
        b == exists|i: int| 0 <= i < keys@.len() && keys@[i]@.len() > 0,
{
    let mut i: usize = 0;
    while i < keys.len()
        invariant
            i <= keys.len(),
            forall|j: int| 0 <= j < i ==> keys@[j]@.len() == 0,
        decreases keys.len() - i,
    {
        if !keys[i].as_str().is_empty() {
            assert(keys@[i as int]@.len() > 0);
            return true;
        }
        i += 1;
    }
    false
}

} // verus!
