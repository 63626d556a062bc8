use libmtk::subdivide::{grid_cell_indices, split_polygon_indices};
use libmtk::cull::mesh_cull::{candidates_fit, kept_corners_in_range};
use libmtk::attributes::{AttributeData, AttributeDomain, FaceAttributes, MeshAttribute};
use libmtk::cull::mesh_cull::{
    face_pair_action, face_vertex_indices, finish_mesh_cull, mesh_face_layout, resolve_face, FacePairAction,
};
use libmtk::direction::Direction;
use libmtk::geometry::{Aabb2d, Point2, Quad, F32_ONE_BITS, F32_ZERO_BITS};
use libmtk::constants::geometry::UNITS_PER_BLOCK;
use libmtk::mesh::MeshData;

fn bits(v: f32) -> u32 {
    v.to_bits()
}

fn b3(x: f32, y: f32, z: f32) -> [u32; 3] {
    [x.to_bits(), y.to_bits(), z.to_bits()]
}

fn b2(x: f32, y: f32) -> [u32; 2] {
    [x.to_bits(), y.to_bits()]
}

#[test]
fn test_mesh_append_quad() {
    let mut mesh = MeshData::new();
    let quad = Quad::unit_cube_face(Direction::Up);
    let attr = FaceAttributes { material_slot: 1, tint_index: 0, ..Default::default() };

    mesh.append_quad(&quad, &attr);
    assert_eq!(mesh.vertex_count(), 4);
    assert_eq!(mesh.triangle_count(), 2);
    assert_eq!(mesh.face_count(), 1);
    assert_eq!(mesh.face_materials[0], 1);
    assert_eq!(mesh.face_tint_indices[0], 0);

    let pos_flat = mesh.positions_flat();
    assert_eq!(pos_flat.len(), 12);
    assert_eq!(pos_flat[0], mesh.positions[0][0]);
    assert_eq!(pos_flat[1], mesh.positions[0][1]);
    assert_eq!(pos_flat[2], mesh.positions[0][2]);

    let norm_flat = mesh.normals_flat();
    assert_eq!(norm_flat.len(), 12);
    assert_eq!(f32::from_bits(norm_flat[0]), 0.0);
    assert_eq!(f32::from_bits(norm_flat[1]), 1.0);
    assert_eq!(f32::from_bits(norm_flat[2]), 0.0);

    let uvs_flat = mesh.uvs_flat();
    assert_eq!(uvs_flat.len(), 8);
}

#[test]
fn test_mesh_custom_attributes() {
    let mut mesh = MeshData::new();
    mesh.add_custom_attribute(MeshAttribute::new(
        "mtk_atlas_chunk_id",
        AttributeDomain::Face,
        AttributeData::Int32(vec![0, 1, 2]),
    ));
    mesh.add_custom_attribute(MeshAttribute::new(
        "mtk_source_texture_key",
        AttributeDomain::Face,
        AttributeData::String(vec!["minecraft:block/stone".to_string()]),
    ));

    assert!(mesh.has_custom_attribute("mtk_atlas_chunk_id"));
    assert_eq!(mesh.get_custom_attribute("mtk_atlas_chunk_id").unwrap().len(), 3);
    assert_eq!(mesh.get_custom_attribute("mtk_atlas_chunk_id").unwrap().as_bytes().unwrap().len(), 12);
    assert_eq!(mesh.get_custom_attribute("mtk_source_texture_key").unwrap().as_bytes(), None);

    let mut other = MeshData::new();
    other.add_custom_attribute(MeshAttribute::new(
        "mtk_atlas_chunk_id",
        AttributeDomain::Face,
        AttributeData::Int32(vec![3, 4]),
    ));

    mesh.append_mesh(&other);
    let merged_chunk_attr = mesh.get_custom_attribute("mtk_atlas_chunk_id").unwrap();
    assert_eq!(merged_chunk_attr.len(), 5);
    if let AttributeData::Int32(ref vals) = merged_chunk_attr.data {
        assert_eq!(vals, &vec![0, 1, 2, 3, 4]);
    } else {
        panic!("Expected Int32 attribute data");
    }
}

fn as_f32(v: [u32; 3]) -> [f32; 3] {
    [f32::from_bits(v[0]), f32::from_bits(v[1]), f32::from_bits(v[2])]
}

#[test]
fn test_unit_cube_normals() {
    for dir in Direction::ALL {
        let quad = Quad::unit_cube_face(dir);
        let n = as_f32(quad.normal);
        let d = as_f32(dir.normal());
        let dot = n[0] * d[0] + n[1] * d[1] + n[2] * d[2];
        assert!(dot > 0.99, "Face normal mismatch for {:?}", dir);
    }
}

#[test]
fn unit_cube_faces_point_along_their_offset() {
    for dir in Direction::ALL {
        let quad = Quad::unit_cube_face(dir);
        let (dx, dy, dz) = dir.offset();
        let n = as_f32(quad.normal);
        assert_eq!((n[0], n[1], n[2]), (dx as f32, dy as f32, dz as f32));
    }
}

#[test]
fn test_aabb2d_intersection() {
    let unit = UNITS_PER_BLOCK;
    let half = UNITS_PER_BLOCK / 2;
    let r1 = Aabb2d::from_min_max(0, 0, unit, unit);
    let r2 = Aabb2d::from_min_max(half, half, unit + half, unit + half);
    let inter = r1.intersection(&r2).unwrap();
    assert_eq!(inter.min, Point2 { x: half, y: half });
    assert_eq!(inter.max, Point2 { x: unit, y: unit });
    assert_eq!(inter.area(), (unit as i128) * (unit as i128) / 4);
    let apart = Aabb2d::from_min_max(unit, 0, 2 * unit, unit);
    assert!(r1.intersection(&apart).is_none());
}

#[test]
fn unit_cube_face_corners_follow_winding() {
    let down = Quad::unit_cube_face(Direction::Down);
    assert_eq!(down.vertices[0], b3(0.0, 0.0, 1.0));
    assert_eq!(down.vertices[2], b3(1.0, 0.0, 0.0));
    assert_eq!(down.normal, b3(0.0, -1.0, 0.0));
    let east = Quad::unit_cube_face(Direction::East);
    assert_eq!(east.vertices[0], b3(1.0, 1.0, 1.0));
    assert_eq!(east.vertices[3], b3(1.0, 1.0, 0.0));
    assert_eq!(east.uvs[0], b2(0.0, 1.0));
    assert_eq!(east.uvs[2], b2(1.0, 0.0));
}

#[test]
fn append_quad_numbers_triangles_from_vertex_count() {
    let mut mesh = MeshData::new();
    let attr = FaceAttributes::default();
    mesh.append_quad(&Quad::unit_cube_face(Direction::North), &attr);
    mesh.append_quad(&Quad::unit_cube_face(Direction::South), &attr);
    assert_eq!(mesh.indices, vec![0, 1, 2, 0, 2, 3, 4, 5, 6, 4, 6, 7]);
    assert_eq!(mesh.face_tint_indices, vec![-1, -1]);
    assert_eq!(mesh.vertex_count(), 8);
}

#[test]
fn append_mesh_shifts_indices_and_concatenates() {
    let attr = FaceAttributes::default();
    let mut a = MeshData::new();
    a.append_quad(&Quad::unit_cube_face(Direction::Up), &attr);
    let mut b = MeshData::new();
    b.append_quad(&Quad::unit_cube_face(Direction::Down), &attr);
    b.secondary_uvs = Some(vec![b2(0.5, 0.5); 4]);
    a.append_mesh(&b);
    assert_eq!(a.vertex_count(), 8);
    assert_eq!(a.indices[6..].to_vec(), vec![4, 5, 6, 4, 6, 7]);
    assert_eq!(a.face_count(), 2);
    assert_eq!(a.secondary_uvs.as_ref().unwrap().len(), 4);
    assert_eq!(a.positions[4], b3(0.0, 0.0, 1.0));
}

#[test]
fn append_empty_mesh_changes_nothing() {
    let mut a = MeshData::new();
    a.append_quad(&Quad::unit_cube_face(Direction::West), &FaceAttributes::default());
    let before = a.clone();
    a.append_mesh(&MeshData::new());
    assert_eq!(a.positions, before.positions);
    assert_eq!(a.indices, before.indices);
    assert_eq!(a.face_materials, before.face_materials);
    assert!(a.secondary_uvs.is_none());
}

#[test]
fn merge_with_other_domain_or_type_keeps_existing() {
    let mut mesh = MeshData::new();
    mesh.add_custom_attribute(MeshAttribute::new("w", AttributeDomain::Point, AttributeData::Float(vec![bits(1.0)])));
    mesh.add_custom_attribute(MeshAttribute::new("k", AttributeDomain::Face, AttributeData::UInt8(vec![1])));
    let mut other = MeshData::new();
    other.add_custom_attribute(MeshAttribute::new("w", AttributeDomain::Face, AttributeData::Float(vec![bits(2.0)])));
    other.add_custom_attribute(MeshAttribute::new("k", AttributeDomain::Face, AttributeData::UInt16(vec![2])));
    other.add_custom_attribute(MeshAttribute::new("new", AttributeDomain::Mesh, AttributeData::Bool(vec![true])));
    mesh.append_mesh(&other);
    assert_eq!(mesh.get_custom_attribute("w").unwrap().len(), 1);
    assert_eq!(mesh.get_custom_attribute("k").unwrap().len(), 1);
    assert_eq!(mesh.get_custom_attribute("new").unwrap().len(), 1);
    assert_eq!(mesh.custom_attribute_names(), vec!["w".to_string(), "k".to_string(), "new".to_string()]);
}

#[test]
fn custom_attribute_replace_get_remove() {
    let mut mesh = MeshData::new();
    mesh.add_custom_attribute(MeshAttribute::new("a", AttributeDomain::Point, AttributeData::Int8(vec![1, 2])));
    mesh.add_custom_attribute(MeshAttribute::new("a", AttributeDomain::Corner, AttributeData::Int8(vec![3])));
    assert_eq!(mesh.custom_attributes.len(), 1);
    assert_eq!(mesh.get_custom_attribute("a").unwrap().domain, AttributeDomain::Corner);
    assert!(mesh.get_custom_attribute("b").is_none());
    if let Some(a) = mesh.get_custom_attribute_mut("a") {
        a.domain = AttributeDomain::Face;
    }
    assert_eq!(mesh.get_custom_attribute("a").unwrap().domain, AttributeDomain::Face);
    let removed = mesh.remove_custom_attribute("a").unwrap();
    assert_eq!(removed.len(), 1);
    assert!(!mesh.has_custom_attribute("a"));
    assert!(mesh.remove_custom_attribute("a").is_none());
}

#[test]
fn clear_keeps_optional_buffers_present() {
    let mut mesh = MeshData::new();
    mesh.append_quad(&Quad::unit_cube_face(Direction::Up), &FaceAttributes::default());
    mesh.colors = Some(vec![[F32_ONE_BITS; 4]; 4]);
    mesh.add_custom_attribute(MeshAttribute::new("x", AttributeDomain::Mesh, AttributeData::UInt32(vec![7])));
    mesh.clear();
    assert!(mesh.is_empty());
    assert_eq!(mesh.colors, Some(vec![]));
    assert!(mesh.secondary_uvs.is_none());
    assert!(mesh.custom_attribute_names().is_empty());
    assert_eq!(mesh.colors_flat(), Some(vec![]));
}

#[test]
fn attribute_bytes_are_little_endian() {
    let d = AttributeData::Int16(vec![-2, 0x0102]);
    assert_eq!(d.as_bytes(), Some(vec![0xfe, 0xff, 0x02, 0x01]));
    let d = AttributeData::UInt32(vec![0x0403_0201]);
    assert_eq!(d.as_bytes(), Some(vec![1, 2, 3, 4]));
    let d = AttributeData::Bool(vec![true, false]);
    assert_eq!(d.as_bytes(), Some(vec![1, 0]));
    let d = AttributeData::Float2(vec![b2(1.0, 0.0)]);
    assert_eq!(d.as_bytes().unwrap(), [1.0f32.to_le_bytes(), 0.0f32.to_le_bytes()].concat());
    assert_eq!(AttributeData::Float3(vec![]).kind_name(), "float3");
    assert!(AttributeData::String(vec![]).is_empty());
}

#[test]
fn pair_action_rules() {
    assert_eq!(face_pair_action([0, 0, 10], [0, 0, -10], true, true), FacePairAction::CullBoth);
    assert_eq!(face_pair_action([0, 0, 10], [0, 0, -10], false, true), FacePairAction::Keep);
    assert_eq!(face_pair_action([0, 0, 10], [0, 1, 10], true, true), FacePairAction::CullLater);
    assert_eq!(face_pair_action([0, 0, 10], [0, 1, 10], true, false), FacePairAction::Keep);
    assert_eq!(face_pair_action([10, 0, 0], [0, 10, 0], true, true), FacePairAction::Keep);
}

fn two_back_to_back_quads() -> MeshData {
    let mut mesh = MeshData::new();
    mesh.positions.extend_from_slice(&[
        b3(-0.5, -0.5, 0.0),
        b3(0.5, -0.5, 0.0),
        b3(0.5, 0.5, 0.0),
        b3(-0.5, 0.5, 0.0),
    ]);
    mesh.normals.extend_from_slice(&[b3(0.0, 0.0, 1.0); 4]);
    mesh.uvs.extend_from_slice(&[b2(0.0, 0.0), b2(1.0, 0.0), b2(1.0, 1.0), b2(0.0, 1.0)]);
    mesh.indices.extend_from_slice(&[0, 1, 2, 0, 2, 3]);
    mesh.face_materials.push(0);
    mesh.face_tint_indices.push(-1);
    mesh.positions.extend_from_slice(&[
        b3(-0.5, -0.5, 0.0),
        b3(-0.5, 0.5, 0.0),
        b3(0.5, 0.5, 0.0),
        b3(0.5, -0.5, 0.0),
    ]);
    mesh.normals.extend_from_slice(&[b3(0.0, 0.0, -1.0); 4]);
    mesh.uvs.extend_from_slice(&[b2(0.0, 0.0), b2(0.0, 1.0), b2(1.0, 1.0), b2(1.0, 0.0)]);
    mesh.indices.extend_from_slice(&[4, 5, 6, 4, 6, 7]);
    mesh.face_materials.push(3);
    mesh.face_tint_indices.push(-1);
    mesh
}

#[test]
fn back_to_back_faces_are_both_culled() {
    let mesh = two_back_to_back_quads();
    assert_eq!(mesh_face_layout(&mesh), (6, 2));
    assert_eq!(face_vertex_indices(&mesh, 1), vec![4, 5, 6, 7]);
    let mut culled = vec![false, false];
    resolve_face(1, [0, 0, -10], &vec![(0, [0, 0, 10])], &mut culled, true, true);
    assert_eq!(culled, vec![true, true]);
    let res = finish_mesh_cull(&mesh, &culled);
    assert_eq!(res.initial_faces, 2);
    assert_eq!(res.culled_faces, 2);
    assert_eq!(res.remaining_faces, 0);
    assert!(res.mesh.is_empty());
}

#[test]
fn culling_one_face_rebuilds_the_rest() {
    let mut mesh = two_back_to_back_quads();
    mesh.add_custom_attribute(MeshAttribute::new("id", AttributeDomain::Face, AttributeData::Int32(vec![5, 6])));
    let mut culled = vec![false, false];
    resolve_face(1, [0, 0, 10], &vec![(0, [0, 0, 10])], &mut culled, false, true);
    assert_eq!(culled, vec![false, true]);
    let res = finish_mesh_cull(&mesh, &culled);
    assert_eq!((res.initial_faces, res.culled_faces, res.remaining_faces), (2, 1, 1));
    assert_eq!(res.mesh.indices, vec![0, 1, 2, 3, 4, 5]);
    assert_eq!(res.mesh.positions[3], b3(-0.5, -0.5, 0.0));
    assert_eq!(res.mesh.positions[5], b3(-0.5, 0.5, 0.0));
    assert_eq!(res.mesh.face_materials, vec![0]);
    assert_eq!(res.mesh.get_custom_attribute("id").unwrap().len(), 0);
}

#[test]
fn no_culled_face_hands_mesh_back() {
    let mut mesh = two_back_to_back_quads();
    mesh.normals.truncate(2);
    let res = finish_mesh_cull(&mesh, &vec![false, false]);
    assert_eq!((res.initial_faces, res.culled_faces, res.remaining_faces), (2, 0, 2));
    assert_eq!(res.mesh.normals.len(), 2);
    assert_eq!(res.mesh.indices, mesh.indices);
}

#[test]
fn rebuilt_corners_without_source_take_defaults() {
    let mut mesh = two_back_to_back_quads();
    mesh.normals.truncate(4);
    mesh.colors = Some(vec![]);
    let res = finish_mesh_cull(&mesh, &vec![true, false]);
    assert_eq!(res.mesh.normals[0], [F32_ZERO_BITS, F32_ZERO_BITS, F32_ONE_BITS]);
    assert_eq!(res.mesh.colors.as_ref().unwrap()[0], [F32_ONE_BITS; 4]);
    assert_eq!(res.mesh.face_materials, vec![3]);
}

#[test]
fn candidate_ranges_and_kept_corners_are_checked() {
    let culled = vec![false, false, false];
    assert!(candidates_fit([0, 0, 10], &vec![(0, [0, 0, -10])], &culled, true, true));
    assert!(!candidates_fit([100, 0, 0], &vec![(0, [100, 0, 0])], &culled, true, true));
    // a marked candidate is skipped, so its keys do not matter
    assert!(candidates_fit([100, 0, 0], &vec![(0, [100, 0, 0])], &vec![true, false, false], true, true));
    // after the deciding candidate nothing more is looked at
    assert!(candidates_fit([0, 0, 10], &vec![(1, [0, 0, 10]), (0, [100, 0, 0])], &culled, true, true));

    let mut mesh = two_back_to_back_quads();
    assert!(kept_corners_in_range(&mesh, &vec![true, false]));
    mesh.positions.truncate(6);
    assert!(!kept_corners_in_range(&mesh, &vec![true, false]));
    assert!(kept_corners_in_range(&mesh, &vec![false, true]));
}

#[test]
fn grid_cells_number_vertices_row_by_row() {
    let g = grid_cell_indices(10, 2, 1);
    assert_eq!(g, vec![vec![[10, 11, 14, 10, 14, 13], [11, 12, 15, 11, 15, 14]]]);
    assert_eq!(grid_cell_indices(0, 1, 2), vec![vec![[0, 1, 3, 0, 3, 2]], vec![[2, 3, 5, 2, 5, 4]]]);
    assert!(grid_cell_indices(0, 3, 0).is_empty());
}

#[test]
fn sliced_polygons_split_into_quads_and_triangles() {
    assert_eq!(split_polygon_indices(&vec![4, 5, 6]), vec![vec![4, 5, 6]]);
    assert_eq!(split_polygon_indices(&vec![4, 5, 6, 7]), vec![vec![4, 5, 6, 7]]);
    assert_eq!(split_polygon_indices(&vec![0, 1, 2, 3, 4]), vec![vec![0, 1, 2, 3], vec![0, 3, 4]]);
    assert_eq!(
        split_polygon_indices(&vec![0, 1, 2, 3, 4, 5]),
        vec![vec![0, 1, 2], vec![0, 2, 3], vec![0, 3, 4], vec![0, 4, 5]]
    );
}

#[test]
fn appending_into_an_empty_mesh_copies_it() {
    let mut src = MeshData::new();
    src.append_quad(&Quad::unit_cube_face(Direction::Up), &FaceAttributes::default());
    src.colors = Some(vec![[F32_ONE_BITS; 4]; 4]);
    src.add_custom_attribute(MeshAttribute::new("a", AttributeDomain::Face, AttributeData::UInt16(vec![9])));
    let mut dst = MeshData::new();
    dst.append_mesh(&src);
    assert_eq!(dst.positions, src.positions);
    assert_eq!(dst.indices, src.indices);
    assert_eq!(dst.colors, src.colors);
    assert_eq!(dst.custom_attribute_names(), src.custom_attribute_names());
}

#[test]
fn unit_faces_wind_counter_clockwise_from_outside() {
    for dir in Direction::ALL {
        let q = Quad::unit_cube_face(dir);
        let v: Vec<[f32; 3]> = q
            .vertices
            .iter()
            .map(|c| [f32::from_bits(c[0]), f32::from_bits(c[1]), f32::from_bits(c[2])])
            .collect();
        let e1 = [v[1][0] - v[0][0], v[1][1] - v[0][1], v[1][2] - v[0][2]];
        let e2 = [v[2][0] - v[0][0], v[2][1] - v[0][1], v[2][2] - v[0][2]];
        let cross = [e1[1] * e2[2] - e1[2] * e2[1], e1[2] * e2[0] - e1[0] * e2[2], e1[0] * e2[1] - e1[1] * e2[0]];
        let (x, y, z) = dir.offset();
        assert_eq!(cross, [x as f32, y as f32, z as f32]);
    }
}

#[test]
fn pair_rule_is_symmetric_and_marks_only_accumulate() {
    let keys = [[0i8, 0, 10], [0, 0, -10], [0, 1, 10], [10, 0, 0]];
    for a in keys {
        for b in keys {
            for (o, d) in [(true, true), (true, false), (false, true), (false, false)] {
                assert_eq!(face_pair_action(a, b, o, d), face_pair_action(b, a, o, d));
            }
        }
    }
    let mut culled = vec![true, false, false];
    resolve_face(2, [10, 0, 0], &vec![(1, [0, 0, 10]), (0, [10, 0, 0])], &mut culled, true, true);
    assert_eq!(culled, vec![true, false, false]);
    resolve_face(2, [0, 0, 10], &vec![(1, [0, 0, -10])], &mut culled, true, true);
    assert_eq!(culled, vec![true, true, true]);
}

#[test]
fn culling_with_both_rules_off_keeps_every_face() {
    let mesh = two_back_to_back_quads();
    let mut culled = vec![false, false];
    resolve_face(1, [0, 0, -10], &vec![(0, [0, 0, 10])], &mut culled, false, false);
    resolve_face(1, [0, 0, 10], &vec![(0, [0, 0, 10])], &mut culled, false, false);
    assert_eq!(culled, vec![false, false]);
    let res = finish_mesh_cull(&mesh, &culled);
    assert_eq!(res.initial_faces, 2);
    assert_eq!(res.culled_faces, 0);
    assert_eq!(res.remaining_faces, 2);
}
