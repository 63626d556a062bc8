use libmtk::cull::parse::state_text_parses;
use libmtk::extrude::{
    edge_key, extruded_side_faces, face_edge_keys, face_edges, side_crease_edges, side_links, side_quad_base, ExtrudeNoiseType,
    ExtrudeUvMode, SideLink,
};
use libmtk::cull::cases::{evaluate_cull_case, parse_glass_mode, parse_leaves_mode};
use libmtk::cull::types::{GlassCullMode, LeavesCullMode};
use libmtk::direction::Direction;
use libmtk::pipeline::{
    any_nonempty, face_loop_ranges, per_face_material_names, source_texture_keys, MeshProcessStats,
    ResolvedMaterialInfo,
};
use libmtk::prebake::{selects_single_atlas_category, CacheManifest, PrecompileConfig, ASSET_CACHE_FORMAT_VERSION};

#[test]
fn loop_ranges_share_uvs_evenly_or_assume_quads() {
    assert_eq!(face_loop_ranges(3, 9), vec![(0, 3), (3, 3), (6, 3)]);
    assert_eq!(face_loop_ranges(2, 7), vec![(0, 4), (4, 4)]);
    assert_eq!(face_loop_ranges(0, 5), vec![]);
}

#[test]
fn face_material_names_default_to_empty() {
    let names = vec!["Tile_Stone".to_string(), "Glass".to_string()];
    let r = per_face_material_names(&vec![1, 0, 7], &names);
    assert_eq!(r, vec!["Glass".to_string(), "Tile_Stone".to_string(), String::new()]);
}

#[test]
fn source_keys_follow_resolved_slots() {
    let resolved = vec![
        ResolvedMaterialInfo::resolved("Tile_Stone", "minecraft:block/stone", 0, false),
        ResolvedMaterialInfo::unmapped("Mystery"),
    ];
    assert_eq!(resolved[1].atlas_chunk_id, -1);
    let keys = source_texture_keys(&vec![0, 1, 2, 0], &resolved);
    assert_eq!(
        keys,
        vec!["minecraft:block/stone".to_string(), String::new(), String::new(), "minecraft:block/stone".to_string()]
    );
    assert!(any_nonempty(&keys));
    assert!(!any_nonempty(&vec![String::new()]));
    assert_eq!(MeshProcessStats::default().resolved_slots, 0);
}

#[test]
fn cache_manifest_validity() {
    let m = CacheManifest {
        format_version: ASSET_CACHE_FORMAT_VERSION,
        fingerprint: "abc".to_string(),
        pack_count: 1,
        atlas_chunks: 2,
        standalone_textures: 3,
        baked_models: 4,
        created_at_epoch_secs: 0,
    };
    assert!(m.is_valid_for("abc"));
    assert!(!m.is_valid_for("abd"));
    let old = CacheManifest { format_version: 0, ..m };
    assert!(!old.is_valid_for("abc"));
    let c = PrecompileConfig::default();
    assert_eq!(c.max_atlas_width, 4096);
    assert_eq!(c.atlas_category, "all");
    assert!(!selects_single_atlas_category(&c.atlas_category));
    assert!(!selects_single_atlas_category("blocks"));
    assert!(!selects_single_atlas_category(""));
    assert!(selects_single_atlas_category("items"));
}

#[test]
fn cull_modes_parse_in_any_case() {
    assert_eq!(parse_leaves_mode("fancy"), LeavesCullMode::Fancy);
    assert_eq!(parse_leaves_mode("Fast"), LeavesCullMode::Fast);
    assert_eq!(parse_leaves_mode("none"), LeavesCullMode::NoCull);
    assert_eq!(parse_leaves_mode("whatever"), LeavesCullMode::SingleFace);
    assert_eq!(parse_glass_mode("same_block"), GlassCullMode::SameBlock);
    assert_eq!(parse_glass_mode("NONE"), GlassCullMode::NoCull);
    assert_eq!(parse_glass_mode(""), GlassCullMode::Group);
}

#[test]
fn cull_cases_evaluate_like_the_culler() {
    let l = LeavesCullMode::SingleFace;
    let g = GlassCullMode::Group;
    assert!(!evaluate_cull_case("minecraft:stone", Some("minecraft:dirt"), "east", l, g, None, None));
    assert!(evaluate_cull_case("minecraft:stone", Some("minecraft:air"), "up", l, g, None, None));
    assert!(evaluate_cull_case("minecraft:stone", None, "north", l, g, None, None));
    assert!(!evaluate_cull_case("minecraft:glass", Some("minecraft:red_stained_glass"), "west", l, g, None, None));
    assert!(evaluate_cull_case(
        "minecraft:glass",
        Some("minecraft:red_stained_glass"),
        "west",
        l,
        GlassCullMode::SameBlock,
        None,
        None
    ));
    // an unknown direction name counts as east
    assert!(!evaluate_cull_case("minecraft:stone", Some("minecraft:stone"), "sideways", l, g, None, None));
}

#[test]
fn direction_normals_are_unit_axes() {
    for d in Direction::ALL {
        let n = d.normal();
        let (x, y, z) = d.offset();
        assert_eq!(f32::from_bits(n[0]), x as f32);
        assert_eq!(f32::from_bits(n[1]), y as f32);
        assert_eq!(f32::from_bits(n[2]), z as f32);
    }
}

#[test]
fn extrusion_topology_helpers() {
    assert_eq!(edge_key(7, 3), (3, 7));
    assert_eq!(edge_key(3, 7), (3, 7));
    // side quad b0 b1 t1 t0 below the top edge t0 - t1
    assert_eq!(side_quad_base(&vec![0, 1, 11, 10], 10, 11), Some((0, 1)));
    assert_eq!(side_quad_base(&vec![0, 1, 11, 10], 11, 10), Some((1, 0)));
    assert_eq!(side_quad_base(&vec![0, 1, 2], 10, 11), None);
    assert_eq!(side_quad_base(&vec![0, 1, 11, 12], 10, 11), None);
    let sides = extruded_side_faces(&vec![0, 1, 2, 3], &vec![4, 5, 6, 7]);
    assert_eq!(sides, vec![vec![0, 1, 5, 4], vec![1, 2, 6, 5], vec![2, 3, 7, 6], vec![3, 0, 4, 7]]);
    assert_eq!(ExtrudeUvMode::default(), ExtrudeUvMode::Smart);
    assert_eq!(ExtrudeNoiseType::default(), ExtrudeNoiseType::UniformRandom);
}

#[test]
fn state_texts_with_misplaced_brackets_are_refused() {
    assert!(state_text_parses("minecraft:oak_slab[type=top]"));
    assert!(state_text_parses("minecraft:stone"));
    assert!(state_text_parses("  "));
    assert!(!state_text_parses("minecraft:odd]name[x=1"));
}

#[test]
fn face_edges_list_each_face_edge_in_corner_order() {
    let faces = vec![vec![0, 1, 2], vec![2, 1, 3, 4], vec![]];
    let edges = face_edges(&faces);
    assert_eq!(
        edges,
        vec![
            ((0, 1), 0, 0),
            ((1, 2), 0, 1),
            ((0, 2), 0, 2),
            ((1, 2), 1, 0),
            ((1, 3), 1, 1),
            ((3, 4), 1, 2),
            ((2, 4), 1, 3),
        ]
    );
    // The shared edge 1-2 is found from both faces.
    let sharing: Vec<u32> = edges.iter().filter(|e| e.0 == (1, 2)).map(|e| e.1).collect();
    assert_eq!(sharing, vec![0, 1]);
}

#[test]
fn side_links_pick_unselected_quads_on_the_edge() {
    // Face 0 is the selected top (corners 4, 5, 6, 7); faces 1-3 touch its edge 4-5.
    let faces = vec![
        vec![4, 5, 6, 7],
        vec![0, 1, 5, 4],
        vec![4, 5, 9],
        vec![1, 0, 4, 5],
        vec![5, 4, 8, 3],
    ];
    let materials = vec![7, 7, 2, 3];
    let selected = vec![true, false, false, false, true];
    let linked: Vec<(u32, usize)> = vec![(0, 0), (1, 2), (2, 0), (3, 2), (4, 0), (9, 0)];
    let links = side_links(&faces, &materials, &selected, 0, 4, 5, 7, &linked);
    assert_eq!(
        links,
        vec![
            SideLink { side: 1, material_sync: None, base: Some((0, 1)) },
            SideLink { side: 3, material_sync: Some(7), base: Some((0, 1)) },
        ]
    );
    // A face beyond the material list counts as material 0.
    let links = side_links(&faces, &vec![7], &selected, 0, 4, 5, 7, &vec![(1, 2)]);
    assert_eq!(links[0].material_sync, Some(7));
}

#[test]
fn crease_edges_of_side_and_top_faces() {
    assert_eq!(side_crease_edges(5, 4, 1, 0), [(4, 5), (0, 1), (1, 5), (0, 4)]);
    assert_eq!(face_edge_keys(&vec![4, 5, 6, 7]), vec![(4, 5), (5, 6), (6, 7), (4, 7)]);
    assert!(face_edge_keys(&vec![]).is_empty());
}
