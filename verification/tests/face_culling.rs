use libmtk::cull::classify::compute_block_cull_meta;
use libmtk::cull::parse::parse_block_name_and_props;
use libmtk::constants::geometry::UNITS_PER_BLOCK;
use libmtk::cull::engine::{get_visible_face_directions, FaceCuller};
use libmtk::cull::rect_ops::{
    extract_quad_face_occlusion_rect, is_face_completely_occluded, is_fully_occluded,
    subtract_rect,
};
use libmtk::cull::types::{is_full_rect, CullCategory, GlassCullMode, LeavesCullMode};
use libmtk::direction::Direction;
use libmtk::geometry::Aabb2d;

fn u(v: f32) -> i32 {
    (v * UNITS_PER_BLOCK as f32).round() as i32
}

fn rect(x0: f32, y0: f32, x1: f32, y1: f32) -> Aabb2d {
    Aabb2d::from_min_max(u(x0), u(y0), u(x1), u(y1))
}

fn v3(x: f32, y: f32, z: f32) -> [i32; 3] {
    [u(x), u(y), u(z)]
}

fn close(a: i32, b: f32) -> bool {
    ((a as f32) / UNITS_PER_BLOCK as f32 - b).abs() < 1e-4
}

#[test]
fn test_2d_rectangle_boolean_subtraction() {
    let full = rect(0.0, 0.0, 1.0, 1.0);
    let half_left = rect(0.0, 0.0, 0.5, 1.0);
    let half_right = rect(0.5, 0.0, 1.0, 1.0);

    let remainder = subtract_rect(&full, &half_left);
    assert_eq!(remainder.len(), 1);
    assert!(close(remainder[0].min.x, 0.5));
    assert!(close(remainder[0].max.x, 1.0));

    assert!(is_face_completely_occluded(&[full], &[half_left, half_right]));
    assert!(!is_face_completely_occluded(&[full], &[half_left]));
}

#[test]
fn test_solid_opaque_mutual_culling() {
    let mut culler = FaceCuller::default();
    let stone = culler.get_meta("minecraft:stone", None, None);
    let dirt = culler.get_meta("minecraft:dirt", None, None);
    let air = culler.get_meta("minecraft:air", None, None);

    assert_eq!(stone.category, CullCategory::SolidOpaque);
    assert!(stone.has_full_face(Direction::East));

    assert!(!culler.should_render_face(&stone, Some(&*dirt), Direction::East, None, None, None));
    assert!(!culler.should_render_face(&dirt, Some(&*stone), Direction::West, None, None, None));

    assert!(culler.should_render_face(&stone, Some(&*air), Direction::East, None, None, None));
    assert!(culler.should_render_face(&stone, None, Direction::East, None, None, None));
}

#[test]
fn test_glass_translucent_culling() {
    let mut culler = FaceCuller::default();
    let glass = culler.get_meta("minecraft:glass", None, None);
    let red_glass = culler.get_meta("minecraft:red_stained_glass", None, None);
    let stone = culler.get_meta("minecraft:stone", None, None);

    assert_eq!(glass.category, CullCategory::GlassTranslucent);

    assert!(!culler.should_render_face(&glass, Some(&*glass), Direction::East, None, None, None));
    assert!(!culler.should_render_face(&glass, Some(&*glass), Direction::West, None, None, None));

    culler.glass_cull_mode = GlassCullMode::Group;
    assert!(!culler.should_render_face(&red_glass, Some(&*glass), Direction::East, None, None, None));

    culler.glass_cull_mode = GlassCullMode::SameBlock;
    assert!(culler.should_render_face(&red_glass, Some(&*glass), Direction::East, None, None, None));

    assert!(!culler.should_render_face(&glass, Some(&*stone), Direction::East, None, None, None));
    assert!(culler.should_render_face(&stone, Some(&*glass), Direction::West, None, None, None));
}

#[test]
fn test_cutout_leaves_modes() {
    let mut culler = FaceCuller::default();
    let oak_leaves = culler.get_meta("minecraft:oak_leaves", None, None);
    let birch_leaves = culler.get_meta("minecraft:birch_leaves", None, None);
    let oak_log = culler.get_meta("minecraft:oak_log", None, None);

    assert_eq!(oak_leaves.category, CullCategory::CutoutLeaves);
    assert_eq!(culler.leaves_cull_mode, LeavesCullMode::SingleFace);

    culler.leaves_cull_mode = LeavesCullMode::Fancy;
    assert!(culler.should_render_face(&oak_leaves, Some(&*birch_leaves), Direction::East, None, None, None));
    assert!(culler.should_render_face(&birch_leaves, Some(&*oak_leaves), Direction::West, None, None, None));

    culler.leaves_cull_mode = LeavesCullMode::SingleFace;
    let pos_a = (0, 0, 0);
    let pos_b = (1, 0, 0);
    let render_a = culler.should_render_face(
        &oak_leaves,
        Some(&*oak_leaves),
        Direction::East,
        None,
        Some(pos_a),
        Some(pos_b),
    );
    let render_b = culler.should_render_face(
        &oak_leaves,
        Some(&*oak_leaves),
        Direction::West,
        None,
        Some(pos_b),
        Some(pos_a),
    );
    assert_ne!(render_a, render_b);
    assert!(render_a || render_b);

    culler.leaves_cull_mode = LeavesCullMode::Fast;
    assert!(!culler.should_render_face(&oak_leaves, Some(&*birch_leaves), Direction::East, None, None, None));
    assert!(!culler.should_render_face(&birch_leaves, Some(&*oak_leaves), Direction::West, None, None, None));

    assert!(!culler.should_render_face(&oak_leaves, Some(&*oak_log), Direction::Down, None, None, None));
    assert!(culler.should_render_face(&oak_log, Some(&*oak_leaves), Direction::Up, None, None, None));
}

#[test]
fn test_partial_shape_slab_occlusion() {
    let mut culler = FaceCuller::default();
    let bottom_slab = culler.get_meta("minecraft:oak_slab[type=bottom]", None, None);
    let top_slab = culler.get_meta("minecraft:oak_slab[type=top]", None, None);
    let stone = culler.get_meta("minecraft:stone", None, None);

    assert!(!culler.should_render_face(&bottom_slab, Some(&*stone), Direction::Down, None, None, None));
    assert!(culler.should_render_face(&stone, Some(&*bottom_slab), Direction::Down, None, None, None));
    assert!(!culler.should_render_face(&top_slab, Some(&*stone), Direction::Up, None, None, None));
}

#[test]
fn test_fluid_culling() {
    let mut culler = FaceCuller::default();
    let water = culler.get_meta("minecraft:water", None, None);
    let lava = culler.get_meta("minecraft:lava", None, None);
    let stone = culler.get_meta("minecraft:stone", None, None);

    assert_eq!(water.category, CullCategory::Fluid);

    assert!(!culler.should_render_face(&water, Some(&*water), Direction::East, None, None, None));
    assert!(!culler.should_render_face(&water, Some(&*water), Direction::Up, None, None, None));
    assert!(culler.should_render_face(&water, Some(&*lava), Direction::East, None, None, None));

    assert!(culler.should_render_face(&water, Some(&*stone), Direction::Up, None, None, None));
    assert!(culler.should_render_face(&stone, Some(&*water), Direction::Down, None, None, None));

    assert!(!culler.should_render_face(&water, Some(&*stone), Direction::Down, None, None, None));
    assert!(!culler.should_render_face(&water, Some(&*stone), Direction::East, None, None, None));

    let waterlogged_slab =
        culler.get_meta("minecraft:oak_slab[type=bottom,waterlogged=true]", None, None);
    assert!(!culler.should_render_face(&water, Some(&*waterlogged_slab), Direction::Up, None, None, None));
}

#[test]
fn test_quad_face_occlusion_rect_extraction() {
    let slab_top_inner = [
        v3(0.0, 0.5, 0.0),
        v3(0.0, 0.5, 1.0),
        v3(1.0, 0.5, 1.0),
        v3(1.0, 0.5, 0.0),
    ];
    assert!(extract_quad_face_occlusion_rect(&slab_top_inner, Direction::Up).is_none());

    let slab_bottom_outer = [
        v3(0.0, 0.0, 1.0),
        v3(0.0, 0.0, 0.0),
        v3(1.0, 0.0, 0.0),
        v3(1.0, 0.0, 1.0),
    ];
    let rect = extract_quad_face_occlusion_rect(&slab_bottom_outer, Direction::Down);
    assert!(rect.is_some());
    assert!(close(rect.unwrap().min.x, 0.0));
    assert!(close(rect.unwrap().max.x, 1.0));

    let quad_half_east = [
        v3(1.0, 0.5, 1.0),
        v3(1.0, 0.0, 1.0),
        v3(1.0, 0.0, 0.0),
        v3(1.0, 0.5, 0.0),
    ];
    let rect_east = extract_quad_face_occlusion_rect(&quad_half_east, Direction::East);
    assert!(rect_east.is_some());
    assert!(close(rect_east.unwrap().min.y, 0.0));
    assert!(close(rect_east.unwrap().max.y, 0.5));
}

#[test]
fn test_quad_level_element_culling() {
    let mut culler = FaceCuller::default();
    let stone = culler.get_meta("minecraft:stone", None, None);
    let slab_top = culler.get_meta("minecraft:oak_slab[type=top]", None, None);
    let air = culler.get_meta("minecraft:air", None, None);

    let partial_bottom_quad = rect(0.0, 0.0, 1.0, 0.5);

    assert!(!culler.should_render_face(
        &slab_top,
        Some(&*stone),
        Direction::Down,
        Some(&[partial_bottom_quad]),
        None,
        None
    ));

    assert!(culler.should_render_face(
        &slab_top,
        Some(&*air),
        Direction::Down,
        Some(&[partial_bottom_quad]),
        None,
        None
    ));
}

#[test]
fn test_non_full_blocks_do_not_cull_glass_or_solid_faces() {
    let mut culler = FaceCuller::default();
    let glass = culler.get_meta("minecraft:glass", None, None);
    let stone = culler.get_meta("minecraft:stone", None, None);

    let non_full_blocks = [
        "minecraft:oak_fence",
        "minecraft:spruce_fence_gate",
        "minecraft:glass_pane",
        "minecraft:white_stained_glass_pane",
        "minecraft:red_stained_glass_pane",
        "minecraft:iron_bars",
        "minecraft:cobblestone_wall",
        "minecraft:stone_brick_wall",
        "minecraft:oak_trapdoor",
        "minecraft:iron_trapdoor",
        "minecraft:oak_door",
        "minecraft:iron_door",
        "minecraft:white_carpet",
        "minecraft:moss_carpet",
        "minecraft:chest",
        "minecraft:trapped_chest",
        "minecraft:ender_chest",
        "minecraft:torch",
        "minecraft:lantern",
        "minecraft:soul_lantern",
        "minecraft:chain",
        "minecraft:lightning_rod",
        "minecraft:end_rod",
        "minecraft:flower_pot",
        "minecraft:conduit",
        "minecraft:bell",
        "minecraft:anvil",
        "minecraft:cauldron",
        "minecraft:hopper",
        "minecraft:brewing_stand",
        "minecraft:scaffolding",
        "minecraft:pointed_dripstone",
    ];

    for block_name in non_full_blocks {
        let n_meta = culler.get_meta(block_name, None, None);

        assert!(
            culler.should_render_face(&glass, Some(&*n_meta), Direction::Up, None, None, None),
            "Glass top face was erroneously culled under non-full block: {}",
            block_name
        );
        assert!(
            culler.should_render_face(&stone, Some(&*n_meta), Direction::Up, None, None, None),
            "Stone top face was erroneously culled under non-full block: {}",
            block_name
        );
        assert!(
            culler.should_render_face(&glass, Some(&*n_meta), Direction::East, None, None, None),
            "Glass east face was erroneously culled next to non-full block: {}",
            block_name
        );
        assert!(
            culler.should_render_face(&stone, Some(&*n_meta), Direction::East, None, None, None),
            "Stone east face was erroneously culled next to non-full block: {}",
            block_name
        );
    }
}

#[test]
fn test_glass_pane_and_stained_glass_pane_do_not_skip_rendering_with_glass_block() {
    let mut culler = FaceCuller::default();
    let glass = culler.get_meta("minecraft:glass", None, None);
    let red_glass = culler.get_meta("minecraft:red_stained_glass", None, None);
    let pane = culler.get_meta("minecraft:glass_pane", None, None);
    let red_pane = culler.get_meta("minecraft:red_stained_glass_pane", None, None);
    let white_pane = culler.get_meta("minecraft:white_stained_glass_pane", None, None);

    assert!(culler.should_render_face(&glass, Some(&*pane), Direction::Up, None, None, None));
    assert!(culler.should_render_face(&glass, Some(&*red_pane), Direction::Up, None, None, None));
    assert!(culler.should_render_face(&glass, Some(&*white_pane), Direction::Up, None, None, None));
    assert!(culler.should_render_face(&red_glass, Some(&*pane), Direction::East, None, None, None));
    assert!(culler.should_render_face(&red_glass, Some(&*red_pane), Direction::East, None, None, None));
}

#[test]
fn test_double_slab_and_stairs_culling() {
    let mut culler = FaceCuller::default();
    let stone = culler.get_meta("minecraft:stone", None, None);
    let glass = culler.get_meta("minecraft:glass", None, None);
    let double_slab = culler.get_meta("minecraft:oak_slab[type=double]", None, None);
    let stairs_bottom = culler.get_meta("minecraft:oak_stairs[facing=north,half=bottom]", None, None);
    let stairs_top = culler.get_meta("minecraft:oak_stairs[facing=north,half=top]", None, None);

    assert_eq!(double_slab.category, CullCategory::SolidOpaque);
    assert!(double_slab.has_full_face(Direction::Up));
    assert!(double_slab.has_full_face(Direction::Down));

    assert!(!culler.should_render_face(&double_slab, Some(&*stone), Direction::East, None, None, None));
    assert!(!culler.should_render_face(&stone, Some(&*double_slab), Direction::West, None, None, None));

    assert!(!culler.should_render_face(&glass, Some(&*double_slab), Direction::Up, None, None, None));

    assert!(!culler.should_render_face(&stone, Some(&*stairs_bottom), Direction::Up, None, None, None));

    assert!(culler.should_render_face(&stone, Some(&*stairs_top), Direction::Up, None, None, None));
}

#[test]
fn test_snow_layers_mutual_culling_at_same_height() {
    let mut culler = FaceCuller::default();
    let snow_a = culler.get_meta("minecraft:snow[layers=2]", None, None);
    let snow_b = culler.get_meta("minecraft:snow[layers=2]", None, None);
    let stone = culler.get_meta("minecraft:stone", None, None);

    assert!(!culler.should_render_face(&snow_a, Some(&*snow_b), Direction::East, None, None, None));
    assert!(!culler.should_render_face(&snow_b, Some(&*snow_a), Direction::West, None, None, None));

    assert!(culler.should_render_face(&snow_a, None, Direction::Up, None, None, None));

    assert!(!culler.should_render_face(&snow_a, Some(&*stone), Direction::Down, None, None, None));
    assert!(!culler.should_render_face(&stone, Some(&*snow_a), Direction::Up, None, None, None));
}

#[test]
fn test_snow_layers_different_heights() {
    let mut culler = FaceCuller::default();
    let snow_short = culler.get_meta("minecraft:snow[layers=2]", None, None);
    let snow_tall = culler.get_meta("minecraft:snow[layers=5]", None, None);

    assert!(!culler.should_render_face(&snow_short, Some(&*snow_tall), Direction::East, None, None, None));
    assert!(culler.should_render_face(&snow_tall, Some(&*snow_short), Direction::West, None, None, None));
}

#[test]
fn test_iron_bars_cross_section_culling() {
    let mut culler = FaceCuller::default();
    let bar_west = culler.get_meta("minecraft:iron_bars[east=true,west=false,north=false,south=false]", None, None);
    let bar_east = culler.get_meta("minecraft:iron_bars[east=false,west=true,north=false,south=false]", None, None);

    assert!(!culler.should_render_face(&bar_west, Some(&*bar_east), Direction::East, None, None, None));
    assert!(!culler.should_render_face(&bar_east, Some(&*bar_west), Direction::West, None, None, None));

    assert!(culler.should_render_face(&bar_west, None, Direction::North, None, None, None));
}

#[test]
fn test_fence_cross_section_culling() {
    let mut culler = FaceCuller::default();
    let fence_west = culler.get_meta("minecraft:oak_fence[east=true,west=false,north=false,south=false]", None, None);
    let fence_east = culler.get_meta("minecraft:oak_fence[east=false,west=true,north=false,south=false]", None, None);

    assert!(!culler.should_render_face(&fence_west, Some(&*fence_east), Direction::East, None, None, None));
    assert!(!culler.should_render_face(&fence_east, Some(&*fence_west), Direction::West, None, None, None));
}

#[test]
fn test_culler_cache_eviction() {
    let mut culler = FaceCuller::default();
    for i in 0..8192 {
        culler.get_meta(&format!("dummy:state_{}", i), None, None);
    }
    assert_eq!(culler.cache_len(), 8192);

    culler.get_meta("minecraft:emerald_block", None, None);
    assert_eq!(culler.cache_len(), 8192);
    assert!(culler.cache_contains("minecraft:emerald_block"));
    assert!(!culler.cache_contains("dummy:state_0"));
    assert!(culler.cache_contains("dummy:state_1"));
}

#[test]
fn test_subtract_no_intersection() {
    let s = rect(0.0, 0.0, 0.5, 0.5);
    let o = rect(0.6, 0.6, 1.0, 1.0);
    let res = subtract_rect(&s, &o);
    assert_eq!(res.len(), 1);
    assert_eq!(res[0], s);
}

#[test]
fn test_subtract_full_cover() {
    let s = rect(0.2, 0.2, 0.8, 0.8);
    let o = rect(0.0, 0.0, 1.0, 1.0);
    let res = subtract_rect(&s, &o);
    assert!(res.is_empty());
    assert!(is_fully_occluded(&s, &[o]));
}

#[test]
fn test_subtract_half_slab() {
    let s = rect(0.0, 0.0, 1.0, 1.0);
    let o = rect(0.0, 0.0, 1.0, 0.5);
    let res = subtract_rect(&s, &o);
    assert_eq!(res.len(), 1);
    assert!(close(res[0].min.y, 0.5));
    assert!(close(res[0].max.y, 1.0));
}

#[test]
fn test_subtract_two_halves_fully_occluded() {
    let s = rect(0.0, 0.0, 1.0, 1.0);
    let o1 = rect(0.0, 0.0, 1.0, 0.5);
    let o2 = rect(0.0, 0.5, 1.0, 1.0);
    assert!(is_face_completely_occluded(&[s], &[o1, o2]));
}

#[test]
fn test_extract_quad_face_occlusion_rect() {
    let slab_top_inner = [
        v3(0.0, 0.5, 0.0),
        v3(0.0, 0.5, 1.0),
        v3(1.0, 0.5, 1.0),
        v3(1.0, 0.5, 0.0),
    ];
    assert!(extract_quad_face_occlusion_rect(&slab_top_inner, Direction::Up).is_none());

    let slab_bottom_outer = [
        v3(0.0, 0.0, 1.0),
        v3(0.0, 0.0, 0.0),
        v3(1.0, 0.0, 0.0),
        v3(1.0, 0.0, 1.0),
    ];
    let rect = extract_quad_face_occlusion_rect(&slab_bottom_outer, Direction::Down);
    assert!(rect.is_some());
    assert!(is_full_rect(&rect.unwrap(), 1));
}

#[test]
fn parsed_properties_come_in_key_order() {
    let (name, props) = parse_block_name_and_props("minecraft:oak_stairs[half=bottom, facing=north,shape=straight,facing=east]");
    assert_eq!(name, "oak_stairs");
    assert_eq!(
        props,
        vec![
            ("facing".to_string(), "east".to_string()),
            ("half".to_string(), "bottom".to_string()),
            ("shape".to_string(), "straight".to_string()),
        ]
    );
}

#[test]
fn visible_faces_ask_each_neighbour_position() {
    let mut culler = FaceCuller::new(LeavesCullMode::Fancy, GlassCullMode::Group);
    let stone_east = |x: i32, y: i32, z: i32| {
        if (x, y, z) == (11, 20, 30) { Some("minecraft:stone".to_string()) } else { None }
    };
    let vis = get_visible_face_directions(10, 20, 30, "minecraft:stone", &mut culler, stone_east);
    assert_eq!(
        vis,
        vec![Direction::West, Direction::Up, Direction::Down, Direction::South, Direction::North]
    );
    let stone_below = |x: i32, y: i32, z: i32| {
        if (x, y, z) == (10, 19, 30) { Some("minecraft:stone".to_string()) } else { Some("minecraft:air".to_string()) }
    };
    let vis = get_visible_face_directions(10, 20, 30, "minecraft:stone", &mut culler, stone_below);
    assert_eq!(
        vis,
        vec![Direction::East, Direction::West, Direction::Up, Direction::South, Direction::North]
    );
    let none = |_: i32, _: i32, _: i32| None;
    assert!(get_visible_face_directions(0, 0, 0, "minecraft:air", &mut culler, none).is_empty());
    assert!(get_visible_face_directions(0, 0, 0, "", &mut culler, none).is_empty());
}

#[test]
fn visible_faces_use_cached_baked_entries() {
    let mut culler = FaceCuller::new(LeavesCullMode::Fancy, GlassCullMode::Group);
    let top = [v3(0.0, 1.0, 0.0), v3(0.0, 1.0, 1.0), v3(1.0, 1.0, 1.0), v3(1.0, 1.0, 0.0)];
    let baked = culler.get_meta("minecraft:stone", Some(&[(top, Direction::Up)]), None);
    assert!(baked.has_baked_model);
    assert_eq!(culler.cache_len(), 1);
    let none = |_: i32, _: i32, _: i32| None;
    let vis = get_visible_face_directions(0, 0, 0, "minecraft:stone", &mut culler, none);
    assert_eq!(vis, Direction::ALL.to_vec());
    assert_eq!(culler.cache_len(), 1);
    let stone_above = |x: i32, y: i32, z: i32| {
        if (x, y, z) == (0, 1, 0) { Some("minecraft:stone".to_string()) } else { None }
    };
    let vis = get_visible_face_directions(0, 0, 0, "minecraft:dirt", &mut culler, stone_above);
    assert!(!vis.contains(&Direction::Up));
    assert_eq!(vis.len(), 5);
    assert_eq!(culler.cache_len(), 2);
}

#[test]
fn computed_metadata_keeps_its_invariants() {
    let top = [v3(0.0, 1.0, 0.0), v3(0.0, 1.0, 1.0), v3(1.0, 1.0, 1.0), v3(1.0, 1.0, 0.0)];
    let quads = [(top, Direction::Up)];
    for s in [
        "minecraft:stone",
        "minecraft:air",
        "minecraft:water[level=0]",
        "minecraft:oak_slab[type=bottom]",
        "minecraft:oak_stairs[facing=east,half=bottom,shape=straight]",
        "mod:sub:thing",
        "",
        "minecraft:glass",
        "minecraft:oak_leaves",
    ] {
        for q in [None, Some(&quads[..])] {
            let m = compute_block_cull_meta(s, q, None);
            assert_eq!(m.state_str, s);
            assert_eq!(m.has_baked_model, q.is_some());
            assert_eq!(m.is_air, m.category == CullCategory::Air);
            assert_eq!(m.is_fluid, m.category == CullCategory::Fluid);
            assert_eq!(m.full_face_mask.bits & m.empty_face_mask.bits, 0);
            assert!(!m.block_name.contains(':'));
            if m.category == CullCategory::SolidOpaque {
                assert_eq!(m.full_face_mask.bits, 63);
                assert!(m.face_shapes.iter().all(|sh| sh.len() == 1 && is_full_rect(&sh[0], 1)));
            }
        }
    }
}

#[test]
fn repeated_lookups_share_the_cached_entry() {
    let mut culler = FaceCuller::new(LeavesCullMode::Fancy, GlassCullMode::Group);
    let first = culler.get_meta("minecraft:oak_slab[type=top]", None, None);
    assert_eq!(culler.cache_len(), 1);
    let second = culler.get_meta("minecraft:oak_slab[type=top]", None, Some(true));
    assert!(std::sync::Arc::ptr_eq(&first, &second));
    assert_eq!(culler.cache_len(), 1);
}
