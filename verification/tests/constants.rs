use libmtk::attributes::{AttributeDomain, LightLevel};
use libmtk::constants::concurrency::determine_conservative_threads;
use libmtk::constants::lighting::MAX_LIGHT_LEVEL;
use libmtk::constants::voxel;

#[test]
fn test_voxel_constants() {
    assert_eq!(voxel::SECTION_SIZE, 16);
    assert_eq!(voxel::SECTION_VOLUME, 4096);
    assert_eq!(voxel::PADDED_SIZE, 18);
    assert_eq!(voxel::PADDED_VOLUME, 5832);
    assert_eq!(voxel::block_index(0, 0, 0), 0);
    assert_eq!(voxel::block_index(1, 0, 0), 256);
    assert_eq!(voxel::block_index(0, 1, 0), 16);
    assert_eq!(voxel::block_index(0, 0, 1), 1);
    assert_eq!(voxel::block_index(15, 15, 15), 4095);
}

#[test]
fn padded_index_layout() {
    assert_eq!(voxel::padded_index(0, 0, 0), 0);
    assert_eq!(voxel::padded_index(1, 0, 0), 324);
    assert_eq!(voxel::padded_index(0, 1, 0), 18);
    assert_eq!(voxel::padded_index(17, 17, 17), 5831);
    assert_eq!(voxel::SECTION_AREA, 256);
    assert_eq!(voxel::SECTION_MASK, 15);
    assert_eq!(voxel::SECTION_SHIFT, 4);
}

#[test]
fn block_index_beyond_section_uses_bit_or() {
    // 16 << 4 overlaps the x field: the index is the bitwise or of the fields
    assert_eq!(voxel::block_index(0, 16, 0), 256);
    assert_eq!(voxel::block_index(0, 0, 17), 17);
}

#[test]
fn test_concurrency_helpers() {
    let cons = determine_conservative_threads(16, 8);
    assert!((1..=8).contains(&cons));
    assert_eq!(cons, 8);
    assert_eq!(determine_conservative_threads(6, 8), 3);
    assert_eq!(determine_conservative_threads(1, 8), 1);
    assert_eq!(determine_conservative_threads(0, 0), 0);
    assert_eq!(determine_conservative_threads(64, 0), 0);
}

#[test]
fn light_level_clamps_and_packs() {
    let l = LightLevel::new(20, 7);
    assert_eq!(l, LightLevel { block: 15, sky: 7 });
    assert_eq!(l.pack_u8(), 0x7F);
    assert_eq!(LightLevel::unpack_u8(0x7F), l);
    assert_eq!(LightLevel::unpack_u8(0xA3), LightLevel { block: 3, sky: 10 });
    for b in 0..=255u8 {
        assert_eq!(LightLevel::unpack_u8(b).pack_u8(), b);
    }
    assert_eq!(LightLevel::max().pack_u8(), 0xFF);
    assert_eq!(LightLevel::zero().pack_u8(), 0);
    assert_eq!(MAX_LIGHT_LEVEL, 15);
}

#[test]
fn attribute_domain_names() {
    assert_eq!(AttributeDomain::Point.as_str(), "point");
    assert_eq!(AttributeDomain::Corner.as_str(), "corner");
    assert_eq!(AttributeDomain::Face.as_str(), "face");
    assert_eq!(AttributeDomain::Mesh.as_str(), "mesh");
    assert_eq!(AttributeDomain::default(), AttributeDomain::Point);
}
