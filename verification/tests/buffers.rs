use libmtk::attributes::{AttributeData, AttributeDomain};
use libmtk::mesh::buffers::{
    decode_attribute_bytes, parse_attribute_domain, parse_attribute_kind, AttributeBufferError, AttributeKind,
};
use libmtk::mesh::MeshData;

#[test]
fn domain_and_type_names_ignore_case_and_space() {
    assert_eq!(parse_attribute_domain(" Vertex "), Some(AttributeDomain::Point));
    assert_eq!(parse_attribute_domain("face_varying"), Some(AttributeDomain::Corner));
    assert_eq!(parse_attribute_domain("UNIFORM"), Some(AttributeDomain::Face));
    assert_eq!(parse_attribute_domain("constant"), Some(AttributeDomain::Mesh));
    assert_eq!(parse_attribute_domain("edge"), None);
    assert_eq!(parse_attribute_kind("Color"), Some(AttributeKind::Float4));
    assert_eq!(parse_attribute_kind("byte"), Some(AttributeKind::UInt8));
    assert_eq!(parse_attribute_kind(" int "), Some(AttributeKind::Int32));
    assert_eq!(parse_attribute_kind("double"), None);
}

#[test]
fn buffers_decode_little_endian_elements() {
    let d = decode_attribute_bytes(AttributeKind::Int16, &[0xfe, 0xff, 0x02, 0x01]).unwrap();
    assert!(matches!(d, AttributeData::Int16(ref v) if v == &vec![-2, 0x0102]));
    let d = decode_attribute_bytes(AttributeKind::Float2, &[0, 0, 0x80, 0x3f, 0, 0, 0, 0]).unwrap();
    assert!(matches!(d, AttributeData::Float2(ref v) if v == &vec![[1.0f32.to_bits(), 0]]));
    let d = decode_attribute_bytes(AttributeKind::Bool, &[0, 7, 1]).unwrap();
    assert!(matches!(d, AttributeData::Bool(ref v) if v == &vec![false, true, true]));
    let d = decode_attribute_bytes(AttributeKind::Int8, &[0x80, 0x7f]).unwrap();
    assert!(matches!(d, AttributeData::Int8(ref v) if v == &vec![-128, 127]));
    assert_eq!(
        decode_attribute_bytes(AttributeKind::Float3, &[0; 8]).unwrap_err(),
        AttributeBufferError::MisalignedLength(AttributeKind::Float3)
    );
}

#[test]
fn decoded_buffers_write_back_unchanged() {
    let bytes: Vec<u8> = (0u8..48).collect();
    for kind in [
        AttributeKind::Float,
        AttributeKind::Float2,
        AttributeKind::Float3,
        AttributeKind::Float4,
        AttributeKind::Int8,
        AttributeKind::Int16,
        AttributeKind::Int32,
        AttributeKind::UInt8,
        AttributeKind::UInt16,
        AttributeKind::UInt32,
    ] {
        let d = decode_attribute_bytes(kind, &bytes).unwrap();
        assert_eq!(d.as_bytes(), Some(bytes.clone()));
    }
    let d = AttributeData::Int32(vec![-1, 7]);
    let again = decode_attribute_bytes(AttributeKind::Int32, &d.as_bytes().unwrap()).unwrap();
    assert!(matches!(again, AttributeData::Int32(ref v) if v == &vec![-1, 7]));
}

#[test]
fn mesh_attributes_from_buffers() {
    let mut mesh = MeshData::new();
    assert_eq!(mesh.add_attribute_from_bytes("w", "point", "float", &[0, 0, 128, 63]), Ok(()));
    assert_eq!(mesh.get_custom_attribute("w").unwrap().len(), 1);
    assert_eq!(mesh.add_attribute_from_bytes("x", "sideways", "float", &[0; 4]), Err(AttributeBufferError::InvalidDomain));
    assert_eq!(mesh.add_attribute_from_bytes("x", "face", "double", &[0; 8]), Err(AttributeBufferError::UnsupportedType));
    assert_eq!(
        mesh.add_attribute_from_bytes("x", "face", "u16", &[0; 3]),
        Err(AttributeBufferError::MisalignedLength(AttributeKind::UInt16))
    );
    assert!(!mesh.has_custom_attribute("x"));
    assert_eq!(mesh.add_string_attribute("k", "Face", vec!["minecraft:block/stone".to_string()]), Ok(()));
    assert_eq!(mesh.get_custom_attribute("k").unwrap().domain, AttributeDomain::Face);
    assert_eq!(mesh.add_string_attribute("k", "nowhere", vec![]), Err(AttributeBufferError::InvalidDomain));
}

#[test]
fn quad_corner_indices() {
    let mut mesh = MeshData::new();
    mesh.indices = vec![0, 1, 2, 0, 2, 3, 4, 5, 6, 4, 6, 7, 9];
    assert_eq!(mesh.quad_indices(), vec![[0, 1, 2, 3], [4, 5, 6, 7]]);
}
