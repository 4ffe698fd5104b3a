use field_gen::ply::{ply_binary_bytes, PlyError, PlySurface};
use field_gen::stl::{parse_binary_stl, StlError};
use field_gen::text::{decimal_string, parse_unsigned, str_eq};

fn binary_stl(triangles: &[[[f32; 3]; 3]]) -> Vec<u8> {
    let mut bytes = vec![0u8; 80];
    bytes.extend_from_slice(&(triangles.len() as u32).to_le_bytes());
    for triangle in triangles {
        bytes.extend_from_slice(&[0u8; 12]);
        for vertex in triangle {
            for coordinate in vertex {
                bytes.extend_from_slice(&coordinate.to_le_bytes());
            }
        }
        bytes.extend_from_slice(&[0u8; 2]);
    }
    bytes
}

#[test]
fn binary_stl_coordinates_are_read_in_order() {
    let bytes = binary_stl(&[[[1.0, 2.0, 3.0], [4.0, 5.0, 6.0], [7.0, 8.0, 9.5]]]);

    let triangles = parse_binary_stl(&bytes).unwrap().unwrap();

    assert_eq!(triangles.len(), 1);
    let read: Vec<f32> = triangles[0]
        .vertices
        .iter()
        .flat_map(|vertex| vertex.iter().map(|bits| f32::from_bits(*bits)))
        .collect();
    assert_eq!(read, vec![1.0, 2.0, 3.0, 4.0, 5.0, 6.0, 7.0, 8.0, 9.5]);
}

#[test]
fn short_or_mismatched_input_is_not_binary_stl() {
    assert!(parse_binary_stl(b"solid cube\nendsolid cube\n").unwrap().is_none());
    let mut bytes = binary_stl(&[[[0.0; 3]; 3]]);
    bytes.push(0);
    assert!(parse_binary_stl(&bytes).unwrap().is_none());
    let empty = binary_stl(&[]);
    assert_eq!(parse_binary_stl(&empty).unwrap().unwrap().len(), 0);
}

#[test]
fn stl_error_messages() {
    assert_eq!(StlError::TriangleCountTooLarge.message(), "binary STL triangle count is too large");
    assert_eq!(StlError::SizeOverflow.message(), "binary STL size overflow");
}

fn header(vertices: usize, faces: usize) -> Vec<u8> {
    let mut text = String::new();
    text.push_str("ply\n");
    text.push_str("format binary_little_endian 1.0\n");
    text.push_str("comment shockwave-layers generated isosurfaces\n");
    text.push_str(&format!("element vertex {}\n", vertices));
    text.push_str("property double x\n");
    text.push_str("property double y\n");
    text.push_str("property double z\n");
    text.push_str(&format!("element face {}\n", faces));
    text.push_str("property list uchar uint vertex_indices\n");
    text.push_str("property uint surface_level\n");
    text.push_str("property double surface_value\n");
    text.push_str("end_header\n");
    text.into_bytes()
}

#[test]
fn ply_offsets_indices_of_later_surfaces() {
    let first = PlySurface {
        vertices: vec![
            [0.0f64.to_bits(), 0.0f64.to_bits(), 0.0f64.to_bits()],
            [1.0f64.to_bits(), 0.0f64.to_bits(), 0.0f64.to_bits()],
            [0.0f64.to_bits(), 1.0f64.to_bits(), 0.0f64.to_bits()],
        ],
        triangles: vec![[0, 1, 2]],
        level: 1,
        value_bits: 0.25f64.to_bits(),
    };
    let second = PlySurface {
        vertices: vec![
            [0.0f64.to_bits(), 0.0f64.to_bits(), 1.0f64.to_bits()],
            [1.0f64.to_bits(), 0.0f64.to_bits(), 1.0f64.to_bits()],
            [0.0f64.to_bits(), 1.0f64.to_bits(), 1.0f64.to_bits()],
        ],
        triangles: vec![[2, 1, 0]],
        level: 2,
        value_bits: 0.5f64.to_bits(),
    };

    let bytes = ply_binary_bytes(&vec![first, second]).unwrap();

    let mut expected = header(6, 2);
    for (x, y, z) in [
        (0.0f64, 0.0f64, 0.0f64),
        (1.0, 0.0, 0.0),
        (0.0, 1.0, 0.0),
        (0.0, 0.0, 1.0),
        (1.0, 0.0, 1.0),
        (0.0, 1.0, 1.0),
    ] {
        expected.extend_from_slice(&x.to_le_bytes());
        expected.extend_from_slice(&y.to_le_bytes());
        expected.extend_from_slice(&z.to_le_bytes());
    }
    for (indices, level, value) in [([0u32, 1, 2], 1u32, 0.25f64), ([5, 4, 3], 2, 0.5)] {
        expected.push(3);
        for index in indices {
            expected.extend_from_slice(&index.to_le_bytes());
        }
        expected.extend_from_slice(&level.to_le_bytes());
        expected.extend_from_slice(&value.to_le_bytes());
    }
    assert_eq!(bytes, expected);
    assert_eq!(bytes.len(), header(6, 2).len() + 24 * 6 + 25 * 2);
}

#[test]
fn ply_of_no_surfaces_is_a_bare_header() {
    assert_eq!(ply_binary_bytes(&vec![]).unwrap(), header(0, 0));
    assert_eq!(
        PlyError::TooManyVertices.message(),
        "PLY export supports at most u32::MAX vertices"
    );
}

#[test]
fn decimal_rendering_and_parsing_agree() {
    for n in [0usize, 7, 10, 99, 100, 12345, usize::MAX] {
        let text = decimal_string(n);
        assert_eq!(text, n.to_string());
        assert_eq!(parse_unsigned(&text, usize::MAX as u64), Some(n as u64));
    }
}

#[test]
fn unsigned_parsing_follows_from_str() {
    assert_eq!(parse_unsigned("+42", 1000), Some(42));
    assert_eq!(parse_unsigned("0042", 1000), Some(42));
    assert_eq!(parse_unsigned("", 1000), None);
    assert_eq!(parse_unsigned("+", 1000), None);
    assert_eq!(parse_unsigned("-1", 1000), None);
    assert_eq!(parse_unsigned(" 1", 1000), None);
    assert_eq!(parse_unsigned("12a", 1000), None);
    assert_eq!(parse_unsigned("1001", 1000), None);
    assert_eq!(parse_unsigned("1000", 1000), Some(1000));
    assert_eq!(parse_unsigned("255", u8::MAX as u64), Some(255));
    assert_eq!(parse_unsigned("256", u8::MAX as u64), None);
    assert_eq!(parse_unsigned("18446744073709551616", u64::MAX), None);
}

#[test]
fn string_equality_compares_text() {
    assert!(str_eq("abc", "abc"));
    assert!(!str_eq("abc", "abd"));
    assert!(!str_eq("abc", "ab"));
}
