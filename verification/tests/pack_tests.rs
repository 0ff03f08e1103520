use piecanvas::canvas::Color;
use piecanvas::mesh::Vertex;
use piecanvas::pack::{
    pack_indices, pack_vertices, push_vertex, vertex_layout, AttributeFormat, LayoutElement,
    VertexAttribute, INDEX_BYTES, VERTEX_BYTES,
};

fn vertex(x: i32, y: i32, u: u16, v: u16) -> Vertex {
    Vertex { x, y, u, v, color: Color { r: 1, g: 2, b: 3, a: 4 } }
}

#[test]
fn layout_names_position_texture_coordinate_and_color() {
    assert_eq!(
        vertex_layout(),
        vec![
            LayoutElement {
                attribute: VertexAttribute::Position,
                format: AttributeFormat::Int2,
                offset: 0
            },
            LayoutElement {
                attribute: VertexAttribute::TexCoord,
                format: AttributeFormat::Ushort2Norm,
                offset: 8
            },
            LayoutElement {
                attribute: VertexAttribute::Color,
                format: AttributeFormat::Uchar4Norm,
                offset: 12
            },
        ]
    );
    assert_eq!(VERTEX_BYTES, 16);
    assert_eq!(INDEX_BYTES, 2);
}

#[test]
fn vertex_is_packed_least_significant_byte_first() {
    let mut bytes = vec![9];
    push_vertex(&mut bytes, &vertex(0x0102_0304, -2, 0xabcd, 7));
    assert_eq!(
        bytes,
        vec![9, 4, 3, 2, 1, 0xfe, 0xff, 0xff, 0xff, 0xcd, 0xab, 7, 0, 1, 2, 3, 4]
    );
}

#[test]
fn packed_vertex_matches_the_machine_encoding() {
    let samples = [0, 1, -1, 255, 256, -256, 65535, 65536, i32::MAX, i32::MIN, -123456789];
    for x in samples {
        for y in samples {
            let v = vertex(x, y, (x as u32 % 65536) as u16, (y as u32 % 65521) as u16);
            let mut expected = Vec::new();
            expected.extend_from_slice(&x.to_le_bytes());
            expected.extend_from_slice(&y.to_le_bytes());
            expected.extend_from_slice(&v.u.to_le_bytes());
            expected.extend_from_slice(&v.v.to_le_bytes());
            expected.extend_from_slice(&[1, 2, 3, 4]);
            assert_eq!(pack_vertices(&vec![v]), expected);
        }
    }
}

#[test]
fn vertices_and_indices_are_packed_in_order() {
    let bytes = pack_vertices(&vec![vertex(1, 2, 3, 4), vertex(5, 6, 7, 8)]);
    assert_eq!(bytes.len(), 32);
    assert_eq!(bytes[0], 1);
    assert_eq!(bytes[16], 5);
    assert_eq!(bytes[24], 7);
    assert_eq!(bytes[31], 4);
    assert!(pack_vertices(&Vec::new()).is_empty());
    assert_eq!(pack_indices(&vec![0, 1, 0x1234, 0xffff]), vec![0, 0, 1, 0, 0x34, 0x12, 0xff, 0xff]);
    assert!(pack_indices(&Vec::new()).is_empty());
}
