//! The packed records that a backend uploads: what a vertex and an index
//! look like in memory, and the layout that tells a GPU how to read them.
//!
//! A vertex takes sixteen bytes: its position as two signed 32-bit integers,
//! its texture coordinate as two unsigned 16-bit integers, which a GPU reads
//! as fractions of the texture's extent, and its colour as four bytes. All
//! integers are stored least significant byte first.

use vstd::prelude::*;
use crate::mesh::Vertex;

verus! {

/// Bytes of one packed vertex.
pub const VERTEX_BYTES: usize = 16;

/// Bytes of one packed index.
pub const INDEX_BYTES: usize = 2;

/// What an attribute of a vertex means.
#[derive(Clone, Copy, Debug, PartialEq, Eq, Structural)]
pub enum VertexAttribute {
    Position,
    TexCoord,
    Color,
}

/// How an attribute of a vertex is stored.
#[derive(Clone, Copy, Debug, PartialEq, Eq, Structural)]
pub enum AttributeFormat {
    /// Two signed integers of 32 bits.
    Int2,
    /// Two unsigned integers of 16 bits, read as fractions of 65535.
    Ushort2Norm,
    /// Four unsigned bytes, read as fractions of 255.
    Uchar4Norm,
}

/// One attribute of the vertex layout: what it means, how it is stored, and
/// at which byte of the record it begins.
#[derive(Clone, Copy, Debug, PartialEq, Eq, Structural)]
pub struct LayoutElement {
    pub attribute: VertexAttribute,
    pub format: AttributeFormat,
    pub offset: usize,
}

/// The layout of a packed vertex.
pub open spec fn layout() -> Seq<LayoutElement> {
    seq![
        LayoutElement {
            attribute: VertexAttribute::Position,
            format: AttributeFormat::Int2,
            offset: 0,
        },
        LayoutElement {
            attribute: VertexAttribute::TexCoord,
            format: AttributeFormat::Ushort2Norm,
            offset: 8,
        },
        LayoutElement {
            attribute: VertexAttribute::Color,
            format: AttributeFormat::Uchar4Norm,
            offset: 12,
        },
    ]
}

/// The unsigned number that stands for `v` in 32 bits of two's complement.
pub open spec fn unsigned32(v: int) -> int {
    if v < 0 {
        v + 0x1_0000_0000
    } else {
        v
    }
}

/// Byte `k` of the unsigned number `x`, counted from the least significant.
pub open spec fn byte_of(x: int, k: int) -> u8 {
    if k == 0 {
        (x % 0x100) as u8
    } else if k == 1 {
        (x / 0x100 % 0x100) as u8
    } else if k == 2 {
        (x / 0x1_0000 % 0x100) as u8
    } else {
        (x / 0x100_0000 % 0x100) as u8
    }
}

/// Byte `k` of the packed record of `v`, `0 <= k < VERTEX_BYTES`.
pub open spec fn record_byte(v: Vertex, k: int) -> u8 {
    if k < 4 {
        byte_of(unsigned32(v.x as int), k)
    } else if k < 8 {
        byte_of(unsigned32(v.y as int), k - 4)
    } else if k < 10 {
        byte_of(v.u as int, k - 8)
    } else if k < 12 {
        byte_of(v.v as int, k - 10)
    } else if k == 12 {
        v.color.r
    } else if k == 13 {
        v.color.g
    } else if k == 14 {
        v.color.b
    } else {
        v.color.a
    }
}

/// The packed records of `vertices`, one after the other.
pub open spec fn packed_vertices(vertices: Seq<Vertex>) -> Seq<u8> {
    Seq::new(
        (VERTEX_BYTES * vertices.len()) as nat,
        |j: int| record_byte(vertices[j / VERTEX_BYTES as int], j % VERTEX_BYTES as int),
    )
}

/// The packed `indices`, two bytes each.
pub open spec fn packed_indices(indices: Seq<u16>) -> Seq<u8> {
    Seq::new(
        (INDEX_BYTES * indices.len()) as nat,
        |j: int| byte_of(indices[j / INDEX_BYTES as int] as int, j % INDEX_BYTES as int),
    )
}

/// Packing loses nothing: two vertices with the same record are the same
/// vertex.
pub proof fn lemma_record_tells_vertices_apart(a: Vertex, b: Vertex)
    requires
        forall|k: int| 0 <= k < VERTEX_BYTES ==> record_byte(a, k) == record_byte(b, k),
    ensures
        a == b,
{
    assert(record_byte(a, 0) == record_byte(b, 0));
    assert(record_byte(a, 1) == record_byte(b, 1));
    assert(record_byte(a, 2) == record_byte(b, 2));
    assert(record_byte(a, 3) == record_byte(b, 3));
    assert(record_byte(a, 4) == record_byte(b, 4));
    assert(record_byte(a, 5) == record_byte(b, 5));
    assert(record_byte(a, 6) == record_byte(b, 6));
    assert(record_byte(a, 7) == record_byte(b, 7));
    assert(record_byte(a, 8) == record_byte(b, 8));
    assert(record_byte(a, 9) == record_byte(b, 9));
    assert(record_byte(a, 10) == record_byte(b, 10));
    assert(record_byte(a, 11) == record_byte(b, 11));
    assert(record_byte(a, 12) == record_byte(b, 12));
    assert(record_byte(a, 13) == record_byte(b, 13));
    assert(record_byte(a, 14) == record_byte(b, 14));
    assert(record_byte(a, 15) == record_byte(b, 15));
    lemma_bytes_tell_numbers_apart(unsigned32(a.x as int), unsigned32(b.x as int));
    lemma_bytes_tell_numbers_apart(unsigned32(a.y as int), unsigned32(b.y as int));
    lemma_bytes_tell_numbers_apart(a.u as int, b.u as int);
    lemma_bytes_tell_numbers_apart(a.v as int, b.v as int);
}

/// Two numbers of 32 bits with the same four bytes are the same number.
pub proof fn lemma_bytes_tell_numbers_apart(x: int, y: int)
    requires
        0 <= x < 0x1_0000_0000,
        0 <= y < 0x1_0000_0000,
        forall|k: int| 0 <= k < 4 ==> byte_of(x, k) == byte_of(y, k),
    ensures
        x == y,
{
    assert(byte_of(x, 0) == byte_of(y, 0));
    assert(byte_of(x, 1) == byte_of(y, 1));
    assert(byte_of(x, 2) == byte_of(y, 2));
    assert(byte_of(x, 3) == byte_of(y, 3));
    lemma_number_from_bytes(x as u32);
    lemma_number_from_bytes(y as u32);
}

/// A number of 32 bits is the sum of its four bytes, each at its place.
proof fn lemma_number_from_bytes(x: u32)
    ensures
        x == x % 0x100 + 0x100 * (x / 0x100 % 0x100) + 0x1_0000 * (x / 0x1_0000 % 0x100)
            + 0x100_0000 * (x / 0x100_0000 % 0x100),
{
    assert(x == x % 0x100 + 0x100 * (x / 0x100 % 0x100) + 0x1_0000 * (x / 0x1_0000 % 0x100)
        + 0x100_0000 * (x / 0x100_0000 % 0x100)) by (bit_vector);
}

/// The layout of a packed vertex.
pub fn vertex_layout() -> (elements: Vec<LayoutElement>)
    ensures
        elements@ == layout(),
{
    let mut elements: Vec<LayoutElement> = Vec::new();
    elements.push(
        LayoutElement {
            attribute: VertexAttribute::Position,
            format: AttributeFormat::Int2,
            offset: 0,
        },
    );
    elements.push(
        LayoutElement {
            attribute: VertexAttribute::TexCoord,
            format: AttributeFormat::Ushort2Norm,
            offset: 8,
        },
    );
    elements.push(
        LayoutElement {
            attribute: VertexAttribute::Color,
            format: AttributeFormat::Uchar4Norm,
            offset: 12,
        },
    );
    assert(elements@ =~= layout());
    elements
}

/// Appends the four bytes of `x` to `bytes`, least significant first.
fn push_u32(bytes: &mut Vec<u8>, x: u32)
    ensures
        final(bytes)@ == old(bytes)@.push(byte_of(x as int, 0)).push(byte_of(x as int, 1)).push(
            byte_of(x as int, 2),
        ).push(byte_of(x as int, 3)),
{
    bytes.push((x % 0x100) as u8);
    bytes.push((x / 0x100 % 0x100) as u8);
    bytes.push((x / 0x1_0000 % 0x100) as u8);
    bytes.push((x / 0x100_0000 % 0x100) as u8);
}

/// Appends the two bytes of `x` to `bytes`, least significant first.
fn push_u16(bytes: &mut Vec<u8>, x: u16)
    ensures
        final(bytes)@ == old(bytes)@.push(byte_of(x as int, 0)).push(byte_of(x as int, 1)),
{
    bytes.push((x % 0x100) as u8);
    bytes.push((x / 0x100 % 0x100) as u8);
}

/// The unsigned number that stands for `v` in two's complement.
fn to_unsigned(v: i32) -> (x: u32)
    ensures
        x == unsigned32(v as int),
{
    if v < 0 {
        (v as i64 + 0x1_0000_0000) as u32
    } else {
        v as u32
    }
}

/// Appends the packed record of `v` to `bytes`.
pub fn push_vertex(bytes: &mut Vec<u8>, v: &Vertex)
    ensures
        final(bytes)@ == old(bytes)@ + Seq::new(
            VERTEX_BYTES as nat,
            |k: int| record_byte(*v, k),
        ),
{
    push_u32(bytes, to_unsigned(v.x));
    push_u32(bytes, to_unsigned(v.y));
    push_u16(bytes, v.u);
    push_u16(bytes, v.v);
    bytes.push(v.color.r);
    bytes.push(v.color.g);
    bytes.push(v.color.b);
    bytes.push(v.color.a);
    assert(bytes@ =~= old(bytes)@ + Seq::new(VERTEX_BYTES as nat, |k: int| record_byte(*v, k)));
}

/// The packed records of `vertices`.
pub fn pack_vertices(vertices: &Vec<Vertex>) -> (bytes: Vec<u8>)
    ensures
        bytes@ == packed_vertices(vertices@),
{
    let mut bytes: Vec<u8> = Vec::new();
    let mut i: usize = 0;
    while i < vertices.len()
        invariant
            0 <= i <= vertices.len(),
            bytes@ == packed_vertices(vertices@.subrange(0, i as int)),
        decreases vertices.len() - i,
    {
        push_vertex(&mut bytes, &vertices[i]);
        assert(bytes@ =~= packed_vertices(vertices@.subrange(0, i + 1)));
        i = i + 1;
    }
    assert(vertices@.subrange(0, vertices@.len() as int) =~= vertices@);
    bytes
}

/// The packed `indices`.
pub fn pack_indices(indices: &Vec<u16>) -> (bytes: Vec<u8>)
    ensures
        bytes@ == packed_indices(indices@),
{
    let mut bytes: Vec<u8> = Vec::new();
    let mut i: usize = 0;
    while i < indices.len()
        invariant
            0 <= i <= indices.len(),
            bytes@ == packed_indices(indices@.subrange(0, i as int)),
        decreases indices.len() - i,
    {
        push_u16(&mut bytes, indices[i]);
        assert(bytes@ =~= packed_indices(indices@.subrange(0, i + 1)));
        i = i + 1;
    }
    assert(indices@.subrange(0, indices@.len() as int) =~= indices@);
    bytes
}

} // verus!
