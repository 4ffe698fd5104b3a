//! The binary little-endian PLY encoding of a set of isosurfaces: a text
//! header announcing the vertex and face counts, every vertex as three
//! binary64 coordinates, then every face as a vertex count, three `u32`
//! vertex indices into the file-wide vertex list, the surface's level and
//! the surface's field value.

use crate::bmp::{le32, push_u32_le};
use crate::text::{decimal, decimal_string};
use vstd::prelude::*;

verus! {

/// One isosurface: vertex coordinates as binary64 bit patterns, triangles
/// as indices into its own vertices, its level number and its field value
/// (as a binary64 bit pattern).
#[derive(Clone, Debug)]
pub struct PlySurface {
    pub vertices: Vec<[u64; 3]>,
    pub triangles: Vec<[usize; 3]>,
    pub level: usize,
    pub value_bits: u64,
}

/// Why a surface set cannot be written as PLY.
#[derive(Clone, Copy, Debug, PartialEq, Eq, Structural)]
pub enum PlyError {
    TooManyVertices,
}

impl PlyError {
    /// The human-readable description of the error.
    pub fn message(&self) -> (r: String)
        ensures
            r@ == "PLY export supports at most u32::MAX vertices"@,
    {
        String::from_str("PLY export supports at most u32::MAX vertices")
    }
}

/// Little-endian bytes of the 64-bit `v`.
pub open spec fn le64(v: u64) -> Seq<u8> {
    le32((v % 0x1_0000_0000) as int) + le32((v / 0x1_0000_0000) as int)
}

/// The bytes of a text made of characters below 256 (ASCII here).
pub open spec fn text_bytes(s: Seq<char>) -> Seq<u8> {
    s.map_values(|c: char| c as u8)
}

/// The PLY header for `vertices` vertices and `faces` faces.
pub open spec fn ply_header(vertices: nat, faces: nat) -> Seq<char> {
    "ply\nformat binary_little_endian 1.0\ncomment shockwave-layers generated isosurfaces\nelement vertex "@
        + decimal(vertices) + "\nproperty double x\nproperty double y\nproperty double z\nelement face "@
        + decimal(faces)
        + "\nproperty list uchar uint vertex_indices\nproperty uint surface_level\nproperty double surface_value\nend_header\n"@
}

/// The number of vertices of all the surfaces.
pub open spec fn vertex_total(surfaces: Seq<PlySurface>) -> nat
    decreases surfaces.len(),
{
    if surfaces.len() == 0 {
        0
    } else {
        vertex_total(surfaces.drop_last()) + surfaces.last().vertices@.len()
    }
}

/// The number of triangles of all the surfaces.
pub open spec fn face_total(surfaces: Seq<PlySurface>) -> nat
    decreases surfaces.len(),
{
    if surfaces.len() == 0 {
        0
    } else {
        face_total(surfaces.drop_last()) + surfaces.last().triangles@.len()
    }
}

/// The bytes of the vertices `vs`, in order.
pub open spec fn vertex_bytes(vs: Seq<[u64; 3]>) -> Seq<u8>
    decreases vs.len(),
{
    if vs.len() == 0 {
        Seq::empty()
    } else {
        let v = vs.last();
        vertex_bytes(vs.drop_last()) + le64(v[0]) + le64(v[1]) + le64(v[2])
    }
}

/// The vertex section: the vertices of every surface, surface by surface.
pub open spec fn vertex_section(surfaces: Seq<PlySurface>) -> Seq<u8>
    decreases surfaces.len(),
{
    if surfaces.len() == 0 {
        Seq::empty()
    } else {
        vertex_section(surfaces.drop_last()) + vertex_bytes(surfaces.last().vertices@)
    }
}

/// The record of one face: the count 3, its indices moved by `offset` (the
/// low 32 bits of each), the low 32 bits of the level, and the value.
pub open spec fn face_record(t: [usize; 3], offset: nat, level: usize, value_bits: u64) -> Seq<u8> {
    seq![3u8] + le32((t[0] + offset) % 0x1_0000_0000) + le32((t[1] + offset) % 0x1_0000_0000) + le32(
        (t[2] + offset) % 0x1_0000_0000,
    ) + le32(level as int % 0x1_0000_0000) + le64(value_bits)
}

/// The records of the faces `ts` of a surface whose vertices start at `offset`.
pub open spec fn face_bytes(ts: Seq<[usize; 3]>, offset: nat, level: usize, value_bits: u64) -> Seq<u8>
    decreases ts.len(),
{
    if ts.len() == 0 {
        Seq::empty()
    } else {
        face_bytes(ts.drop_last(), offset, level, value_bits) + face_record(ts.last(), offset, level, value_bits)
    }
}

/// The face section: the faces of every surface, surface by surface, each
/// surface's indices moved past the vertices of the surfaces before it.
pub open spec fn face_section(surfaces: Seq<PlySurface>) -> Seq<u8>
    decreases surfaces.len(),
{
    if surfaces.len() == 0 {
        Seq::empty()
    } else {
        let s = surfaces.last();
        face_section(surfaces.drop_last()) + face_bytes(
            s.triangles@,
            vertex_total(surfaces.drop_last()),
            s.level,
            s.value_bits,
        )
    }
}

/// The whole PLY file.
pub open spec fn ply_bytes(surfaces: Seq<PlySurface>) -> Seq<u8> {
    text_bytes(ply_header(vertex_total(surfaces), face_total(surfaces))) + vertex_section(surfaces)
        + face_section(surfaces)
}

/// Every moved index of every face fits in `usize`.
pub open spec fn indices_fit(surfaces: Seq<PlySurface>) -> bool {
    forall|s: int, t: int, k: int|
        0 <= s < surfaces.len() && 0 <= t < surfaces[s].triangles@.len() && 0 <= k < 3 ==> vertex_total(
            surfaces.take(s),
        ) + #[trigger] surfaces[s].triangles@[t][k] <= usize::MAX
}

proof fn lemma_totals_monotone(surfaces: Seq<PlySurface>, s: int)
    requires
        0 <= s <= surfaces.len(),
    ensures
        vertex_total(surfaces.take(s)) <= vertex_total(surfaces),
        face_total(surfaces.take(s)) <= face_total(surfaces),
    decreases surfaces.len() - s,
{
    if s < surfaces.len() {
        lemma_totals_monotone(surfaces, s + 1);
        assert(surfaces.take(s + 1).drop_last() =~= surfaces.take(s));
    } else {
        assert(surfaces.take(s) =~= surfaces);
    }
}

fn push_u64_le(bytes: &mut Vec<u8>, v: u64)
    ensures
        final(bytes)@ == old(bytes)@ + le64(v),
{
    let low = (v % 0x1_0000_0000) as u32;
    let high = (v / 0x1_0000_0000) as u32;
    push_u32_le(bytes, low);
    push_u32_le(bytes, high);
    assert(bytes@ =~= old(bytes)@ + le64(v));
}

fn push_text(bytes: &mut Vec<u8>, text: &str)
    ensures
        final(bytes)@ == old(bytes)@ + text_bytes(text@),
{
    let n = text.unicode_len();
    let mut i: usize = 0;
    while i < n
        invariant
            n == text@.len(),
            i <= n,
            bytes@ == old(bytes)@ + text_bytes(text@.take(i as int)),
        decreases n - i,
    {
        let c = text.get_char(i);
        bytes.push(c as u8);
        proof {
            assert(text_bytes(text@.take(i + 1)) =~= text_bytes(text@.take(i as int)).push(c as u8));
        }
        i += 1;
    }
    assert(text@.take(n as int) =~= text@);
}

fn header_text(vertices: usize, faces: usize) -> (r: String)
    ensures
        r@ == ply_header(vertices as nat, faces as nat),
{
    let mut text = String::from_str(
        "ply\nformat binary_little_endian 1.0\ncomment shockwave-layers generated isosurfaces\nelement vertex ",
    );
    text.append(decimal_string(vertices).as_str());
    text.append("\nproperty double x\nproperty double y\nproperty double z\nelement face ");
    text.append(decimal_string(faces).as_str());
    text.append(
        "\nproperty list uchar uint vertex_indices\nproperty uint surface_level\nproperty double surface_value\nend_header\n",
    );
    text
}

/// Counts the vertices and faces of all the surfaces.
fn totals(surfaces: &Vec<PlySurface>) -> (r: (usize, usize))
    requires
        vertex_total(surfaces@) <= usize::MAX,
        face_total(surfaces@) <= usize::MAX,
    ensures
        r.0 == vertex_total(surfaces@),
        r.1 == face_total(surfaces@),
{
    let mut vertices: usize = 0;
    let mut faces: usize = 0;
    let mut s: usize = 0;
    while s < surfaces.len()
        invariant
            s <= surfaces@.len(),
            vertex_total(surfaces@) <= usize::MAX,
            face_total(surfaces@) <= usize::MAX,
            vertices == vertex_total(surfaces@.take(s as int)),
            faces == face_total(surfaces@.take(s as int)),
        decreases surfaces@.len() - s,
    {
        proof {
            assert(surfaces@.take(s + 1).drop_last() =~= surfaces@.take(s as int));
            lemma_totals_monotone(surfaces@, s + 1);
        }
        vertices = vertices + surfaces[s].vertices.len();
        faces = faces + surfaces[s].triangles.len();
        s += 1;
    }
    assert(surfaces@.take(s as int) =~= surfaces@);
    (vertices, faces)
}

fn push_vertices(bytes: &mut Vec<u8>, vertices: &Vec<[u64; 3]>)
    ensures
        final(bytes)@ == old(bytes)@ + vertex_bytes(vertices@),
{
    let mut v: usize = 0;
    while v < vertices.len()
        invariant
            v <= vertices@.len(),
            bytes@ == old(bytes)@ + vertex_bytes(vertices@.take(v as int)),
        decreases vertices@.len() - v,
    {
        let vertex = vertices[v];
        push_u64_le(bytes, vertex[0]);
        push_u64_le(bytes, vertex[1]);
        push_u64_le(bytes, vertex[2]);
        proof {
            assert(vertices@.take(v + 1).drop_last() =~= vertices@.take(v as int));
        }
        v += 1;
    }
    assert(vertices@.take(v as int) =~= vertices@);
}

fn push_face_record(bytes: &mut Vec<u8>, triangle: [usize; 3], offset: usize, level: usize, value_bits: u64)
    requires
        offset + triangle[0] <= usize::MAX,
        offset + triangle[1] <= usize::MAX,
        offset + triangle[2] <= usize::MAX,
    ensures
        final(bytes)@ == old(bytes)@ + face_record(triangle, offset as nat, level, value_bits),
{
    bytes.push(3u8);
    let i0 = triangle[0] + offset;
    let i1 = triangle[1] + offset;
    let i2 = triangle[2] + offset;
    push_u32_le(bytes, (i0 as u64 % 0x1_0000_0000) as u32);
    push_u32_le(bytes, (i1 as u64 % 0x1_0000_0000) as u32);
    push_u32_le(bytes, (i2 as u64 % 0x1_0000_0000) as u32);
    push_u32_le(bytes, (level as u64 % 0x1_0000_0000) as u32);
    push_u64_le(bytes, value_bits);
    assert(bytes@ =~= old(bytes)@ + face_record(triangle, offset as nat, level, value_bits));
}

fn push_faces(bytes: &mut Vec<u8>, surface: &PlySurface, offset: usize)
    requires
        forall|t: int, k: int|
            0 <= t < surface.triangles@.len() && 0 <= k < 3 ==> offset + #[trigger] surface.triangles@[t][k]
                <= usize::MAX,
    ensures
        final(bytes)@ == old(bytes)@ + face_bytes(surface.triangles@, offset as nat, surface.level, surface.value_bits),
{
    let mut t: usize = 0;
    while t < surface.triangles.len()
        invariant
            t <= surface.triangles@.len(),
            forall|t: int, k: int|
                0 <= t < surface.triangles@.len() && 0 <= k < 3 ==> offset + #[trigger] surface.triangles@[t][k]
                    <= usize::MAX,
            bytes@ == old(bytes)@ + face_bytes(
                surface.triangles@.take(t as int),
                offset as nat,
                surface.level,
                surface.value_bits,
            ),
        decreases surface.triangles@.len() - t,
    {
        let triangle = surface.triangles[t];
        assert(offset + triangle[0] <= usize::MAX && offset + triangle[1] <= usize::MAX && offset + triangle[2]
            <= usize::MAX) by {
            assert(surface.triangles@[t as int][0] == triangle[0]);
        }
        push_face_record(bytes, triangle, offset, surface.level, surface.value_bits);
        proof {
            assert(surface.triangles@.take(t + 1).drop_last() =~= surface.triangles@.take(t as int));
            assert(surface.triangles@.take(t + 1).last() == triangle);
        }
        t += 1;
    }
    assert(surface.triangles@.take(t as int) =~= surface.triangles@);
}

/// Encodes the surfaces as a binary little-endian PLY file. More than
/// `u32::MAX` vertices in all is an error.
pub fn ply_binary_bytes(surfaces: &Vec<PlySurface>) -> (r: Result<Vec<u8>, PlyError>)
    requires
        vertex_total(surfaces@) <= usize::MAX,
        face_total(surfaces@) <= usize::MAX,
        indices_fit(surfaces@),
    ensures
        r is Err <==> vertex_total(surfaces@) > u32::MAX,
        r matches Ok(bytes) ==> bytes@ == ply_bytes(surfaces@),
{
    let (vertex_count, face_count) = totals(surfaces);
    if vertex_count > 0xffff_ffff {
        return Err(PlyError::TooManyVertices);
    }
    let mut bytes: Vec<u8> = Vec::new();
    let header = header_text(vertex_count, face_count);
    push_text(&mut bytes, header.as_str());
    let ghost header_bytes = bytes@;
    let mut s: usize = 0;
    while s < surfaces.len()
        invariant
            s <= surfaces@.len(),
            bytes@ == header_bytes + vertex_section(surfaces@.take(s as int)),
        decreases surfaces@.len() - s,
    {
        push_vertices(&mut bytes, &surfaces[s].vertices);
        proof {
            assert(surfaces@.take(s + 1).drop_last() =~= surfaces@.take(s as int));
        }
        s += 1;
    }
    assert(surfaces@.take(s as int) =~= surfaces@);
    let ghost vertex_bytes_end = bytes@;
    let mut offset: usize = 0;
    s = 0;
    while s < surfaces.len()
        invariant
            s <= surfaces@.len(),
            vertex_total(surfaces@) <= usize::MAX,
            indices_fit(surfaces@),
            offset == vertex_total(surfaces@.take(s as int)),
            bytes@ == vertex_bytes_end + face_section(surfaces@.take(s as int)),
        decreases surfaces@.len() - s,
    {
        proof {
            assert(surfaces@.take(s + 1).drop_last() =~= surfaces@.take(s as int));
            lemma_totals_monotone(surfaces@, s + 1);
            assert forall|t: int, k: int|
                0 <= t < surfaces@[s as int].triangles@.len() && 0 <= k < 3 implies offset
                    + #[trigger] surfaces@[s as int].triangles@[t][k] <= usize::MAX by {
                assert(vertex_total(surfaces@.take(s as int)) + surfaces@[s as int].triangles@[t][k] <= usize::MAX);
            }
        }
        push_faces(&mut bytes, &surfaces[s], offset);
        offset = offset + surfaces[s].vertices.len();
        s += 1;
    }
    assert(surfaces@.take(s as int) =~= surfaces@);
    Ok(bytes)
}

proof fn lemma_vertex_bytes_len(vs: Seq<[u64; 3]>)
    ensures
        vertex_bytes(vs).len() == 24 * vs.len(),
    decreases vs.len(),
{
    if vs.len() > 0 {
        lemma_vertex_bytes_len(vs.drop_last());
    }
}

proof fn lemma_face_record_len(t: [usize; 3], offset: nat, level: usize, value_bits: u64)
    ensures
        face_record(t, offset, level, value_bits).len() == 25,
{
    let a = le32((t[0] + offset) % 0x1_0000_0000);
    let b = le32((t[1] + offset) % 0x1_0000_0000);
    let c = le32((t[2] + offset) % 0x1_0000_0000);
    let d = le32(level as int % 0x1_0000_0000);
    let e = le64(value_bits);
    assert(a.len() == 4 && b.len() == 4 && c.len() == 4 && d.len() == 4 && e.len() == 8);
    assert(face_record(t, offset, level, value_bits) == seq![3u8] + a + b + c + d + e);
}

proof fn lemma_face_bytes_len(ts: Seq<[usize; 3]>, offset: nat, level: usize, value_bits: u64)
    ensures
        face_bytes(ts, offset, level, value_bits).len() == 25 * ts.len(),
    decreases ts.len(),
{
    if ts.len() > 0 {
        lemma_face_bytes_len(ts.drop_last(), offset, level, value_bits);
        lemma_face_record_len(ts.last(), offset, level, value_bits);
    }
}

proof fn lemma_sections_len(surfaces: Seq<PlySurface>)
    ensures
        vertex_section(surfaces).len() == 24 * vertex_total(surfaces),
        face_section(surfaces).len() == 25 * face_total(surfaces),
    decreases surfaces.len(),
{
    if surfaces.len() > 0 {
        let s = surfaces.last();
        lemma_sections_len(surfaces.drop_last());
        lemma_vertex_bytes_len(s.vertices@);
        lemma_face_bytes_len(s.triangles@, vertex_total(surfaces.drop_last()), s.level, s.value_bits);
    }
}

/// The size of a PLY file: the header, 24 bytes per vertex (three binary64
/// coordinates) and 25 bytes per face (a count byte, three indices, a level
/// and a binary64 value).
pub proof fn lemma_ply_size(surfaces: Seq<PlySurface>)
    ensures
        ply_bytes(surfaces).len() == ply_header(vertex_total(surfaces), face_total(surfaces)).len() + 24
            * vertex_total(surfaces) + 25 * face_total(surfaces),
{
    lemma_sections_len(surfaces);
}

} // verus!
