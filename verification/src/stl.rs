//! Framing of binary STL files: an 80-byte header, a little-endian triangle
//! count, then 50 bytes per triangle (a normal, three vertices of three
//! little-endian `f32` coordinates, and a 2-byte attribute).

use crate::text::{is_whitespace, is_whitespace_char, str_eq};
use vstd::prelude::*;
use vstd::string::StrSliceExecFns;

verus! {

/// One STL triangle as the raw bit patterns of its nine `f32` coordinates:
/// `vertices[v][c]` is coordinate `c` (x, y, z) of vertex `v`.
#[derive(Clone, Copy, Debug)]
pub struct StlTriangleBits {
    pub vertices: [[u32; 3]; 3],
}

/// Why a binary STL cannot be framed.
#[derive(Clone, Copy, Debug, PartialEq, Eq, Structural)]
pub enum StlError {
    TriangleCountTooLarge,
    SizeOverflow,
}

/// The text of each framing error.
pub open spec fn stl_error_text(e: StlError) -> Seq<char> {
    match e {
        StlError::TriangleCountTooLarge => "binary STL triangle count is too large"@,
        StlError::SizeOverflow => "binary STL size overflow"@,
    }
}

impl StlError {
    /// The human-readable description of the error.
    pub fn message(&self) -> (r: String)
        ensures
            r@ == stl_error_text(*self),
    {
        match self {
            StlError::TriangleCountTooLarge => String::from_str("binary STL triangle count is too large"),
            StlError::SizeOverflow => String::from_str("binary STL size overflow"),
        }
    }
}

/// The little-endian `u32` stored at `off`.
pub open spec fn le_u32_at(bytes: Seq<u8>, off: int) -> int {
    bytes[off] + 256 * bytes[off + 1] + 65536 * bytes[off + 2] + 16777216 * bytes[off + 3]
}

/// The triangle count field of a binary STL.
pub open spec fn stl_triangle_count(bytes: Seq<u8>) -> int {
    le_u32_at(bytes, 80)
}

/// Byte offset of coordinate `c` of vertex `v` of triangle `t`.
pub open spec fn stl_coordinate_offset(t: int, v: int, c: int) -> int {
    84 + 50 * t + 12 + 12 * v + 4 * c
}

/// `bytes` is a complete binary STL: its length is exactly what its triangle count announces.
pub open spec fn is_binary_stl(bytes: Seq<u8>) -> bool {
    bytes.len() >= 84 && bytes.len() == 84 + 50 * stl_triangle_count(bytes)
}

/// The error that computing the announced size raises in `usize`, if any.
pub open spec fn stl_size_error(bytes: Seq<u8>) -> Option<StlError> {
    if bytes.len() < 84 {
        None
    } else if 50 * stl_triangle_count(bytes) > usize::MAX {
        Some(StlError::TriangleCountTooLarge)
    } else if 84 + 50 * stl_triangle_count(bytes) > usize::MAX {
        Some(StlError::SizeOverflow)
    } else {
        None
    }
}

/// The triangles `ts` are exactly those stored in the binary STL `bytes`.
pub open spec fn stl_triangles_match(bytes: Seq<u8>, ts: Seq<StlTriangleBits>) -> bool {
    &&& ts.len() == stl_triangle_count(bytes)
    &&& forall|t: int, v: int, c: int|
        0 <= t < ts.len() && 0 <= v < 3 && 0 <= c < 3 ==> #[trigger] ts[t].vertices[v][c] as int == le_u32_at(
            bytes,
            stl_coordinate_offset(t, v, c),
        )
}

/// The little-endian `u32` at `off`.
fn read_u32_le(bytes: &[u8], off: usize) -> (r: u32)
    requires
        off + 4 <= bytes@.len(),
    ensures
        r as int == le_u32_at(bytes@, off as int),
{
    let b0 = bytes[off] as u32;
    let b1 = bytes[off + 1] as u32;
    let b2 = bytes[off + 2] as u32;
    let b3 = bytes[off + 3] as u32;
    let r = b0 | (b1 << 8) | (b2 << 16) | (b3 << 24);
    assert(r == b0 + 256 * b1 + 65536 * b2 + 16777216 * b3) by (bit_vector)
        requires
            b0 < 256,
            b1 < 256,
            b2 < 256,
            b3 < 256,
            r == b0 | (b1 << 8) | (b2 << 16) | (b3 << 24);
    r
}

/// Reads one vertex (three coordinates) starting at `off`.
fn read_vertex_bits(bytes: &[u8], off: usize) -> (r: [u32; 3])
    requires
        off + 12 <= bytes@.len() <= usize::MAX,
    ensures
        forall|c: int| 0 <= c < 3 ==> #[trigger] r[c] as int == le_u32_at(bytes@, off + 4 * c),
{
    let x = read_u32_le(bytes, off);
    let y = read_u32_le(bytes, off + 4);
    let z = read_u32_le(bytes, off + 8);
    let r = [x, y, z];
    assert forall|c: int| 0 <= c < 3 implies #[trigger] r[c] as int == le_u32_at(bytes@, off + 4 * c) by {
        if c == 0 {
        } else if c == 1 {
        } else {
        }
    }
    r
}

/// Frames a binary STL: `Ok(None)` when the bytes are not a binary STL
/// (shorter than the 84-byte preamble, or of another length than the
/// triangle count announces), otherwise the raw coordinates of every triangle.
pub fn parse_binary_stl(bytes: &[u8]) -> (r: Result<Option<Vec<StlTriangleBits>>, StlError>)
    ensures
        r matches Err(e) ==> stl_size_error(bytes@) == Some(e),
        stl_size_error(bytes@) is Some ==> r is Err,
        r matches Ok(None) ==> !is_binary_stl(bytes@),
        r matches Ok(Some(ts)) ==> is_binary_stl(bytes@) && stl_triangles_match(bytes@, ts@),
        stl_size_error(bytes@) is None && is_binary_stl(bytes@) ==> r matches Ok(Some(_)),
{
    if bytes.len() < 84 {
        return Ok(None);
    }
    let triangle_count = read_u32_le(bytes, 80) as usize;
    let body_len = match triangle_count.checked_mul(50) {
        Some(v) => v,
        None => return Err(StlError::TriangleCountTooLarge),
    };
    let expected_len = match 84usize.checked_add(body_len) {
        Some(v) => v,
        None => return Err(StlError::SizeOverflow),
    };
    if expected_len != bytes.len() {
        return Ok(None);
    }
    let mut triangles: Vec<StlTriangleBits> = Vec::new();
    let mut t: usize = 0;
    while t < triangle_count
        invariant
            bytes@.len() == 84 + 50 * triangle_count,
            bytes@.len() == expected_len,
            triangle_count == stl_triangle_count(bytes@),
            t <= triangle_count,
            triangles@.len() == t,
            forall|u: int, v: int, c: int|
                0 <= u < t && 0 <= v < 3 && 0 <= c < 3 ==> #[trigger] triangles@[u].vertices[v][c] as int
                    == le_u32_at(bytes@, stl_coordinate_offset(u, v, c)),
        decreases triangle_count - t,
    {
        assert(84 + 50 * t + 12 + 36 <= 84 + 50 * triangle_count) by (nonlinear_arith)
            requires t < triangle_count;
        let offset = 84 + 50 * t + 12;
        let v0 = read_vertex_bits(bytes, offset);
        let v1 = read_vertex_bits(bytes, offset + 12);
        let v2 = read_vertex_bits(bytes, offset + 24);
        let triangle = StlTriangleBits { vertices: [v0, v1, v2] };
        triangles.push(triangle);
        assert forall|u: int, v: int, c: int|
            0 <= u < t + 1 && 0 <= v < 3 && 0 <= c < 3 implies #[trigger] triangles@[u].vertices[v][c] as int
                == le_u32_at(bytes@, stl_coordinate_offset(u, v, c)) by {
            if u == t {
                if v == 0 {
                    assert(v0[c] as int == le_u32_at(bytes@, offset + 4 * c));
                } else if v == 1 {
                    assert(v1[c] as int == le_u32_at(bytes@, offset + 12 + 4 * c));
                } else {
                    assert(v2[c] as int == le_u32_at(bytes@, offset + 24 + 4 * c));
                }
            }
        }
        t += 1;
    }
    Ok(Some(triangles))
}

/// A line without the `\r` of a `\r\n` ending.
pub open spec fn without_carriage_return(line: Seq<char>) -> Seq<char> {
    if line.len() > 0 && line.last() == '\r' {
        line.drop_last()
    } else {
        line
    }
}

/// The lines of `s` that follow the partial line `current`: each line ends
/// at a `\n`, which is dropped together with a `\r` just before it; a last
/// line without a `\n` is kept whole, and an empty one is no line.
pub open spec fn lines_after(s: Seq<char>, current: Seq<char>) -> Seq<Seq<char>>
    decreases s.len(),
{
    if s.len() == 0 {
        if current.len() > 0 {
            seq![current]
        } else {
            Seq::empty()
        }
    } else if s[0] == '\n' {
        seq![without_carriage_return(current)] + lines_after(s.drop_first(), Seq::empty())
    } else {
        lines_after(s.drop_first(), current.push(s[0]))
    }
}

/// What `str::lines` yields for `text`, as its documentation states: the
/// lines split at `\n` or `\r\n`, without those endings, where a final
/// line ending is optional.
pub open spec fn lines_of(text: Seq<char>) -> Seq<Seq<char>> {
    lines_after(text, Seq::empty())
}

/// The words of `s` that follow the partial word `current`: the maximal
/// runs of characters that are not whitespace.
pub open spec fn words_after(s: Seq<char>, current: Seq<char>) -> Seq<Seq<char>>
    decreases s.len(),
{
    let finished = if current.len() > 0 {
        seq![current]
    } else {
        Seq::empty()
    };
    if s.len() == 0 {
        finished
    } else if is_whitespace(s[0]) {
        finished + words_after(s.drop_first(), Seq::empty())
    } else {
        words_after(s.drop_first(), current.push(s[0]))
    }
}

/// The words of `line`, in order: its maximal runs of characters that are
/// not Unicode whitespace.
pub open spec fn words_of(line: Seq<char>) -> Seq<Seq<char>> {
    words_after(line, Seq::empty())
}

/// What `str::from_utf8` reads from `bytes`: the text they encode, or
/// nothing when they are not UTF-8.
pub uninterp spec fn utf8_decoded(bytes: Seq<u8>) -> Option<Seq<char>>;

/// The texts of a list of strings.
pub open spec fn views(strings: Seq<String>) -> Seq<Seq<char>> {
    strings.map_values(|s: String| s@)
}

/// The texts of `strings` with one more string.
proof fn lemma_views_push(strings: Seq<String>, s: String)
    ensures
        views(strings.push(s)) == views(strings).push(s@),
{
    assert(views(strings.push(s)) =~= views(strings).push(s@));
}

/// The lines of `text`, as `str::lines` gives them (see `lines_of`).
fn text_lines(text: &str) -> (r: Vec<String>)
    ensures
        views(r@) == lines_of(text@),
{
    let n = text.unicode_len();
    let mut lines: Vec<String> = Vec::new();
    let mut start: usize = 0;
    let mut i: usize = 0;
    assert(views(lines@) =~= Seq::<Seq<char>>::empty());
    assert(text@.skip(0) =~= text@);
    assert(text@.subrange(0, 0) =~= Seq::<char>::empty());
    while i < n
        invariant
            n == text@.len(),
            start <= i <= n,
            views(lines@) + lines_after(text@.skip(i as int), text@.subrange(start as int, i as int))
                == lines_of(text@),
        decreases n - i,
    {
        let c = text.get_char(i);
        let ghost current = text@.subrange(start as int, i as int);
        let ghost before = views(lines@);
        assert(text@.skip(i as int).drop_first() =~= text@.skip(i + 1));
        if c == '\n' {
            let end = if start < i && text.get_char(i - 1) == '\r' {
                i - 1
            } else {
                i
            };
            assert(text@.subrange(start as int, end as int) == without_carriage_return(current)) by {
                if start < i && text@[i - 1] == '\r' {
                    assert(current.drop_last() =~= text@.subrange(start as int, end as int));
                } else {
                    assert(current =~= text@.subrange(start as int, end as int));
                }
            }
            let line = String::from_str(text.substring_char(start, end));
            proof {
                lemma_views_push(lines@, line);
            }
            lines.push(line);
            assert(text@.subrange(i + 1, i + 1) =~= Seq::<char>::empty());
            assert(views(lines@) + lines_after(text@.skip(i + 1), text@.subrange(i + 1, i + 1)) =~= before
                + lines_after(text@.skip(i as int), current));
            start = i + 1;
        } else {
            assert(current.push(c) =~= text@.subrange(start as int, i + 1));
        }
        i += 1;
    }
    let ghost current = text@.subrange(start as int, n as int);
    assert(text@.skip(n as int) =~= Seq::<char>::empty());
    if start < n {
        let line = String::from_str(text.substring_char(start, n));
        proof {
            lemma_views_push(lines@, line);
            assert(views(lines@).push(line@) =~= views(lines@) + seq![current]);
        }
        lines.push(line);
    } else {
        assert(views(lines@) + Seq::<Seq<char>>::empty() =~= views(lines@));
    }
    lines
}

/// The words of `line`, as `str::split_whitespace` gives them (see
/// `words_of`).
fn line_words(line: &str) -> (r: Vec<String>)
    ensures
        views(r@) == words_of(line@),
{
    let n = line.unicode_len();
    let mut words: Vec<String> = Vec::new();
    let mut start: usize = 0;
    let mut i: usize = 0;
    assert(views(words@) =~= Seq::<Seq<char>>::empty());
    assert(line@.skip(0) =~= line@);
    assert(line@.subrange(0, 0) =~= Seq::<char>::empty());
    while i < n
        invariant
            n == line@.len(),
            start <= i <= n,
            views(words@) + words_after(line@.skip(i as int), line@.subrange(start as int, i as int))
                == words_of(line@),
        decreases n - i,
    {
        let c = line.get_char(i);
        let ghost current = line@.subrange(start as int, i as int);
        let ghost before = views(words@);
        assert(line@.skip(i as int).drop_first() =~= line@.skip(i + 1));
        if is_whitespace_char(c) {
            if start < i {
                let word = String::from_str(line.substring_char(start, i));
                proof {
                    lemma_views_push(words@, word);
                }
                words.push(word);
                assert(views(words@) =~= before + seq![current]);
            } else {
                assert(current =~= Seq::<char>::empty());
                assert(views(words@) =~= before + Seq::<Seq<char>>::empty());
            }
            assert(line@.subrange(i + 1, i + 1) =~= Seq::<char>::empty());
            start = i + 1;
        } else {
            assert(current.push(c) =~= line@.subrange(start as int, i + 1));
        }
        i += 1;
    }
    let ghost current = line@.subrange(start as int, n as int);
    assert(line@.skip(n as int) =~= Seq::<char>::empty());
    if start < n {
        let word = String::from_str(line.substring_char(start, n));
        proof {
            lemma_views_push(words@, word);
            assert(views(words@).push(word@) =~= views(words@) + seq![current]);
        }
        words.push(word);
    } else {
        assert(views(words@) + Seq::<Seq<char>>::empty() =~= views(words@));
    }
    words
}

/// `str::from_utf8`: the text that `bytes` encode, if they are UTF-8; the
/// result is named `utf8_decoded`.
#[verifier::external_body]
fn decode_utf8(bytes: &[u8]) -> (r: Option<String>)
    ensures
        r is None <==> utf8_decoded(bytes@) is None,
        r matches Some(text) ==> utf8_decoded(bytes@) == Some(text@),
{
    match std::str::from_utf8(bytes) {
        Ok(text) => Some(text.to_string()),
        Err(_) => None,
    }
}

/// The three coordinate fields of an ASCII STL `vertex` line: the words
/// after `vertex`, each absent when the line ends before it.
pub type VertexFields = [Option<String>; 3];

/// The word at position `k`, if the line has one.
pub open spec fn word_at(words: Seq<Seq<char>>, k: int) -> Option<Seq<char>> {
    if k < words.len() {
        Some(words[k])
    } else {
        None
    }
}

/// The coordinate fields of the `vertex` lines of `lines`, in order: a line
/// counts when its first word is `vertex`, and its fields are the next
/// three words.
pub open spec fn vertex_fields(lines: Seq<Seq<char>>) -> Seq<[Option<Seq<char>>; 3]>
    decreases lines.len(),
{
    if lines.len() == 0 {
        Seq::empty()
    } else {
        let words = words_of(lines.last());
        let rest = vertex_fields(lines.drop_last());
        if words.len() > 0 && words[0] == "vertex"@ {
            rest.push([word_at(words, 1), word_at(words, 2), word_at(words, 3)])
        } else {
            rest
        }
    }
}

/// The view of the fields of one vertex line.
pub open spec fn fields_view(f: VertexFields) -> [Option<Seq<char>>; 3] {
    [
        match f[0] {
            Some(s) => Some(s@),
            None => None,
        },
        match f[1] {
            Some(s) => Some(s@),
            None => None,
        },
        match f[2] {
            Some(s) => Some(s@),
            None => None,
        },
    ]
}

fn word(words: &Vec<String>, k: usize) -> (r: Option<String>)
    ensures
        match word_at(views(words@), k as int) {
            Some(w) => r matches Some(s) && s@ == w,
            None => r is None,
        },
{
    if k < words.len() {
        Some(words[k].clone())
    } else {
        None
    }
}

/// The coordinate fields of every `vertex` line of an ASCII STL text.
pub fn ascii_vertex_fields(text: &str) -> (r: Vec<VertexFields>)
    ensures
        r@.map_values(|f: VertexFields| fields_view(f)) == vertex_fields(lines_of(text@)),
{
    let lines = text_lines(text);
    let mut fields: Vec<VertexFields> = Vec::new();
    let mut i: usize = 0;
    while i < lines.len()
        invariant
            i <= lines@.len(),
            views(lines@) == lines_of(text@),
            fields@.map_values(|f: VertexFields| fields_view(f)) == vertex_fields(views(lines@).take(i as int)),
        decreases lines@.len() - i,
    {
        let words = line_words(lines[i].as_str());
        let ghost prefix = views(lines@).take(i + 1);
        let ghost ws = views(words@);
        proof {
            assert(prefix.drop_last() =~= views(lines@).take(i as int));
            assert(prefix.last() == lines@[i as int]@);
            assert(words_of(prefix.last()) == ws);
        }
        if words.len() > 0 && str_eq(words[0].as_str(), "vertex") {
            let entry: VertexFields = [word(&words, 1), word(&words, 2), word(&words, 3)];
            let ghost before = fields@;
            fields.push(entry);
            proof {
                assert(ws[0] == words@[0]@);
                let expected: [Option<Seq<char>>; 3] = [word_at(ws, 1), word_at(ws, 2), word_at(ws, 3)];
                assert(fields_view(entry)[0] == expected[0]);
                assert(fields_view(entry)[1] == expected[1]);
                assert(fields_view(entry)[2] == expected[2]);
                assert(fields_view(entry) == expected);
                assert(vertex_fields(prefix) == vertex_fields(views(lines@).take(i as int)).push(expected));
                assert(fields@.map_values(|f: VertexFields| fields_view(f)) =~= before.map_values(
                    |f: VertexFields| fields_view(f),
                ).push(fields_view(entry)));
            }
        } else {
            proof {
                if ws.len() > 0 {
                    assert(ws[0] == words@[0]@);
                }
                assert(vertex_fields(prefix) == vertex_fields(views(lines@).take(i as int)));
            }
        }
        i += 1;
    }
    assert(views(lines@).take(i as int) =~= views(lines@));
    fields
}

/// What an STL file holds: binary triangles, or the coordinate fields of
/// the vertex lines of an ASCII file.
#[derive(Clone, Debug)]
pub enum StlContents {
    Binary(Vec<StlTriangleBits>),
    Ascii(Vec<VertexFields>),
}

/// Why an STL file cannot be read.
#[derive(Clone, Debug, PartialEq, Eq)]
pub enum StlReadError {
    Binary(StlError),
    NotText,
}

/// The text of each read error.
pub open spec fn stl_read_error_text(e: StlReadError) -> Seq<char> {
    match e {
        StlReadError::Binary(b) => stl_error_text(b),
        StlReadError::NotText => "STL is neither valid binary STL nor UTF-8 ASCII STL"@,
    }
}

impl StlReadError {
    /// The human-readable description of the error.
    pub fn message(&self) -> (r: String)
        ensures
            r@ == stl_read_error_text(*self),
    {
        match self {
            StlReadError::Binary(e) => e.message(),
            StlReadError::NotText => String::from_str("STL is neither valid binary STL nor UTF-8 ASCII STL"),
        }
    }
}

/// Reads an STL file: as binary when its length is what its triangle count
/// announces, and otherwise as ASCII text, of which the coordinate fields
/// of the vertex lines are returned.
pub fn read_stl(bytes: &[u8]) -> (r: Result<StlContents, StlReadError>)
    ensures
        stl_size_error(bytes@) matches Some(e) ==> r == Err::<StlContents, StlReadError>(StlReadError::Binary(e)),
        stl_size_error(bytes@) is None && is_binary_stl(bytes@) ==> (r matches Ok(StlContents::Binary(ts))
            && stl_triangles_match(bytes@, ts@)),
        stl_size_error(bytes@) is None && !is_binary_stl(bytes@) ==> match utf8_decoded(bytes@) {
            None => r == Err::<StlContents, StlReadError>(StlReadError::NotText),
            Some(text) => r matches Ok(StlContents::Ascii(fields)) && fields@.map_values(
                |f: VertexFields| fields_view(f),
            ) == vertex_fields(lines_of(text)),
        },
{
    match parse_binary_stl(bytes) {
        Err(e) => Err(StlReadError::Binary(e)),
        Ok(Some(triangles)) => Ok(StlContents::Binary(triangles)),
        Ok(None) => match decode_utf8(bytes) {
            None => Err(StlReadError::NotText),
            Some(text) => Ok(StlContents::Ascii(ascii_vertex_fields(text.as_str()))),
        },
    }
}

} // verus!
