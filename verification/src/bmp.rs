//! The slice atlas layout and the 24-bit BMP encoding of an occupancy (and
//! optionally field) volume: each atlas cell is one z slice, cells are laid
//! out row-major, and every pixel stores blue, green, red.

use crate::grid::{lemma_index_coords, Grid};
use vstd::arithmetic::div_mod::{lemma_fundamental_div_mod, lemma_fundamental_div_mod_converse, lemma_mod_bound};
use vstd::prelude::*;

verus! {

/// How the z slices of a grid are tiled into one image.
#[derive(Clone, Copy, Debug)]
pub struct Atlas {
    pub columns: usize,
    pub rows: usize,
    pub width: usize,
    pub height: usize,
}

/// Why an atlas cannot be encoded as a BMP file.
#[derive(Clone, Copy, Debug, PartialEq, Eq, Structural)]
pub enum BmpError {
    PixelDataOverflow,
    FileSizeOverflow,
    DimensionsTooLarge,
    FileTooLarge,
}

/// The text of each encoding error.
pub open spec fn bmp_error_text(e: BmpError) -> Seq<char> {
    match e {
        BmpError::PixelDataOverflow => "BMP pixel data size overflow"@,
        BmpError::FileSizeOverflow => "BMP file size overflow"@,
        BmpError::DimensionsTooLarge => "BMP dimensions are too large"@,
        BmpError::FileTooLarge => "BMP file is too large"@,
    }
}

impl BmpError {
    /// The human-readable description of the error.
    pub fn message(&self) -> (r: String)
        ensures
            r@ == bmp_error_text(*self),
    {
        match self {
            BmpError::PixelDataOverflow => String::from_str("BMP pixel data size overflow"),
            BmpError::FileSizeOverflow => String::from_str("BMP file size overflow"),
            BmpError::DimensionsTooLarge => String::from_str("BMP dimensions are too large"),
            BmpError::FileTooLarge => String::from_str("BMP file is too large"),
        }
    }
}

/// `c` is the ceiling of the square root of `n`.
pub open spec fn is_ceil_sqrt(c: int, n: int) -> bool {
    c >= 0 && c * c >= n && (c == 0 || (c - 1) * (c - 1) < n)
}

/// `ceil(n / d)`.
pub open spec fn div_ceil(n: int, d: int) -> int {
    if n % d == 0 {
        n / d
    } else {
        n / d + 1
    }
}

/// The smallest `c` with `c * c >= n`.
fn ceil_sqrt(n: usize) -> (r: usize)
    ensures
        is_ceil_sqrt(r as int, n as int),
{
    if n == 0 {
        return 0;
    }
    // lo * lo < n <= hi * hi
    let mut lo: u64 = 0;
    let mut hi: u64 = if n as u128 > 0xffff_ffffu128 { 0x1_0000_0000 } else { n as u64 };
    assert(hi * hi >= n && hi <= n) by (nonlinear_arith)
        requires
            n >= 1,
            (n > 0xffff_ffff && hi == 0x1_0000_0000) || (n <= 0xffff_ffff && hi == n),
            n <= 0xffff_ffff_ffff_ffff;
    while hi - lo > 1
        invariant
            lo < hi <= 0x1_0000_0000,
            hi <= n,
            lo * lo < n,
            hi * hi >= n,
        decreases hi - lo,
    {
        let mid = lo + (hi - lo) / 2;
        assert(mid * mid <= 0x1_0000_0000 * 0x1_0000_0000) by (nonlinear_arith)
            requires mid <= 0x1_0000_0000;
        if (mid as u128) * (mid as u128) >= n as u128 {
            hi = mid;
        } else {
            lo = mid;
        }
    }
    assert(hi as int - 1 == lo as int);
    hi as usize
}

/// The atlas spec: `columns = ceil(sqrt(dims[2]))`, `rows = ceil(dims[2] / columns)`,
/// and the image is `columns` slices wide and `rows` slices tall.
pub open spec fn is_atlas_of(a: Atlas, g: Grid) -> bool {
    &&& is_ceil_sqrt(a.columns as int, g.d2())
    &&& a.rows as int == div_ceil(g.d2(), a.columns as int)
    &&& a.width as int == g.d0() * a.columns
    &&& a.height as int == g.d1() * a.rows
}

/// Lays the z slices of `grid` out as a near-square grid of image cells.
pub fn build_atlas(grid: &Grid) -> (r: Atlas)
    requires
        grid.dims[2] > 0,
        forall|c: int| #[trigger] is_ceil_sqrt(c, grid.d2()) ==> grid.d0() * c <= usize::MAX && grid.d1()
            * div_ceil(grid.d2(), c) <= usize::MAX,
    ensures
        is_atlas_of(r, *grid),
{
    let columns = ceil_sqrt(grid.dims[2]);
    assert(is_ceil_sqrt(columns as int, grid.d2()));
    assert(columns > 0);
    proof {
        let d2 = grid.d2();
        let c = columns as int;
        lemma_fundamental_div_mod(d2, c);
        lemma_mod_bound(d2, c);
        assert(d2 % c != 0 ==> d2 / c + 1 <= d2) by (nonlinear_arith)
            requires d2 == c * (d2 / c) + d2 % c, 0 <= d2 % c < c, c >= 1, d2 >= 1;
    }
    let rows = if grid.dims[2] % columns == 0 {
        grid.dims[2] / columns
    } else {
        grid.dims[2] / columns + 1
    };
    assert(grid.d0() * columns <= usize::MAX);
    Atlas { columns, rows, width: grid.dims[0] * columns, height: grid.dims[1] * rows }
}

// ---------------------------------------------------------------------------
// Byte-level layout of the BMP file
// ---------------------------------------------------------------------------

/// Little-endian bytes of the low 16 bits of `v`.
pub open spec fn le16(v: int) -> Seq<u8> {
    seq![(v % 256) as u8, ((v / 256) % 256) as u8]
}

/// Little-endian bytes of the low 32 bits of `v`.
pub open spec fn le32(v: int) -> Seq<u8> {
    seq![
        (v % 256) as u8,
        ((v / 256) % 256) as u8,
        ((v / 65536) % 256) as u8,
        ((v / 16777216) % 256) as u8,
    ]
}

/// The 32-bit two's-complement pattern of `-h`.
pub open spec fn negated32(h: int) -> int {
    if h == 0 {
        0
    } else {
        0x1_0000_0000 - h
    }
}

/// Bytes per padded pixel row.
pub open spec fn row_stride(width: int) -> int {
    div_ceil(width * 3, 4) * 4
}

/// The 54-byte BMP file and info header.
pub open spec fn bmp_header(width: int, height: int) -> Seq<u8> {
    let pixel_size = row_stride(width) * height;
    let file_size = 54 + pixel_size;
    seq![0x42u8, 0x4du8] + le32(file_size) + seq![0u8, 0u8, 0u8, 0u8] + le32(54) + le32(40) + le32(width)
        + le32(negated32(height)) + le16(1) + le16(24) + le32(0) + le32(pixel_size) + le32(2835) + le32(
        2835,
    ) + le32(0) + le32(0)
}

/// The (red, green, blue) colour of atlas pixel `(ax, ay)`: red is the field
/// channel (or the occupancy again when there is no field), green the
/// occupancy, and pixels past the last slice are black.
pub open spec fn atlas_pixel(
    occ: Seq<u8>,
    red: Option<Seq<u8>>,
    g: Grid,
    a: Atlas,
    ax: int,
    ay: int,
) -> (u8, u8, u8) {
    let z = (ay / g.d1()) * a.columns + ax / g.d0();
    let x = ax % g.d0();
    let y = ay % g.d1();
    if z < g.d2() {
        let i = g.spec_index(x, y, z);
        match red {
            Some(field) => (field[i], occ[i], 0u8),
            None => (occ[i], occ[i], occ[i]),
        }
    } else {
        (0u8, 0u8, 0u8)
    }
}

/// The byte at position `pos` of the pixel array (after the header).
pub open spec fn pixel_byte(occ: Seq<u8>, red: Option<Seq<u8>>, g: Grid, a: Atlas, pos: int) -> u8 {
    let stride = row_stride(a.width as int);
    let ay = pos / stride;
    let k = pos % stride;
    if k < 3 * a.width {
        let (r, gr, b) = atlas_pixel(occ, red, g, a, k / 3, ay);
        if k % 3 == 0 {
            b
        } else if k % 3 == 1 {
            gr
        } else {
            r
        }
    } else {
        0u8
    }
}

/// The byte at position `pos` of the whole BMP file.
pub open spec fn bmp_byte(occ: Seq<u8>, red: Option<Seq<u8>>, g: Grid, a: Atlas, pos: int) -> u8 {
    if pos < 54 {
        bmp_header(a.width as int, a.height as int)[pos]
    } else {
        pixel_byte(occ, red, g, a, pos - 54)
    }
}

/// The error, if any, that prevents encoding an atlas of this size.
pub open spec fn bmp_error(width: int, height: int) -> Option<BmpError> {
    let pixel_size = row_stride(width) * height;
    if pixel_size > usize::MAX {
        Some(BmpError::PixelDataOverflow)
    } else if 54 + pixel_size > usize::MAX {
        Some(BmpError::FileSizeOverflow)
    } else if width > 0x7fff_ffff || height > 0x7fff_ffff {
        Some(BmpError::DimensionsTooLarge)
    } else if 54 + pixel_size > 0xffff_ffff {
        Some(BmpError::FileTooLarge)
    } else {
        None
    }
}

pub(crate) fn push_u32_le(bytes: &mut Vec<u8>, v: u32)
    ensures
        final(bytes)@ == old(bytes)@ + le32(v as int),
{
    let b0 = (v & 0xff) as u8;
    let b1 = ((v >> 8) & 0xff) as u8;
    let b2 = ((v >> 16) & 0xff) as u8;
    let b3 = ((v >> 24) & 0xff) as u8;
    assert(b0 == v % 256 && b1 == (v / 256) % 256 && b2 == (v / 65536) % 256 && b3 == (v / 16777216) % 256)
        by (bit_vector)
        requires
            b0 == (v & 0xff) as u8,
            b1 == ((v >> 8) & 0xff) as u8,
            b2 == ((v >> 16) & 0xff) as u8,
            b3 == ((v >> 24) & 0xff) as u8;
    bytes.push(b0);
    bytes.push(b1);
    bytes.push(b2);
    bytes.push(b3);
    assert(bytes@ =~= old(bytes)@ + le32(v as int));
}

fn push_u16_le(bytes: &mut Vec<u8>, v: u16)
    ensures
        final(bytes)@ == old(bytes)@ + le16(v as int),
{
    let b0 = (v & 0xff) as u8;
    let b1 = ((v >> 8) & 0xff) as u8;
    assert(b0 == v % 256 && b1 == (v / 256) % 256) by (bit_vector)
        requires
            b0 == (v & 0xff) as u8,
            b1 == ((v >> 8) & 0xff) as u8;
    bytes.push(b0);
    bytes.push(b1);
    assert(bytes@ =~= old(bytes)@ + le16(v as int));
}

/// `(row * stride + k) / stride == row` and `(row * stride + k) % stride == k`.
proof fn lemma_row_position(stride: int, row: int, k: int)
    requires
        stride > 0,
        row >= 0,
        0 <= k < stride,
    ensures
        (row * stride + k) / stride == row,
        (row * stride + k) % stride == k,
{
    lemma_fundamental_div_mod_converse(row * stride + k, stride, row, k);
}

/// Appends the header of a BMP file of the given size.
fn push_bmp_header(bytes: &mut Vec<u8>, width: usize, height: usize, pixel_data_size: usize)
    requires
        old(bytes)@.len() == 0,
        width <= 0x7fff_ffff,
        height <= 0x7fff_ffff,
        pixel_data_size == row_stride(width as int) * height,
        54 + pixel_data_size <= 0xffff_ffff,
    ensures
        final(bytes)@ == bmp_header(width as int, height as int),
{
    let negated_height: u32 = if height == 0 {
        0
    } else {
        (0x1_0000_0000u64 - height as u64) as u32
    };
    bytes.push(0x42);
    bytes.push(0x4d);
    push_u32_le(bytes, (54 + pixel_data_size) as u32);
    push_u32_le(bytes, 0);
    push_u32_le(bytes, 54);
    push_u32_le(bytes, 40);
    push_u32_le(bytes, width as u32);
    push_u32_le(bytes, negated_height);
    push_u16_le(bytes, 1);
    push_u16_le(bytes, 24);
    push_u32_le(bytes, 0);
    push_u32_le(bytes, pixel_data_size as u32);
    push_u32_le(bytes, 2835);
    push_u32_le(bytes, 2835);
    push_u32_le(bytes, 0);
    push_u32_le(bytes, 0);
    proof {
        assert(le32(0) =~= seq![0u8, 0u8, 0u8, 0u8]);
        assert(bytes@ =~= bmp_header(width as int, height as int));
    }
}

/// The colour of atlas pixel `(atlas_x, atlas_y)`.
fn atlas_pixel_value(
    occupancy: &[u8],
    red: Option<&[u8]>,
    grid: &Grid,
    atlas: &Atlas,
    atlas_x: usize,
    atlas_y: usize,
) -> (r: (u8, u8, u8))
    requires
        grid.wf(),
        grid.dims[0] > 0,
        grid.dims[1] > 0,
        occupancy@.len() >= grid.spec_voxel_count(),
        red matches Some(f) ==> f@.len() >= grid.spec_voxel_count(),
        atlas_x < atlas.width,
        atlas_y < atlas.height,
        ((atlas.height as int) / grid.d1()) * atlas.columns + (atlas.width as int) / grid.d0() <= usize::MAX,
    ensures
        r == atlas_pixel(occupancy@, view_channel(red), *grid, *atlas, atlas_x as int, atlas_y as int),
{
    let slice_column = atlas_x / grid.dims[0];
    let slice_row = atlas_y / grid.dims[1];
    proof {
        vstd::arithmetic::div_mod::lemma_div_is_ordered(atlas_y as int, atlas.height as int, grid.d1());
        vstd::arithmetic::div_mod::lemma_div_is_ordered(atlas_x as int, atlas.width as int, grid.d0());
        vstd::arithmetic::mul::lemma_mul_inequality(slice_row as int, (atlas.height as int) / grid.d1(), atlas.columns as int);
    }
    let z = slice_row * atlas.columns + slice_column;
    let x = atlas_x % grid.dims[0];
    let y = atlas_y % grid.dims[1];
    if z < grid.dims[2] {
        let voxel_index = grid.index(x, y, z);
        match red {
            Some(field) => (field[voxel_index], occupancy[voxel_index], 0u8),
            None => {
                let value = occupancy[voxel_index];
                (value, value, value)
            },
        }
    } else {
        (0u8, 0u8, 0u8)
    }
}

/// The view of an optional channel slice.
pub open spec fn view_channel(red: Option<&[u8]>) -> Option<Seq<u8>> {
    match red {
        Some(f) => Some(f@),
        None => None,
    }
}

/// All bytes of `bytes` agree with the BMP layout.
pub open spec fn bytes_match(bytes: Seq<u8>, occ: Seq<u8>, red: Option<Seq<u8>>, g: Grid, a: Atlas) -> bool {
    forall|pos: int| 0 <= pos < bytes.len() ==> #[trigger] bytes[pos] == bmp_byte(occ, red, g, a, pos)
}

/// Appends pixel row `atlas_y` of the image, with its padding.
#[verifier::rlimit(30)]
fn push_pixel_row(
    bytes: &mut Vec<u8>,
    occupancy: &[u8],
    red: Option<&[u8]>,
    grid: &Grid,
    atlas: &Atlas,
    atlas_y: usize,
    stride: usize,
)
    requires
        grid.wf(),
        grid.dims[0] > 0,
        grid.dims[1] > 0,
        occupancy@.len() >= grid.spec_voxel_count(),
        red matches Some(f) ==> f@.len() >= grid.spec_voxel_count(),
        ((atlas.height as int) / grid.d1()) * atlas.columns + (atlas.width as int) / grid.d0() <= usize::MAX,
        stride == row_stride(atlas.width as int),
        stride >= atlas.width * 3,
        atlas_y < atlas.height,
        54 + atlas_y * stride + stride <= usize::MAX,
        old(bytes)@.len() == 54 + atlas_y * stride,
        bytes_match(old(bytes)@, occupancy@, view_channel(red), *grid, *atlas),
    ensures
        final(bytes)@.len() == 54 + atlas_y * stride + stride,
        bytes_match(final(bytes)@, occupancy@, view_channel(red), *grid, *atlas),
{
    let ghost occ = occupancy@;
    let ghost red_view = view_channel(red);
    let mut atlas_x: usize = 0;
    while atlas_x < atlas.width
        invariant
            grid.wf(),
            grid.dims[0] > 0,
            grid.dims[1] > 0,
            occ == occupancy@,
            red_view == view_channel(red),
            occupancy@.len() >= grid.spec_voxel_count(),
            red matches Some(f) ==> f@.len() >= grid.spec_voxel_count(),
            ((atlas.height as int) / grid.d1()) * atlas.columns + (atlas.width as int) / grid.d0() <= usize::MAX,
            stride == row_stride(atlas.width as int),
            stride >= atlas.width * 3,
            atlas_y < atlas.height,
            54 + atlas_y * stride + stride <= usize::MAX,
            atlas_x <= atlas.width,
            bytes@.len() == 54 + atlas_y * stride + 3 * atlas_x,
            bytes_match(bytes@, occ, red_view, *grid, *atlas),
        decreases atlas.width - atlas_x,
    {
        let (red_value, green_value, blue_value) = atlas_pixel_value(occupancy, red, grid, atlas, atlas_x, atlas_y);
        let ghost base = bytes@.len() as int;
        proof {
            lemma_row_position(stride as int, atlas_y as int, 3 * atlas_x);
            lemma_row_position(stride as int, atlas_y as int, 3 * atlas_x + 1);
            lemma_row_position(stride as int, atlas_y as int, 3 * atlas_x + 2);
            lemma_fundamental_div_mod_converse(3 * atlas_x, 3, atlas_x as int, 0);
            lemma_fundamental_div_mod_converse(3 * atlas_x + 1, 3, atlas_x as int, 1);
            lemma_fundamental_div_mod_converse(3 * atlas_x + 2, 3, atlas_x as int, 2);
            assert(bmp_byte(occ, red_view, *grid, *atlas, base) == blue_value);
            assert(bmp_byte(occ, red_view, *grid, *atlas, base + 1) == green_value);
            assert(bmp_byte(occ, red_view, *grid, *atlas, base + 2) == red_value);
        }
        bytes.push(blue_value);
        bytes.push(green_value);
        bytes.push(red_value);
        atlas_x += 1;
    }
    let row_bytes = atlas.width * 3;
    let padding = stride - row_bytes;
    let mut p: usize = 0;
    while p < padding
        invariant
            row_bytes == atlas.width * 3,
            stride == row_stride(atlas.width as int),
            stride >= row_bytes,
            padding == stride - row_bytes,
            54 + atlas_y * stride + stride <= usize::MAX,
            p <= padding,
            bytes@.len() == 54 + atlas_y * stride + row_bytes + p,
            bytes_match(bytes@, occ, red_view, *grid, *atlas),
        decreases padding - p,
    {
        proof {
            lemma_row_position(stride as int, atlas_y as int, row_bytes + p);
            assert(bmp_byte(occ, red_view, *grid, *atlas, bytes@.len() as int) == 0u8);
        }
        bytes.push(0);
        p += 1;
    }
}

/// Encodes the atlas image of `occupancy` (and of the field channel `red`,
/// when given) as a complete 24-bit top-down BMP file.
pub fn occupancy_bmp_bytes(
    occupancy: &[u8],
    red: Option<&[u8]>,
    grid: &Grid,
    atlas: &Atlas,
) -> (r: Result<Vec<u8>, BmpError>)
    requires
        grid.wf(),
        occupancy@.len() >= grid.spec_voxel_count(),
        red matches Some(f) ==> f@.len() >= grid.spec_voxel_count(),
        atlas.width * 3 + 3 <= usize::MAX,
        atlas.width > 0 && atlas.height > 0 ==> {
            &&& grid.dims[0] > 0
            &&& grid.dims[1] > 0
            &&& ((atlas.height as int) / grid.d1()) * atlas.columns + (atlas.width as int) / grid.d0()
                <= usize::MAX
        },
    ensures
        r matches Err(e) ==> bmp_error(atlas.width as int, atlas.height as int) == Some(e),
        r matches Ok(bytes) ==> {
            &&& bmp_error(atlas.width as int, atlas.height as int) is None
            &&& bytes@.len() == 54 + row_stride(atlas.width as int) * atlas.height
            &&& bytes_match(bytes@, occupancy@, view_channel(red), *grid, *atlas)
        },
        bmp_error(atlas.width as int, atlas.height as int) is None ==> r is Ok,
{
    let row_bytes = atlas.width * 3;
    let stride = if row_bytes % 4 == 0 {
        row_bytes / 4 * 4
    } else {
        (row_bytes / 4 + 1) * 4
    };
    assert(stride == row_stride(atlas.width as int));
    assert(stride >= row_bytes);
    let pixel_data_size = match stride.checked_mul(atlas.height) {
        Some(v) => v,
        None => return Err(BmpError::PixelDataOverflow),
    };
    if pixel_data_size > usize::MAX - 54 {
        return Err(BmpError::FileSizeOverflow);
    }
    let file_size = 54 + pixel_data_size;
    if atlas.width > 0x7fff_ffff || atlas.height > 0x7fff_ffff {
        return Err(BmpError::DimensionsTooLarge);
    }
    if file_size > 0xffff_ffff {
        return Err(BmpError::FileTooLarge);
    }
    let mut bytes: Vec<u8> = Vec::new();
    push_bmp_header(&mut bytes, atlas.width, atlas.height, pixel_data_size);
    if atlas.width == 0 || atlas.height == 0 {
        assert(row_stride(atlas.width as int) * atlas.height == 0) by (nonlinear_arith)
            requires
                atlas.width == 0 || atlas.height == 0,
                stride == row_stride(atlas.width as int),
                atlas.width == 0 ==> stride == 0,
        ;
        return Ok(bytes);
    }
    let mut atlas_y: usize = 0;
    while atlas_y < atlas.height
        invariant
            grid.wf(),
            grid.dims[0] > 0,
            grid.dims[1] > 0,
            occupancy@.len() >= grid.spec_voxel_count(),
            red matches Some(f) ==> f@.len() >= grid.spec_voxel_count(),
            ((atlas.height as int) / grid.d1()) * atlas.columns + (atlas.width as int) / grid.d0() <= usize::MAX,
            stride == row_stride(atlas.width as int),
            stride >= atlas.width * 3,
            stride * atlas.height <= usize::MAX - 54,
            atlas_y <= atlas.height,
            bytes@.len() == 54 + atlas_y * stride,
            bytes_match(bytes@, occupancy@, view_channel(red), *grid, *atlas),
        decreases atlas.height - atlas_y,
    {
        assert(atlas_y * stride + stride <= stride * atlas.height) by (nonlinear_arith)
            requires atlas_y < atlas.height, stride >= 0;
        push_pixel_row(&mut bytes, occupancy, red, grid, atlas, atlas_y, stride);
        assert(54 + atlas_y * stride + stride == 54 + (atlas_y + 1) * stride) by (nonlinear_arith);
        atlas_y += 1;
    }
    assert(bytes@.len() == 54 + row_stride(atlas.width as int) * atlas.height) by (nonlinear_arith)
        requires bytes@.len() == 54 + atlas_y * stride, atlas_y == atlas.height, stride == row_stride(atlas.width as int);
    Ok(bytes)
}

/// The atlas pixel column of voxel column `x` of slice `z`.
pub open spec fn atlas_x(g: Grid, a: Atlas, x: int, z: int) -> int {
    (z % (a.columns as int)) * g.d0() + x
}

/// The atlas pixel row of voxel row `y` of slice `z`.
pub open spec fn atlas_y(g: Grid, a: Atlas, y: int, z: int) -> int {
    (z / (a.columns as int)) * g.d1() + y
}

/// The atlas layout: slice `z` is the cell at column `z % columns` and row
/// `z / columns` (so `z = cell_x + cell_y * columns`), voxel `(x, y)` of the
/// slice is pixel `(x, y)` of its cell, and that pixel lies in the image.
/// Its green byte in the BMP file is the voxel's occupancy, its red byte
/// the field value (or the occupancy when there is no field), and its blue
/// byte zero (or the occupancy when there is no field).
pub proof fn lemma_atlas_pixel_of_voxel(
    occ: Seq<u8>,
    red: Option<Seq<u8>>,
    g: Grid,
    a: Atlas,
    x: int,
    y: int,
    z: int,
)
    requires
        is_atlas_of(a, g),
        g.contains(x, y, z),
    ensures
        0 <= atlas_x(g, a, x, z) < a.width,
        0 <= atlas_y(g, a, y, z) < a.height,
        ({
            let i = g.spec_index(x, y, z);
            let base = 54 + atlas_y(g, a, y, z) * row_stride(a.width as int) + 3 * atlas_x(g, a, x, z);
            &&& bmp_byte(occ, red, g, a, base + 1) == occ[i]
            &&& bmp_byte(occ, red, g, a, base + 2) == match red {
                Some(field) => field[i],
                None => occ[i],
            }
            &&& bmp_byte(occ, red, g, a, base) == match red {
                Some(_) => 0u8,
                None => occ[i],
            }
        }),
{
    let c = a.columns as int;
    let d0 = g.d0();
    let d1 = g.d1();
    let d2 = g.d2();
    assert(c >= 1) by {
        assert(c * c >= d2);
        if c == 0 {
            assert(c * c == 0);
        }
    }
    lemma_fundamental_div_mod(z, c);
    lemma_mod_bound(z, c);
    let cx = z % c;
    let cy = z / c;
    let ax = atlas_x(g, a, x, z);
    let ay = atlas_y(g, a, y, z);
    assert(cy >= 0) by {
        vstd::arithmetic::div_mod::lemma_div_pos_is_pos(z, c);
    }
    assert(ax < c * d0 && ax >= 0) by (nonlinear_arith)
        requires
            ax == cx * d0 + x,
            0 <= cx < c,
            0 <= x < d0,
    {
        assert(cx * d0 <= (c - 1) * d0);
    }
    assert(a.width as int == d0 * c);
    assert(cy < div_ceil(d2, c)) by {
        lemma_fundamental_div_mod(d2, c);
        lemma_mod_bound(d2, c);
        assert(cy * c <= z);
        if cy >= div_ceil(d2, c) {
            assert(div_ceil(d2, c) * c >= d2) by (nonlinear_arith)
                requires
                    c >= 1,
                    d2 == c * (d2 / c) + d2 % c,
                    0 <= d2 % c < c,
                    div_ceil(d2, c) == (if d2 % c == 0 {
                        d2 / c
                    } else {
                        d2 / c + 1
                    }),
            ;
            assert(cy * c >= div_ceil(d2, c) * c) by (nonlinear_arith)
                requires
                    cy >= div_ceil(d2, c),
                    c >= 1,
            ;
        }
    }
    assert(ay < div_ceil(d2, c) * d1 && ay >= 0) by (nonlinear_arith)
        requires
            ay == cy * d1 + y,
            0 <= cy < div_ceil(d2, c),
            0 <= y < d1,
    {
        assert(cy * d1 <= (div_ceil(d2, c) - 1) * d1);
    }
    assert(a.height as int == d1 * a.rows);
    assert(a.rows as int == div_ceil(d2, c));
    vstd::arithmetic::mul::lemma_mul_is_commutative(d1, a.rows as int);
    lemma_fundamental_div_mod_converse(ax, d0, cx, x);
    lemma_fundamental_div_mod_converse(ay, d1, cy, y);
    assert((ay / d1) * c + ax / d0 == z);
    let stride = row_stride(a.width as int);
    assert(stride >= 3 * a.width) by {
        let w = 3 * (a.width as int);
        lemma_fundamental_div_mod(w, 4);
        lemma_mod_bound(w, 4);
    }
    lemma_row_position(stride, ay, 3 * ax);
    lemma_row_position(stride, ay, 3 * ax + 1);
    lemma_row_position(stride, ay, 3 * ax + 2);
    lemma_fundamental_div_mod_converse(3 * ax, 3, ax, 0);
    lemma_fundamental_div_mod_converse(3 * ax + 1, 3, ax, 1);
    lemma_fundamental_div_mod_converse(3 * ax + 2, 3, ax, 2);
}

} // verus!
