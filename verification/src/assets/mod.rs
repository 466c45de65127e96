//! Decoding of GSC bitmaps: 8-bit palettised BMP files whose palette comes
//! from a separate `.PAL` file of RGB triples. Palette index 0 is transparent.

use vstd::prelude::*;
use crate::world::grid::{row_major, lemma_row_major_bounds};

verus! {

/// Length of the BMP file header and info header that the decoder reads.
pub const BMP_HEADER_LEN: usize = 54;

/// Number of colours that a palette holds at most.
pub const PALETTE_COLORS: usize = 256;

/// Why a GSC bitmap cannot be decoded.
#[derive(Debug, PartialEq, Eq, Structural)]
pub enum GscBmpLoaderError {
    /// The file is shorter than a BMP header.
    InvalidFormat,
}

/// A decoded bitmap: `width * height` pixels, four bytes (R, G, B, A) each,
/// top row first.
pub struct DecodedBmp {
    pub width: u32,
    pub height: u32,
    pub rgba: Vec<u8>,
}

/// Little-endian unsigned 32-bit value of the four bytes at `off`.
pub open spec fn le_u32(b: Seq<u8>, off: int) -> int {
    b[off] + 256 * b[off + 1] + 65536 * b[off + 2] + 16777216 * b[off + 3]
}

/// Little-endian two's-complement 32-bit value of the four bytes at `off`.
pub open spec fn le_i32(b: Seq<u8>, off: int) -> int {
    let u = le_u32(b, off);
    if u < 0x8000_0000 {
        u
    } else {
        u - 0x1_0000_0000
    }
}

/// Offset of the pixel array (header bytes 10..14).
pub open spec fn pixel_data_offset(b: Seq<u8>) -> int {
    le_u32(b, 10)
}

/// Signed width field (header bytes 18..22).
pub open spec fn width_field(b: Seq<u8>) -> int {
    le_i32(b, 18)
}

/// Signed height field (header bytes 22..26); its sign only tells the row order.
pub open spec fn height_field(b: Seq<u8>) -> int {
    le_i32(b, 22)
}

/// Number of rows of the decoded image.
pub open spec fn image_height(b: Seq<u8>) -> int {
    let h = height_field(b);
    if h < 0 {
        -h
    } else {
        h
    }
}

/// Width the decoded image reports: the width field read as an unsigned
/// 32-bit value.
pub open spec fn image_width(b: Seq<u8>) -> int {
    let w = width_field(b);
    if w < 0 {
        w + 0x1_0000_0000
    } else {
        w
    }
}

/// Bytes per source row: the width rounded up to a multiple of four.
pub open spec fn padded_row_len(w: int) -> int {
    (w + 3) / 4 * 4
}

/// Position in the file of the palette index of output pixel `(x, y)`:
/// rows are stored bottom-up.
pub open spec fn source_pos(b: Seq<u8>, x: int, y: int) -> int {
    pixel_data_offset(b) + (image_height(b) - 1 - y) * padded_row_len(width_field(b)) + x
}

/// Channel `k` (0 = R, 1 = G, 2 = B, 3 = A) of output pixel `(x, y)`: the
/// palette colour of its index, opaque unless the index is 0; a pixel whose
/// index lies beyond the end of the file is all zero.
pub open spec fn pixel_channel(b: Seq<u8>, palette: Seq<[u8; 3]>, x: int, y: int, k: int) -> u8 {
    let pos = source_pos(b, x, y);
    if pos < b.len() {
        let idx = b[pos];
        if k < 3 {
            palette[idx as int]@[k]
        } else if idx == 0 {
            0
        } else {
            255
        }
    } else {
        0
    }
}

/// The RGBA bytes of the decoded image, pixel by pixel, top row first.
pub open spec fn decoded_rgba(b: Seq<u8>, palette: Seq<[u8; 3]>) -> Seq<u8> {
    let w = image_width(b);
    let h = image_height(b);
    Seq::new(
        (w * h * 4) as nat,
        |i: int| pixel_channel(b, palette, (i / 4) % w, (i / 4) / w, i % 4),
    )
}

/// The inputs on which decoding runs to the end: a header whose height is
/// not `i32::MIN`; a negative width only for an image without rows and with
/// a width field of at most -4; otherwise an image buffer, row offsets and
/// pixel positions that fit in `usize`, and a palette that has a colour for
/// every index that the pixel data holds.
pub open spec fn gsc_bmp_decodable(b: Seq<u8>, palette: Seq<[u8; 3]>) -> bool {
    b.len() >= BMP_HEADER_LEN ==> {
        let w = width_field(b);
        let h = image_height(b);
        &&& height_field(b) != i32::MIN
        &&& if w < 0 {
            h == 0 && w <= -4
        } else {
            &&& w * h * 4 <= usize::MAX
            &&& h > 0 ==> pixel_data_offset(b) + (h - 1) * padded_row_len(w) + (if w > 0 {
                w - 1
            } else {
                0
            }) <= usize::MAX
            &&& forall|x: int, y: int|
                0 <= x < w && 0 <= y < h && #[trigger] source_pos(b, x, y) < b.len() ==> (b[source_pos(
                    b,
                    x,
                    y,
                )] as int) < palette.len()
        }
    }
}

/// The palette that a `.PAL` file holds: its first `min(256, len / 3)` RGB
/// triples.
pub open spec fn palette_len(palette_bytes: Seq<u8>) -> int {
    if palette_bytes.len() / 3 < 256 {
        (palette_bytes.len() / 3) as int
    } else {
        256
    }
}

/// Reads the palette: colour `i` is made of bytes `3i`, `3i + 1`, `3i + 2`,
/// for every `i < 256` whose three bytes are all present.
pub fn decode_palette(palette_bytes: &[u8]) -> (palette: Vec<[u8; 3]>)
    ensures
        palette@.len() == palette_len(palette_bytes@),
        palette@.len() <= PALETTE_COLORS,
        forall|i: int|
            0 <= i < palette@.len() ==> #[trigger] palette@[i]@ == seq![
                palette_bytes@[3 * i],
                palette_bytes@[3 * i + 1],
                palette_bytes@[3 * i + 2],
            ],
{
    let mut palette: Vec<[u8; 3]> = Vec::new();
    let len = palette_bytes.len();
    let mut i: usize = 0;
    while i < PALETTE_COLORS
        invariant
            len == palette_bytes@.len(),
            i <= PALETTE_COLORS,
            palette@.len() == (if i < len / 3 {
                i as int
            } else {
                (len / 3) as int
            }),
            forall|j: int|
                0 <= j < palette@.len() ==> #[trigger] palette@[j]@ == seq![
                    palette_bytes@[3 * j],
                    palette_bytes@[3 * j + 1],
                    palette_bytes@[3 * j + 2],
                ],
        decreases PALETTE_COLORS - i,
    {
        let base = i * 3;
        if base + 2 < len {
            let color: [u8; 3] = [palette_bytes[base], palette_bytes[base + 1], palette_bytes[base + 2]];
            assert(color@ == seq![
                palette_bytes@[3 * i],
                palette_bytes@[3 * i + 1],
                palette_bytes@[3 * i + 2],
            ]);
            palette.push(color);
        }
        i = i + 1;
    }
    palette
}

/// Little-endian unsigned 32-bit value of `bytes[off..off + 4]`.
fn read_u32_le(bytes: &[u8], off: usize) -> (v: u32)
    requires
        off + 4 <= bytes@.len(),
    ensures
        v == le_u32(bytes@, off as int),
{
    bytes[off] as u32 + bytes[off + 1] as u32 * 256 + bytes[off + 2] as u32 * 65536
        + bytes[off + 3] as u32 * 16777216
}

/// Little-endian two's-complement 32-bit value of `bytes[off..off + 4]`.
fn read_i32_le(bytes: &[u8], off: usize) -> (v: i32)
    requires
        off + 4 <= bytes@.len(),
    ensures
        v == le_i32(bytes@, off as int),
{
    let u = read_u32_le(bytes, off);
    if u < 0x8000_0000 {
        u as i32
    } else {
        (u - 0x8000_0000) as i32 - 0x4000_0000 - 0x4000_0000
    }
}

/// Output index `(y * w + x) * 4 + k` decomposes back into `x`, `y` and `k`.
proof fn lemma_pixel_index(x: int, y: int, k: int, w: int, h: int)
    requires
        0 <= x < w,
        0 <= y < h,
        0 <= k < 4,
    ensures
        ({
            let i = (row_major(x, y, w)) * 4 + k;
            &&& 0 <= i < w * h * 4
            &&& i / 4 == row_major(x, y, w)
            &&& i % 4 == k
            &&& (i / 4) % w == x
            &&& (i / 4) / w == y
        }),
{
    lemma_row_major_bounds(x, y, w, h);
    let p = row_major(x, y, w);
    vstd::arithmetic::div_mod::lemma_fundamental_div_mod_converse(p * 4 + k, 4, p, k);
    vstd::arithmetic::div_mod::lemma_fundamental_div_mod_converse(p, w, y, x);
}

/// Decodes a GSC bitmap with the given palette. Files shorter than the
/// header are refused; otherwise the result has the header's dimensions and
/// the pixels of `decoded_rgba`.
pub fn decode_gsc_bmp(bytes: &[u8], palette: &[[u8; 3]]) -> (r: Result<DecodedBmp, GscBmpLoaderError>)
    requires
        gsc_bmp_decodable(bytes@, palette@),
    ensures
        match r {
            Ok(img) => {
                &&& bytes@.len() >= BMP_HEADER_LEN
                &&& img.width == image_width(bytes@)
                &&& img.height == image_height(bytes@)
                &&& img.rgba@ == decoded_rgba(bytes@, palette@)
            },
            Err(e) => bytes@.len() < BMP_HEADER_LEN && e == GscBmpLoaderError::InvalidFormat,
        },
{
    if bytes.len() < BMP_HEADER_LEN {
        return Err(GscBmpLoaderError::InvalidFormat);
    }
    let ghost b = bytes@;
    let data_offset = read_u32_le(bytes, 10) as usize;
    let width_raw = read_i32_le(bytes, 18);
    let height_raw = read_i32_le(bytes, 22);
    let height: usize = if height_raw < 0 {
        (-height_raw) as usize
    } else {
        height_raw as usize
    };
    if width_raw < 0 {
        // Only an image without rows gets here.
        let reported = (width_raw as i64 + 0x1_0000_0000i64) as u32;
        let rgba: Vec<u8> = Vec::new();
        assert(rgba@ =~= decoded_rgba(b, palette@));
        return Ok(DecodedBmp { width: reported, height: 0, rgba });
    }
    let width = width_raw as usize;
    let total = width * height * 4;
    let row_stride = (width + 3) & !3usize;
    assert(row_stride == padded_row_len(width as int)) by {
        let v = (width + 3) as usize;
        assert(v & !3usize == v - v % 4) by (bit_vector);
    }
    let ghost target = decoded_rgba(b, palette@);
    let mut rgba: Vec<u8> = Vec::new();
    let mut y: usize = 0;
    while y < height
        invariant
            b == bytes@,
            gsc_bmp_decodable(b, palette@),
            b.len() >= BMP_HEADER_LEN,
            data_offset == pixel_data_offset(b),
            width == width_field(b),
            width == image_width(b),
            height == image_height(b),
            row_stride == padded_row_len(width as int),
            total == width * height * 4,
            target == decoded_rgba(b, palette@),
            target.len() == total,
            y <= height,
            rgba@.len() == y * width * 4,
            forall|i: int| 0 <= i < rgba@.len() ==> rgba@[i] == target[i],
        decreases height - y,
    {
        let src_row = height - 1 - y;
        assert(data_offset + src_row * row_stride <= data_offset + (height - 1) * row_stride) by (nonlinear_arith)
            requires
                src_row <= height - 1,
                row_stride >= 0,
        ;
        let row_start = data_offset + src_row * row_stride;
        let mut x: usize = 0;
        while x < width
            invariant
                b == bytes@,
                gsc_bmp_decodable(b, palette@),
                b.len() >= BMP_HEADER_LEN,
                data_offset == pixel_data_offset(b),
                width == width_field(b),
                width == image_width(b),
                height == image_height(b),
                row_stride == padded_row_len(width as int),
                total == width * height * 4,
                target == decoded_rgba(b, palette@),
                target.len() == total,
                y < height,
                src_row == height - 1 - y,
                row_start == data_offset + src_row * row_stride,
                row_start <= data_offset + (height - 1) * row_stride,
                x <= width,
                rgba@.len() == (y * width + x) * 4,
                forall|i: int| 0 <= i < rgba@.len() ==> rgba@[i] == target[i],
            decreases width - x,
        {
            proof {
                lemma_pixel_index(x as int, y as int, 0, width as int, height as int);
                lemma_pixel_index(x as int, y as int, 1, width as int, height as int);
                lemma_pixel_index(x as int, y as int, 2, width as int, height as int);
                lemma_pixel_index(x as int, y as int, 3, width as int, height as int);
                assert(source_pos(b, x as int, y as int) == row_start + x);
            }
            let pos = row_start + x;
            if pos < bytes.len() {
                let idx = bytes[pos];
                let color = palette[idx as usize];
                rgba.push(color[0]);
                rgba.push(color[1]);
                rgba.push(color[2]);
                rgba.push(if idx == 0 { 0 } else { 255 });
            } else {
                rgba.push(0);
                rgba.push(0);
                rgba.push(0);
                rgba.push(0);
            }
            assert((y * width + x + 1) * 4 == (y * width + x) * 4 + 4);
            x = x + 1;
        }
        assert((y + 1) * width * 4 == y * width * 4 + width * 4) by (nonlinear_arith);
        assert(y * width * 4 == (y * width + width) * 4 - width * 4);
        y = y + 1;
    }
    assert(height * width * 4 == width * height * 4) by (nonlinear_arith);
    assert(rgba@ =~= target);
    Ok(DecodedBmp { width: width as u32, height: height as u32, rgba })
}

/// Tells whether `decode_gsc_bmp` runs to the end on these inputs.
pub fn can_decode_gsc_bmp(bytes: &[u8], palette: &[[u8; 3]]) -> (ok: bool)
    ensures
        ok == gsc_bmp_decodable(bytes@, palette@),
{
    if bytes.len() < BMP_HEADER_LEN {
        return true;
    }
    let ghost b = bytes@;
    let data_offset = read_u32_le(bytes, 10) as usize;
    let width_raw = read_i32_le(bytes, 18);
    let height_raw = read_i32_le(bytes, 22);
    if height_raw == i32::MIN {
        return false;
    }
    let height: usize = if height_raw < 0 {
        (-height_raw) as usize
    } else {
        height_raw as usize
    };
    if width_raw < 0 {
        return height == 0 && width_raw <= -4;
    }
    let width = width_raw as usize;
    let cells = width.checked_mul(height);
    if cells.is_none() {
        assert(width * height * 4 > usize::MAX) by (nonlinear_arith)
            requires
                width * height > usize::MAX,
        ;
        return false;
    }
    let total = cells.unwrap().checked_mul(4);
    if total.is_none() {
        return false;
    }
    if height == 0 {
        return true;
    }
    assert(width + 3 <= usize::MAX) by (nonlinear_arith)
        requires
            width * height * 4 <= usize::MAX,
            height >= 1,
    ;
    let row_stride = (width + 3) & !3usize;
    assert(row_stride == padded_row_len(width as int)) by {
        let v = (width + 3) as usize;
        assert(v & !3usize == v - v % 4) by (bit_vector);
    }
    let last_rows = (height - 1).checked_mul(row_stride);
    if last_rows.is_none() {
        return false;
    }
    let last_start = last_rows.unwrap().checked_add(data_offset);
    if last_start.is_none() {
        return false;
    }
    let last_pos = last_start.unwrap().checked_add(if width > 0 { width - 1 } else { 0 });
    if last_pos.is_none() {
        return false;
    }
    let mut y: usize = 0;
    while y < height
        invariant
            b == bytes@,
            b.len() >= BMP_HEADER_LEN,
            data_offset == pixel_data_offset(b),
            width == width_field(b),
            height == image_height(b),
            height > 0,
            row_stride == padded_row_len(width as int),
            data_offset + (height - 1) * row_stride + (if width > 0 { width - 1 } else { 0 })
                <= usize::MAX,
            y <= height,
            forall|x: int, yy: int|
                0 <= x < width && 0 <= yy < y && #[trigger] source_pos(b, x, yy) < b.len()
                    ==> (b[source_pos(b, x, yy)] as int) < palette@.len(),
        decreases height - y,
    {
        let src_row = height - 1 - y;
        assert(data_offset + src_row * row_stride <= data_offset + (height - 1) * row_stride) by (nonlinear_arith)
            requires
                src_row <= height - 1,
                row_stride >= 0,
        ;
        let row_start = data_offset + src_row * row_stride;
        let mut x: usize = 0;
        while x < width
            invariant
                b == bytes@,
                b.len() >= BMP_HEADER_LEN,
                data_offset == pixel_data_offset(b),
                width == width_field(b),
                height == image_height(b),
                row_stride == padded_row_len(width as int),
                y < height,
                row_start == data_offset + (height - 1 - y) * row_stride,
                row_start + (if width > 0 { width - 1 } else { 0 }) <= usize::MAX,
                x <= width,
                forall|xx: int, yy: int|
                    0 <= xx < width && 0 <= yy < y && #[trigger] source_pos(b, xx, yy) < b.len()
                        ==> (b[source_pos(b, xx, yy)] as int) < palette@.len(),
                forall|xx: int|
                    0 <= xx < x && #[trigger] source_pos(b, xx, y as int) < b.len()
                        ==> (b[source_pos(b, xx, y as int)] as int) < palette@.len(),
            decreases width - x,
        {
            let pos = row_start + x;
            assert(source_pos(b, x as int, y as int) == pos);
            if pos < bytes.len() && bytes[pos] as usize >= palette.len() {
                assert(!gsc_bmp_decodable(b, palette@)) by {
                    let sp = source_pos(b, x as int, y as int);
                    assert(sp < b.len() && !((b[sp] as int) < palette@.len()));
                }
                return false;
            }
            x = x + 1;
        }
        y = y + 1;
    }
    true
}

/// Byte `(y * width + x) * 4 + k` of the decoded buffer is channel `k` of
/// pixel `(x, y)`, and the buffer holds four bytes per pixel.
pub proof fn lemma_decoded_pixel(b: Seq<u8>, palette: Seq<[u8; 3]>, x: int, y: int, k: int)
    requires
        0 <= x < image_width(b),
        0 <= y < image_height(b),
        0 <= k < 4,
    ensures
        decoded_rgba(b, palette).len() == image_width(b) * image_height(b) * 4,
        decoded_rgba(b, palette)[row_major(x, y, image_width(b)) * 4 + k] == pixel_channel(
            b,
            palette,
            x,
            y,
            k,
        ),
{
    let w = image_width(b);
    let h = image_height(b);
    lemma_pixel_index(x, y, k, w, h);
    assert(w * h * 4 >= 0) by (nonlinear_arith)
        requires
            w > 0,
            h > 0,
    ;
}

/// Output row `y` is file row `height - 1 - y`: the file stores the image
/// bottom row first, each row padded to a multiple of four bytes.
pub proof fn lemma_rows_bottom_up(b: Seq<u8>, x: int, y: int)
    ensures
        source_pos(b, x, y) == pixel_data_offset(b) + (image_height(b) - 1 - y) * padded_row_len(
            width_field(b),
        ) + x,
        padded_row_len(width_field(b)) % 4 == 0,
        width_field(b) >= 0 ==> width_field(b) <= padded_row_len(width_field(b)) < width_field(b) + 4,
{
}

/// Only palette index 0, and pixels whose index lies past the end of the
/// file, are transparent; every other pixel is opaque and shows its palette
/// colour.
pub proof fn lemma_transparency(b: Seq<u8>, palette: Seq<[u8; 3]>, x: int, y: int)
    ensures
        ({
            let pos = source_pos(b, x, y);
            &&& (pixel_channel(b, palette, x, y, 3) == 0) <==> (pos >= b.len() || b[pos] == 0)
            &&& (pixel_channel(b, palette, x, y, 3) == 255) <==> (pos < b.len() && b[pos] != 0)
            &&& pos >= b.len() ==> pixel_channel(b, palette, x, y, 0) == 0 && pixel_channel(
                b,
                palette,
                x,
                y,
                1,
            ) == 0 && pixel_channel(b, palette, x, y, 2) == 0
        }),
{
}

/// With a full palette of 256 colours every pixel index has a colour, so
/// whether a bitmap decodes depends on its header alone.
pub proof fn lemma_full_palette_covers_indices(b: Seq<u8>, palette: Seq<[u8; 3]>, x: int, y: int)
    requires
        palette.len() == PALETTE_COLORS,
        0 <= source_pos(b, x, y) < b.len(),
    ensures
        (b[source_pos(b, x, y)] as int) < palette.len(),
{
}


/// Where the header fields are: the pixel array starts at the little-endian
/// unsigned value of bytes 10..14; width and height are the little-endian
/// two's-complement values of bytes 18..22 and 22..26, the image having as
/// many rows as the height's magnitude; each file row takes the width rounded
/// up to a multiple of four bytes; and output row `y` is read from file row
/// `rows - 1 - y`.
pub proof fn lemma_header_layout(b: Seq<u8>, x: int, y: int)
    requires
        b.len() >= BMP_HEADER_LEN,
    ensures
        pixel_data_offset(b) == b[10] + 256 * b[11] + 65536 * b[12] + 16777216 * b[13],
        ({
            let raw = b[18] + 256 * b[19] + 65536 * b[20] + 16777216 * b[21];
            width_field(b) == if raw < 0x8000_0000 { raw } else { raw - 0x1_0000_0000 }
        }),
        ({
            let raw = b[22] + 256 * b[23] + 65536 * b[24] + 16777216 * b[25];
            height_field(b) == if raw < 0x8000_0000 { raw } else { raw - 0x1_0000_0000 }
        }),
        image_height(b) >= 0,
        image_height(b) == height_field(b) || image_height(b) == -height_field(b),
        width_field(b) >= 0 ==> image_width(b) == width_field(b),
        width_field(b) >= 0 ==> {
            let p = padded_row_len(width_field(b));
            &&& p % 4 == 0
            &&& width_field(b) <= p < width_field(b) + 4
        },
        source_pos(b, x, y) == b[10] + 256 * b[11] + 65536 * b[12] + 16777216 * b[13] + (image_height(
            b,
        ) - 1 - y) * padded_row_len(width_field(b)) + x,
{
}

/// What each output byte holds: the pixel's palette colour read at its
/// source position, opaque (255) unless the index is 0 (then 0); a pixel
/// whose source lies past the end of the file is four zero bytes.
pub proof fn lemma_decoded_pixel_source(b: Seq<u8>, palette: Seq<[u8; 3]>, x: int, y: int)
    requires
        0 <= x < image_width(b),
        0 <= y < image_height(b),
    ensures
        ({
            let out = decoded_rgba(b, palette);
            let i = (y * image_width(b) + x) * 4;
            let pos = source_pos(b, x, y);
            &&& pos < b.len() ==> {
                &&& out[i] == palette[b[pos] as int]@[0]
                &&& out[i + 1] == palette[b[pos] as int]@[1]
                &&& out[i + 2] == palette[b[pos] as int]@[2]
                &&& out[i + 3] == (if b[pos] == 0 { 0u8 } else { 255u8 })
            }
            &&& pos >= b.len() ==> out[i] == 0 && out[i + 1] == 0 && out[i + 2] == 0 && out[i + 3] == 0
        }),
{
    lemma_decoded_pixel(b, palette, x, y, 0);
    lemma_decoded_pixel(b, palette, x, y, 1);
    lemma_decoded_pixel(b, palette, x, y, 2);
    lemma_decoded_pixel(b, palette, x, y, 3);
}

} // verus!
