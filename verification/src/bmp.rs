//! Decoding of the bitmap sprite sheets (1 or 4 bits per pixel, palette
//! based) into 32-bit blue-green-red-zero pixels, one buffer per sprite.

use vstd::prelude::*;

verus! {

/// Size of a bitmap file header: `core::mem::size_of` of the Win32
/// `BITMAPFILEHEADER` as `windows-sys` declares it, a `#[repr(C, packed(2))]`
/// struct of a `u16`, a `u32`, two `u16` and a `u32`, hence 14 bytes.
#[verifier::external_body]
fn file_header_len() -> (r: usize)
    ensures
        r == 14,
{
    core::mem::size_of::<windows_sys::Win32::Graphics::Gdi::BITMAPFILEHEADER>()
}

/// Size of a bitmap information header: `core::mem::size_of` of the Win32
/// `BITMAPINFOHEADER` as `windows-sys` declares it, a `#[repr(C)]` struct of
/// nine 4-byte fields and two `u16`, hence 40 bytes.
#[verifier::external_body]
fn info_header_len() -> (r: usize)
    ensures
        r == 40,
{
    core::mem::size_of::<windows_sys::Win32::Graphics::Gdi::BITMAPINFOHEADER>()
}

/// Why a bitmap sheet was refused.
#[derive(Clone, Copy, PartialEq, Eq, Debug, Structural)]
pub enum BmpError {
    /// The file is too small to hold both headers.
    TooSmall,
    /// The file does not start with "BM".
    MissingSignature,
    /// The file size field is larger than the buffer.
    SizeFieldTooLarge,
    /// The pixel data offset lies before the end of the file header or past
    /// the buffer.
    PixelOffsetOutOfBounds,
    /// The information header is smaller than `BITMAPINFOHEADER`.
    HeaderTooSmall,
    /// The information header extends past the data.
    HeaderBeyondData,
    /// The pixel data offset lies inside the headers.
    PixelOffsetBeforeHeader,
    /// The pixels are not of 1 or 4 bits.
    UnsupportedBitCount,
    /// The sprite byte size is not width times height times 4.
    SpriteSizeMismatch,
    /// The bitmap width is not the sprite width.
    WidthMismatch,
    /// The bitmap height is not the sprite height times the sprite count.
    HeightMismatch,
    /// The palette has more than 16 entries.
    PaletteTooLarge,
    /// The palette extends past the data.
    PaletteOutOfBounds,
    /// The pixels of a sprite extend past the data.
    SpriteOutOfBounds,
}

/// The little-endian unsigned 16-bit value at `i`.
pub open spec fn le16(s: Seq<u8>, i: int) -> int {
    s[i] + s[i + 1] * 0x100
}

/// The little-endian unsigned 32-bit value at `i`.
pub open spec fn le32(s: Seq<u8>, i: int) -> int {
    s[i] + s[i + 1] * 0x100 + s[i + 2] * 0x10000 + s[i + 3] * 0x1000000
}

/// The little-endian signed 32-bit value at `i`.
pub open spec fn le32_signed(s: Seq<u8>, i: int) -> int {
    if le32(s, i) < 0x8000_0000 {
        le32(s, i)
    } else {
        le32(s, i) - 0x1_0000_0000
    }
}

/// The little-endian unsigned 32-bit value at `i` of `s`.
fn read_u32(s: &[u8], i: usize) -> (r: u32)
    requires
        i + 4 <= s@.len(),
    ensures
        r as int == le32(s@, i as int),
{
    s[i] as u32 + s[i + 1] as u32 * 0x100 + s[i + 2] as u32 * 0x10000 + s[i + 3] as u32 * 0x1000000
}

/// The little-endian unsigned 16-bit value at `i` of `s`.
fn read_u16(s: &[u8], i: usize) -> (r: u16)
    requires
        i + 2 <= s@.len(),
    ensures
        r as int == le16(s@, i as int),
{
    s[i] as u16 + s[i + 1] as u16 * 0x100
}

/// The little-endian signed 32-bit value at `i` of `s`.
fn read_i32(s: &[u8], i: usize) -> (r: i32)
    requires
        i + 4 <= s@.len(),
    ensures
        r as int == le32_signed(s@, i as int),
{
    let u = read_u32(s, i);
    if u < 0x8000_0000 {
        u as i32
    } else {
        (u as i64 - 0x1_0000_0000) as i32
    }
}

/// The layout of a sprite sheet file, located in its bytes: the device
/// independent bitmap starts right after the 14-byte file header.
#[derive(Clone, Copy, PartialEq, Eq, Debug, Structural)]
pub struct BmpSheet {
    /// Offset of the pixel data from the start of the information header.
    pub pixel_offset: usize,
    /// Bits per pixel (1 or 4).
    pub bit_count: u16,
}

/// The checks of a sheet file, in the order in which they are made: the
/// first that fails gives the error; when all pass, the layout.
pub open spec fn spec_parse_sheet(b: Seq<u8>) -> Result<BmpSheet, BmpError> {
    if b.len() < 54 {
        Err(BmpError::TooSmall)
    } else if b[0] != 0x42 || b[1] != 0x4d {
        Err(BmpError::MissingSignature)
    } else if le32(b, 2) != 0 && le32(b, 2) > b.len() {
        Err(BmpError::SizeFieldTooLarge)
    } else if le32(b, 10) < 14 || le32(b, 10) > b.len() {
        Err(BmpError::PixelOffsetOutOfBounds)
    } else if le32(b, 14) < 40 {
        Err(BmpError::HeaderTooSmall)
    } else if le32(b, 14) > b.len() - 14 {
        Err(BmpError::HeaderBeyondData)
    } else if le32(b, 10) < 14 + le32(b, 14) {
        Err(BmpError::PixelOffsetBeforeHeader)
    } else if le16(b, 28) != 1 && le16(b, 28) != 4 {
        Err(BmpError::UnsupportedBitCount)
    } else {
        Ok(BmpSheet { pixel_offset: (le32(b, 10) - 14) as usize, bit_count: le16(b, 28) as u16 })
    }
}

impl BmpSheet {
    /// Locate the headers and the pixels of a sheet file (see
    /// `spec_parse_sheet`).
    pub fn from_bytes(bmp: &[u8]) -> (r: Result<BmpSheet, BmpError>)
        ensures
            r == spec_parse_sheet(bmp@),
    {
        let file_header = file_header_len();
        let info_header = info_header_len();
        if bmp.len() < file_header + info_header {
            return Err(BmpError::TooSmall);
        }
        if bmp[0] != 0x42 || bmp[1] != 0x4d {
            return Err(BmpError::MissingSignature);
        }
        let bf_size = read_u32(bmp, 2) as usize;
        if bf_size != 0 && bf_size > bmp.len() {
            return Err(BmpError::SizeFieldTooLarge);
        }
        let bf_off_bits = read_u32(bmp, 10) as usize;
        if bf_off_bits < file_header || bf_off_bits > bmp.len() {
            return Err(BmpError::PixelOffsetOutOfBounds);
        }
        let header_len = read_u32(bmp, file_header) as usize;
        if header_len < info_header {
            return Err(BmpError::HeaderTooSmall);
        }
        if header_len > bmp.len() - file_header {
            return Err(BmpError::HeaderBeyondData);
        }
        if bf_off_bits < file_header + header_len {
            return Err(BmpError::PixelOffsetBeforeHeader);
        }
        let bit_count = read_u16(bmp, file_header + 14);
        if bit_count != 1 && bit_count != 4 {
            return Err(BmpError::UnsupportedBitCount);
        }
        Ok(BmpSheet { pixel_offset: bf_off_bits - file_header, bit_count })
    }
}

/// Bytes per row of pixel data: rows are padded to a multiple of 4 bytes.
pub open spec fn row_stride(width: int, bit_count: int) -> int {
    ((width * bit_count + 31) / 32) * 4
}

/// Entries in the palette: the stored count, or all 2^`bit_count` colors
/// when it is zero.
pub open spec fn palette_entries(clr_used: int, bit_count: int) -> int {
    if clr_used == 0 {
        if bit_count == 1 {
            2
        } else {
            16
        }
    } else {
        clr_used
    }
}

/// Blue, green and red of palette entry `idx` of the sheet file `b`; entries
/// past the palette are black.
pub open spec fn palette_color(b: Seq<u8>, idx: int) -> (u8, u8, u8) {
    let at = 14 + le32(b, 14) + 4 * idx;
    if 0 <= idx < palette_entries(le32(b, 46), le16(b, 28)) {
        (b[at], b[at + 1], b[at + 2])
    } else {
        (0, 0, 0)
    }
}

/// The byte offset in the file of row `y` (counted from the top) of sprite
/// `i`: rows are stored bottom-up unless the stored height is negative.
pub open spec fn sprite_row_start(b: Seq<u8>, width: int, height: int, i: int, y: int) -> int {
    let stride = row_stride(width, le16(b, 28));
    let src_y = if le32_signed(b, 22) < 0 {
        y
    } else {
        height - 1 - y
    };
    le32(b, 10) + i * stride * height + src_y * stride
}

/// The palette index of pixel `x` of the row starting at `row`: the bit of
/// the pixel (most significant first) at 1 bit per pixel, its nibble (high
/// first) at 4 bits per pixel.
pub open spec fn pixel_index(b: Seq<u8>, row: int, x: int) -> int {
    if le16(b, 28) == 1 {
        ((b[row + x / 8] >> ((7 - x % 8) as u8)) & 1u8) as int
    } else if x % 2 == 0 {
        (b[row + x / 2] >> 4u8) as int
    } else {
        (b[row + x / 2] & 0x0fu8) as int
    }
}

/// The four output bytes of pixel (`x`, `y`) of sprite `i`: blue, green,
/// red and zero.
pub open spec fn pixel_bytes(b: Seq<u8>, width: int, height: int, i: int, y: int, x: int) -> Seq<u8> {
    let c = palette_color(b, pixel_index(b, sprite_row_start(b, width, height, i, y), x));
    seq![c.0, c.1, c.2, 0u8]
}

/// The output bytes of the first `n` pixels of row `y` of sprite `i`.
pub open spec fn row_bytes(b: Seq<u8>, width: int, height: int, i: int, y: int, n: int) -> Seq<u8>
    decreases n,
{
    if n <= 0 {
        Seq::empty()
    } else {
        row_bytes(b, width, height, i, y, n - 1) + pixel_bytes(b, width, height, i, y, n - 1)
    }
}

/// The output bytes of the first `rows` rows of sprite `i`, top row first.
pub open spec fn sprite_bytes(b: Seq<u8>, width: int, height: int, i: int, rows: int) -> Seq<u8>
    decreases rows,
{
    if rows <= 0 {
        Seq::empty()
    } else {
        sprite_bytes(b, width, height, i, rows - 1) + row_bytes(b, width, height, i, rows - 1, width)
    }
}

/// The first failed check of decoding `sprites` sprites of `width` by
/// `height` pixels, `n` bytes each, from the sheet file `b`; `None` when all
/// pass.
pub open spec fn decode_error(sprites: int, n: int, width: int, height: int, b: Seq<u8>) -> Option<BmpError> {
    match spec_parse_sheet(b) {
        Err(e) => Some(e),
        Ok(sheet) => {
            let h = le32_signed(b, 22);
            let abs_h = if h < 0 {
                -h
            } else {
                h
            };
            let entries = palette_entries(le32(b, 46), sheet.bit_count as int);
            let stride = row_stride(width, sheet.bit_count as int);
            if n != width * height * 4 {
                Some(BmpError::SpriteSizeMismatch)
            } else if le32_signed(b, 18) != width {
                Some(BmpError::WidthMismatch)
            } else if abs_h != height * sprites {
                Some(BmpError::HeightMismatch)
            } else if entries > 16 {
                Some(BmpError::PaletteTooLarge)
            } else if le32(b, 14) + entries * 4 > b.len() - 14 {
                Some(BmpError::PaletteOutOfBounds)
            } else if sprites > 0 && sheet.pixel_offset + sprites * stride * height > b.len() - 14 {
                Some(BmpError::SpriteOutOfBounds)
            } else {
                None
            }
        },
    }
}

/// A row of `stride` bytes holds every pixel of a row of `width` pixels.
pub proof fn lemma_stride_covers(width: int, bit_count: int, x: int)
    requires
        0 <= x < width,
        bit_count == 1 || bit_count == 4,
    ensures
        bit_count == 1 ==> x / 8 < row_stride(width, bit_count),
        bit_count == 4 ==> x / 2 < row_stride(width, bit_count),
        row_stride(width, bit_count) > 0,
{
    let q = (width * bit_count + 31) / 32;
    assert(q * 32 > width * bit_count - 1) by (nonlinear_arith)
        requires
            q == (width * bit_count + 31) / 32,
            width * bit_count >= 0,
    ;
    if bit_count == 1 {
        assert(x / 8 < q * 4) by (nonlinear_arith)
            requires
                q * 32 > width - 1,
                0 <= x < width,
        ;
    } else {
        assert(x / 2 < q * 4) by (nonlinear_arith)
            requires
                q * 32 > width * 4 - 1,
                0 <= x < width,
        ;
    }
}

/// A sprite's rows of pixel data take no more bytes than its decoded pixels.
proof fn lemma_stride_le(width: int, height: int, bit_count: int)
    requires
        0 <= width,
        0 <= height,
        bit_count == 1 || bit_count == 4,
    ensures
        0 <= row_stride(width, bit_count) <= width * 4 || width == 0,
        0 <= row_stride(width, bit_count) * height <= width * height * 4,
{
    let q = (width * bit_count + 31) / 32;
    assert(0 <= q) by (nonlinear_arith)
        requires
            q == (width * bit_count + 31) / 32,
            width * bit_count >= 0,
    ;
    if width == 0 {
        assert(q == 0);
    } else {
        assert(q * 4 <= width * 4) by (nonlinear_arith)
            requires
                q == (width * bit_count + 31) / 32,
                width >= 1,
                bit_count <= 4,
        ;
    }
    assert(q * 4 * height <= width * height * 4) by (nonlinear_arith)
        requires
            0 <= q * 4 <= width * 4,
            0 <= height,
    ;
    assert(0 <= q * 4 * height) by (nonlinear_arith)
        requires
            0 <= q,
            0 <= height,
    ;
}

/// The first `k` bytes of row `y` of sprite `i` lie inside the sprites'
/// pixel data.
proof fn lemma_sprite_byte(i: int, sprites: int, y: int, height: int, stride: int, k: int)
    requires
        0 <= i < sprites,
        0 <= y < height,
        0 <= k <= stride,
    ensures
        0 <= i * stride,
        0 <= i * stride * height + y * stride + k,
        i * stride * height + y * stride + k <= sprites * stride * height,
{
    assert(0 <= i * stride) by (nonlinear_arith)
        requires
            0 <= i,
            0 <= stride,
    ;
    assert(0 <= i * stride * height + y * stride + k) by (nonlinear_arith)
        requires
            0 <= i,
            0 <= y,
            0 <= k,
            0 <= stride,
            0 <= height,
    ;
    assert(i * stride * height + y * stride + k <= (i + 1) * stride * height) by (nonlinear_arith)
        requires
            0 <= y < height,
            0 <= k <= stride,
            0 <= i,
    ;
    assert((i + 1) * stride * height <= sprites * stride * height) by (nonlinear_arith)
        requires
            i + 1 <= sprites,
            0 <= stride,
            0 <= height,
    ;
}

/// The facts about a sheet file that decoding its pixels relies on: a
/// supported pixel size, the row stride, and the pixels of all `sprites`
/// sprites inside the file.
pub open spec fn sheet_fits(b: Seq<u8>, width: int, height: int, sprites: int, stride: int) -> bool {
    &&& b.len() >= 54
    &&& (le16(b, 28) == 1 || le16(b, 28) == 4)
    &&& stride == row_stride(width, le16(b, 28))
    &&& 0 <= width
    &&& 0 <= height
    &&& 0 <= sprites
    &&& 0 <= stride
    &&& 14 <= le32(b, 10)
    &&& sprites > 0 ==> le32(b, 10) + sprites * stride * height <= b.len()
}

/// The palette index of pixel `x` of the row starting at `row` (see
/// `pixel_index`).
fn read_pixel_index(bmp: &[u8], row: usize, x: usize, bit_count: u16) -> (r: u8)
    requires
        bit_count == le16(bmp@, 28),
        bit_count == 1 || bit_count == 4,
        bit_count == 1 ==> row + x / 8 < bmp@.len(),
        bit_count == 4 ==> row + x / 2 < bmp@.len(),
    ensures
        r as int == pixel_index(bmp@, row as int, x as int),
        r < 16,
{
    let len = bmp.len();
    if bit_count == 1 {
        let byte = bmp[row + x / 8];
        let shift: u8 = (7 - x % 8) as u8;
        let v = (byte >> shift) & 1u8;
        assert(v <= 1) by (bit_vector)
            requires
                v == (byte >> shift) & 1u8,
        ;
        v
    } else {
        let byte = bmp[row + x / 2];
        if x % 2 == 0 {
            let v = byte >> 4u8;
            assert(v <= 15) by (bit_vector)
                requires
                    v == byte >> 4u8,
            ;
            v
        } else {
            let v = byte & 0x0fu8;
            assert(v <= 15) by (bit_vector)
                requires
                    v == byte & 0x0fu8,
            ;
            v
        }
    }
}

/// Row `y` of sprite `i`, appended to `out` (see `row_bytes`).
fn decode_row(
    bmp: &[u8],
    palette: &Vec<(u8, u8, u8)>,
    out: &mut Vec<u8>,
    width: usize,
    height: usize,
    sprites: usize,
    stride: usize,
    i: usize,
    y: usize,
)
    requires
        sheet_fits(bmp@, width as int, height as int, sprites as int, stride as int),
        i < sprites,
        y < height,
        palette@.len() == 16,
        forall|e: int| 0 <= e < 16 ==> #[trigger] palette@[e] == palette_color(bmp@, e),
    ensures
        final(out)@ == old(out)@ + row_bytes(bmp@, width as int, height as int, i as int, y as int, width as int),
{
    let len = bmp.len();
    let bit_count = read_u16(bmp, 28);
    let top_down = read_i32(bmp, 22) < 0;
    let src_y: usize = if top_down {
        y
    } else {
        height - 1 - y
    };
    proof {
        lemma_sprite_byte(i as int, sprites as int, src_y as int, height as int, stride as int, 0);
    }
    let ghost start = sprite_row_start(bmp@, width as int, height as int, i as int, y as int);
    proof {
        assert(i * stride * height <= sprites * stride * height) by (nonlinear_arith)
            requires
                i < sprites,
                0 <= stride,
                0 <= height,
        ;
        assert(i * stride <= i * stride * height) by (nonlinear_arith)
            requires
                0 <= i,
                0 <= stride,
                1 <= height,
        ;
    }
    let row: usize = read_u32(bmp, 10) as usize + i * stride * height + src_y * stride;
    assert(row == start);
    let ghost o0 = out@;
    let mut x: usize = 0;
    while x < width
        invariant
            sheet_fits(bmp@, width as int, height as int, sprites as int, stride as int),
            i < sprites,
            src_y < height,
            0 <= x <= width,
            bit_count == le16(bmp@, 28),
            len == bmp@.len(),
            row == start,
            row == le32(bmp@, 10) + i * stride * height + src_y * stride,
            start == sprite_row_start(bmp@, width as int, height as int, i as int, y as int),
            out@ == o0 + row_bytes(bmp@, width as int, height as int, i as int, y as int, x as int),
            palette@.len() == 16,
            forall|e: int| 0 <= e < 16 ==> #[trigger] palette@[e] == palette_color(bmp@, e),
        decreases width - x,
    {
        proof {
            lemma_stride_covers(width as int, bit_count as int, x as int);
            let kk = if bit_count == 1 {
                x as int / 8
            } else {
                x as int / 2
            };
            lemma_sprite_byte(i as int, sprites as int, src_y as int, height as int, stride as int, kk + 1);
        }
        let idx = read_pixel_index(bmp, row, x, bit_count);
        let color = palette[idx as usize];
        out.push(color.0);
        out.push(color.1);
        out.push(color.2);
        out.push(0u8);
        proof {
            assert(out@ =~= o0 + row_bytes(bmp@, width as int, height as int, i as int, y as int, x + 1));
        }
        x += 1;
    }
}

/// Sprite `i` of the sheet (see `sprite_bytes`).
fn decode_sprite(
    bmp: &[u8],
    palette: &Vec<(u8, u8, u8)>,
    width: usize,
    height: usize,
    sprites: usize,
    stride: usize,
    i: usize,
) -> (r: Vec<u8>)
    requires
        sheet_fits(bmp@, width as int, height as int, sprites as int, stride as int),
        i < sprites,
        palette@.len() == 16,
        forall|e: int| 0 <= e < 16 ==> #[trigger] palette@[e] == palette_color(bmp@, e),
    ensures
        r@ == sprite_bytes(bmp@, width as int, height as int, i as int, height as int),
{
    let mut converted: Vec<u8> = Vec::new();
    let mut y: usize = 0;
    while y < height
        invariant
            sheet_fits(bmp@, width as int, height as int, sprites as int, stride as int),
            i < sprites,
            0 <= y <= height,
            converted@ == sprite_bytes(bmp@, width as int, height as int, i as int, y as int),
            palette@.len() == 16,
            forall|e: int| 0 <= e < 16 ==> #[trigger] palette@[e] == palette_color(bmp@, e),
        decreases height - y,
    {
        decode_row(bmp, palette, &mut converted, width, height, sprites, stride, i, y);
        y += 1;
    }
    converted
}

/// Decode `sprites` sprites of `width` by `height` pixels, `n` bytes each,
/// from a sheet file: each sprite becomes its pixels, top row first, 4 bytes
/// each (see `sprite_bytes`). Refused with the first failed check (see
/// `decode_error`).
#[verifier::rlimit(40)]
pub fn decode_bitmap_sheet(sprites: usize, n: usize, width: usize, height: usize, bmp: &[u8]) -> (r:
    Result<Vec<Vec<u8>>, BmpError>)
    requires
        width * height * 4 <= usize::MAX,
        width * 4 <= usize::MAX,
        height * sprites <= usize::MAX,
    ensures
        match r {
            Err(e) => decode_error(sprites as int, n as int, width as int, height as int, bmp@) == Some(e),
            Ok(v) => {
                &&& decode_error(sprites as int, n as int, width as int, height as int, bmp@) is None
                &&& v@.len() == sprites
                &&& forall|i: int|
                    0 <= i < sprites ==> (#[trigger] v@[i])@ == sprite_bytes(
                        bmp@,
                        width as int,
                        height as int,
                        i,
                        height as int,
                    )
            },
        },
{
    let sheet = match BmpSheet::from_bytes(bmp) {
        Ok(s) => s,
        Err(e) => {
            return Err(e);
        },
    };
    let len = bmp.len();
    let dib_len: u64 = (bmp.len() - 14) as u64;
    if n as u128 != width as u128 * height as u128 * 4 {
        return Err(BmpError::SpriteSizeMismatch);
    }
    let header_len = read_u32(bmp, 14) as u64;
    let w = read_i32(bmp, 18);
    let h = read_i32(bmp, 22);
    let clr_used = read_u32(bmp, 46) as u64;
    if w as i128 != width as i128 {
        return Err(BmpError::WidthMismatch);
    }
    let abs_h: u128 = if h < 0 {
        (-(h as i128)) as u128
    } else {
        h as u128
    };
    if abs_h != height as u128 * sprites as u128 {
        return Err(BmpError::HeightMismatch);
    }
    let bit_count = sheet.bit_count;
    assert(bit_count == 1 || bit_count == 4);
    let entries: u64 = if clr_used == 0 {
        if bit_count == 1 {
            2
        } else {
            16
        }
    } else {
        clr_used
    };
    if entries > 16 {
        return Err(BmpError::PaletteTooLarge);
    }
    if header_len + entries * 4 > dib_len {
        return Err(BmpError::PaletteOutOfBounds);
    }
    proof {
        assert(width as int * bit_count as int <= usize::MAX) by (nonlinear_arith)
            requires
                width * 4 <= usize::MAX,
                bit_count <= 4,
        ;
        assert(usize::MAX <= u64::MAX);
    }
    let stride_wide: u128 = ((width as u128 * bit_count as u128 + 31) / 32) * 4;
    proof {
        assert(stride_wide == row_stride(width as int, bit_count as int));
        lemma_stride_le(width as int, height as int, bit_count as int);
    }
    let stride: usize = stride_wide as usize;
    let block: usize = stride * height;
    let room: u128 = (dib_len - sheet.pixel_offset as u64) as u128;
    proof {
        assert(sprites as int * block as int == sprites as int * stride as int * height as int) by (nonlinear_arith)
            requires
                block as int == stride as int * height as int,
        ;
        assert(sprites as int * block as int <= usize::MAX as int * usize::MAX as int) by (nonlinear_arith)
            requires
                0 <= sprites <= usize::MAX,
                0 <= block <= usize::MAX,
        ;
        assert(usize::MAX as int * usize::MAX as int <= u64::MAX as int * u64::MAX as int) by (nonlinear_arith)
            requires
                usize::MAX <= u64::MAX,
        ;
    }
    if sprites > 0 && sprites as u128 * block as u128 > room {
        return Err(BmpError::SpriteOutOfBounds);
    }
    let mut palette: Vec<(u8, u8, u8)> = Vec::new();
    let mut k: u64 = 0;
    while k < 16
        invariant
            0 <= k <= 16,
            palette@.len() == k,
            entries <= 16,
            entries == palette_entries(le32(bmp@, 46), le16(bmp@, 28)),
            header_len == le32(bmp@, 14),
            header_len + entries * 4 <= dib_len,
            dib_len == bmp@.len() - 14,
            len == bmp@.len(),
            forall|e: int| 0 <= e < k ==> #[trigger] palette@[e] == palette_color(bmp@, e),
        decreases 16 - k,
    {
        if k < entries {
            assert(14 + header_len + 4 * k + 3 < len);
            let at = (14 + header_len + 4 * k) as usize;
            palette.push((bmp[at], bmp[at + 1], bmp[at + 2]));
        } else {
            palette.push((0, 0, 0));
        }
        k += 1;
    }
    let mut out: Vec<Vec<u8>> = Vec::new();
    let mut i: usize = 0;
    while i < sprites
        invariant
            0 <= i <= sprites,
            out@.len() == i,
            forall|e: int| 0 <= e < i ==> (#[trigger] out@[e])@ == sprite_bytes(
                bmp@,
                width as int,
                height as int,
                e,
                height as int,
            ),
            sheet_fits(bmp@, width as int, height as int, sprites as int, stride as int),
            palette@.len() == 16,
            forall|e: int| 0 <= e < 16 ==> #[trigger] palette@[e] == palette_color(bmp@, e),
        decreases sprites - i,
    {
        let sprite = decode_sprite(bmp, &palette, width, height, sprites, stride, i);
        out.push(sprite);
        proof {
            assert forall|e: int| 0 <= e < i + 1 implies (#[trigger] out@[e])@ == sprite_bytes(
                bmp@,
                width as int,
                height as int,
                e,
                height as int,
            ) by {
                if e < i {
                }
            }
        }
        i += 1;
    }
    Ok(out)
}

/// The magnitude of the stored height.
pub open spec fn abs_height(b: Seq<u8>) -> int {
    if le32_signed(b, 22) < 0 {
        -le32_signed(b, 22)
    } else {
        le32_signed(b, 22)
    }
}

/// A palette index is below 16.
proof fn lemma_index_small(b: Seq<u8>, row: int, x: int)
    ensures
        0 <= pixel_index(b, row, x) < 16,
{
    if le16(b, 28) == 1 {
        let v: u8 = b[row + x / 8];
        let sh: u8 = (7 - x % 8) as u8;
        assert((v >> sh) & 1u8 <= 1) by (bit_vector);
    } else if x % 2 == 0 {
        let v: u8 = b[row + x / 2];
        assert(v >> 4u8 <= 15) by (bit_vector);
    } else {
        let v: u8 = b[row + x / 2];
        assert(v & 0x0fu8 <= 15) by (bit_vector);
    }
}

/// Two files whose first 54 bytes agree (the sign of the stored height
/// aside), whose palettes give the same colors and whose pixels have the same
/// palette indices decode alike: the same first failed check, and the same
/// sprites.
pub proof fn lemma_decode_alike(b1: Seq<u8>, b2: Seq<u8>, sprites: int, n: int, width: int, height: int)
    requires
        b1.len() == b2.len(),
        b1.len() >= 54,
        forall|j: int| 0 <= j < 54 && !(22 <= j < 26) ==> #[trigger] b1[j] == b2[j],
        abs_height(b1) == abs_height(b2),
        forall|k: int| 0 <= k < 16 ==> #[trigger] palette_color(b1, k) == palette_color(b2, k),
        forall|i: int, y: int, x: int|
            0 <= i < sprites && 0 <= y < height && 0 <= x < width ==> #[trigger] pixel_index(
                b1,
                sprite_row_start(b1, width, height, i, y),
                x,
            ) == pixel_index(b2, sprite_row_start(b2, width, height, i, y), x),
    ensures
        decode_error(sprites, n, width, height, b1) == decode_error(sprites, n, width, height, b2),
        forall|i: int|
            0 <= i < sprites ==> #[trigger] sprite_bytes(b1, width, height, i, height) == sprite_bytes(
                b2,
                width,
                height,
                i,
                height,
            ),
{
    assert(le32(b1, 2) == le32(b2, 2) && le32(b1, 10) == le32(b2, 10) && le32(b1, 14) == le32(b2, 14));
    assert(le16(b1, 28) == le16(b2, 28) && le32(b1, 46) == le32(b2, 46) && le32(b1, 18) == le32(b2, 18));
    assert(b1[0] == b2[0] && b1[1] == b2[1]);
    assert forall|i: int| 0 <= i < sprites implies #[trigger] sprite_bytes(b1, width, height, i, height)
        == sprite_bytes(b2, width, height, i, height) by {
        lemma_sprite_alike(b1, b2, width, height, i, height, sprites);
    }
}

/// Rows of pixels with the same colors decode alike (see `lemma_decode_alike`).
proof fn lemma_row_alike(b1: Seq<u8>, b2: Seq<u8>, width: int, height: int, i: int, y: int, n: int)
    requires
        n <= width,
        forall|x: int|
            0 <= x < n ==> #[trigger] pixel_bytes(b1, width, height, i, y, x) == pixel_bytes(b2, width, height, i, y, x),
    ensures
        row_bytes(b1, width, height, i, y, n) == row_bytes(b2, width, height, i, y, n),
    decreases n,
{
    if n > 0 {
        lemma_row_alike(b1, b2, width, height, i, y, n - 1);
        assert(pixel_bytes(b1, width, height, i, y, n - 1) == pixel_bytes(b2, width, height, i, y, n - 1));
    }
}

/// The first `rows` rows of sprite `i` decode alike (see `lemma_decode_alike`).
proof fn lemma_sprite_alike(b1: Seq<u8>, b2: Seq<u8>, width: int, height: int, i: int, rows: int, sprites: int)
    requires
        0 <= i < sprites,
        rows <= height,
        forall|k: int| 0 <= k < 16 ==> #[trigger] palette_color(b1, k) == palette_color(b2, k),
        forall|i2: int, y: int, x: int|
            0 <= i2 < sprites && 0 <= y < height && 0 <= x < width ==> #[trigger] pixel_index(
                b1,
                sprite_row_start(b1, width, height, i2, y),
                x,
            ) == pixel_index(b2, sprite_row_start(b2, width, height, i2, y), x),
    ensures
        sprite_bytes(b1, width, height, i, rows) == sprite_bytes(b2, width, height, i, rows),
    decreases rows,
{
    if rows > 0 {
        lemma_sprite_alike(b1, b2, width, height, i, rows - 1, sprites);
        let y = rows - 1;
        assert forall|x: int| 0 <= x < width implies #[trigger] pixel_bytes(b1, width, height, i, y, x)
            == pixel_bytes(b2, width, height, i, y, x) by {
            let k = pixel_index(b1, sprite_row_start(b1, width, height, i, y), x);
            lemma_index_small(b1, sprite_row_start(b1, width, height, i, y), x);
            assert(palette_color(b1, k) == palette_color(b2, k));
        }
        lemma_row_alike(b1, b2, width, height, i, y, width);
    }
}

/// Byte `k` of stored row `r` (counted from the start of the pixel data of
/// sprite `i`) of the sheet file `b`.
pub open spec fn stored_byte(b: Seq<u8>, width: int, height: int, i: int, r: int, k: int) -> u8 {
    let stride = row_stride(width, le16(b, 28));
    b[le32(b, 10) + i * stride * height + r * stride + k]
}

/// The blue, green and red bytes of palette entry `k` of the sheet file `b`
/// (its fourth byte is reserved).
pub open spec fn entry_bytes(b: Seq<u8>, k: int) -> (u8, u8, u8) {
    let at = 14 + le32(b, 14) + 4 * k;
    (b[at], b[at + 1], b[at + 2])
}

/// The bits of byte `k` of a stored row that belong to pixels of a row of
/// `width` pixels at `bit_count` bits per pixel (1, else 4), most significant
/// first.
pub open spec fn pixel_mask(width: int, bit_count: int, k: int) -> u8 {
    if bit_count == 1 {
        let n = width - 8 * k;
        if n >= 8 {
            0xffu8
        } else if n <= 0 {
            0u8
        } else {
            (0xffu8 << ((8 - n) as u8)) as u8
        }
    } else {
        let n = width - 2 * k;
        if n >= 2 {
            0xffu8
        } else if n == 1 {
            0xf0u8
        } else {
            0u8
        }
    }
}

/// Whether byte `j` of the sheet file `b` is the reserved fourth byte of a
/// palette entry.
pub open spec fn reserved_byte(b: Seq<u8>, j: int) -> bool {
    let first = 14 + le32(b, 14);
    &&& first <= j < first + 4 * palette_entries(le32(b, 46), le16(b, 28))
    &&& (j - first) % 4 == 3
}

/// Two stored bytes that agree on the bits of pixel `x` of their row give it
/// the same palette index.
pub proof fn lemma_masked_index(a: u8, c: u8, width: int, bit_count: int, x: int)
    requires
        0 <= x < width,
        bit_count == 1 || bit_count == 4,
        a & pixel_mask(width, bit_count, if bit_count == 1 { x / 8 } else { x / 2 }) == c & pixel_mask(
            width,
            bit_count,
            if bit_count == 1 { x / 8 } else { x / 2 },
        ),
    ensures
        bit_count == 1 ==> (a >> ((7 - x % 8) as u8)) & 1u8 == (c >> ((7 - x % 8) as u8)) & 1u8,
        bit_count == 4 && x % 2 == 0 ==> a >> 4u8 == c >> 4u8,
        bit_count == 4 && x % 2 == 1 ==> a & 0x0fu8 == c & 0x0fu8,
{
    if bit_count == 1 {
        let k = x / 8;
        let n = width - 8 * k;
        let r = x % 8;
        assert(r < n && 0 <= r < 8 && x == 8 * k + r);
        let s: u8 = (7 - r) as u8;
        if n >= 8 {
            let m: u8 = 0xff;
            assert(a & m == c & m);
            assert((a & m == c & m && m == 0xffu8 && s < 8) ==> (a >> s) & 1u8 == (c >> s) & 1u8) by (bit_vector);
        } else {
            let sh: u8 = (8 - n) as u8;
            let m: u8 = (0xffu8 << sh) as u8;
            let rr: u8 = r as u8;
            assert(s == 7 - rr);
            assert(sh == 8 - (n as u8));
            assert((a & m == c & m && m == (0xffu8 << sh) as u8 && 1 <= sh <= 7 && rr < 8 - sh && s == 7 - rr)
                ==> (a >> s) & 1u8 == (c >> s) & 1u8) by (bit_vector);
        }
    } else {
        let k = x / 2;
        let n = width - 2 * k;
        if x % 2 == 0 {
            if n >= 2 {
                let m: u8 = 0xff;
                assert((a & m == c & m && m == 0xffu8) ==> a >> 4u8 == c >> 4u8) by (bit_vector);
            } else {
                let m: u8 = 0xf0;
                assert((a & m == c & m && m == 0xf0u8) ==> a >> 4u8 == c >> 4u8) by (bit_vector);
            }
        } else {
            assert(n >= 2);
            let m: u8 = 0xff;
            assert((a & m == c & m && m == 0xffu8) ==> a & 0x0fu8 == c & 0x0fu8) by (bit_vector);
        }
    }
}

} // verus!
