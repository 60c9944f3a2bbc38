use winmine::bmp::{decode_bitmap_sheet, BmpError, BmpSheet};

/// A sheet file with the given header values, palette and pixel bytes.
fn sheet(width: i32, height: i32, bit_count: u16, clr_used: u32, palette: &[(u8, u8, u8)], pixels: &[u8]) -> Vec<u8> {
    let off = 14 + 40 + palette.len() * 4;
    let total = off + pixels.len();
    let mut v = Vec::new();
    v.extend_from_slice(b"BM");
    v.extend_from_slice(&(total as u32).to_le_bytes());
    v.extend_from_slice(&[0, 0, 0, 0]);
    v.extend_from_slice(&(off as u32).to_le_bytes());
    v.extend_from_slice(&40u32.to_le_bytes());
    v.extend_from_slice(&width.to_le_bytes());
    v.extend_from_slice(&height.to_le_bytes());
    v.extend_from_slice(&1u16.to_le_bytes());
    v.extend_from_slice(&bit_count.to_le_bytes());
    v.extend_from_slice(&[0u8; 16]);
    v.extend_from_slice(&clr_used.to_le_bytes());
    v.extend_from_slice(&0u32.to_le_bytes());
    for &(b, g, r) in palette {
        v.extend_from_slice(&[b, g, r, 0]);
    }
    v.extend_from_slice(pixels);
    v
}

const BW: [(u8, u8, u8); 2] = [(0, 0, 0), (255, 255, 255)];

#[test]
fn header_of_a_valid_sheet() {
    let f = sheet(8, 2, 1, 0, &BW, &[0x81, 0, 0, 0, 0xff, 0, 0, 0]);
    let s = BmpSheet::from_bytes(&f).unwrap();
    assert_eq!(s.bit_count, 1);
    assert_eq!(s.pixel_offset, 40 + 8);
}

#[test]
fn one_bit_sheet_bottom_up() {
    // Two 8 x 1 sprites; rows are stored bottom-up, so sprite 0 comes first
    // (each sprite is one row).
    let f = sheet(8, 2, 1, 0, &BW, &[0x81, 0, 0, 0, 0xff, 0, 0, 0]);
    let v = decode_bitmap_sheet(2, 32, 8, 1, &f).unwrap();
    assert_eq!(v.len(), 2);
    assert_eq!(v[0].len(), 32);
    assert_eq!(&v[0][0..4], &[255, 255, 255, 0]);
    assert_eq!(&v[0][4..8], &[0, 0, 0, 0]);
    assert_eq!(&v[0][28..32], &[255, 255, 255, 0]);
    assert!(v[1].chunks(4).all(|p| p == [255, 255, 255, 0]));
}

#[test]
fn rows_flip_unless_height_is_negative() {
    // One 8 x 2 sprite: the first stored row is the bottom one.
    let up = sheet(8, 2, 1, 0, &BW, &[0xff, 0, 0, 0, 0x00, 0, 0, 0]);
    let v = decode_bitmap_sheet(1, 64, 8, 2, &up).unwrap();
    assert_eq!(&v[0][0..4], &[0, 0, 0, 0]);
    assert_eq!(&v[0][32..36], &[255, 255, 255, 0]);
    let down = sheet(8, -2, 1, 0, &BW, &[0xff, 0, 0, 0, 0x00, 0, 0, 0]);
    let w = decode_bitmap_sheet(1, 64, 8, 2, &down).unwrap();
    assert_eq!(&w[0][0..4], &[255, 255, 255, 0]);
    assert_eq!(&w[0][32..36], &[0, 0, 0, 0]);
}

#[test]
fn four_bit_sheet_uses_nibbles() {
    let mut pal = vec![(0u8, 0u8, 0u8); 16];
    pal[1] = (1, 2, 3);
    pal[0xa] = (10, 20, 30);
    let f = sheet(2, 1, 4, 0, &pal, &[0x1a, 0, 0, 0]);
    let v = decode_bitmap_sheet(1, 8, 2, 1, &f).unwrap();
    assert_eq!(v[0], vec![1, 2, 3, 0, 10, 20, 30, 0]);
}

#[test]
fn short_palette_reads_black_past_its_end() {
    let f = sheet(2, 1, 4, 2, &[(9, 9, 9), (7, 7, 7)], &[0x51, 0, 0, 0]);
    let v = decode_bitmap_sheet(1, 8, 2, 1, &f).unwrap();
    assert_eq!(v[0], vec![0, 0, 0, 0, 7, 7, 7, 0]);
}

#[test]
fn header_errors() {
    let good = sheet(8, 2, 1, 0, &BW, &[0, 0, 0, 0, 0, 0, 0, 0]);
    assert_eq!(BmpSheet::from_bytes(&good[..53]), Err(BmpError::TooSmall));
    let mut f = good.clone();
    f[0] = b'X';
    assert_eq!(BmpSheet::from_bytes(&f), Err(BmpError::MissingSignature));
    let mut f = good.clone();
    f[2..6].copy_from_slice(&1000u32.to_le_bytes());
    assert_eq!(BmpSheet::from_bytes(&f), Err(BmpError::SizeFieldTooLarge));
    let mut f = good.clone();
    f[2..6].copy_from_slice(&0u32.to_le_bytes());
    assert!(BmpSheet::from_bytes(&f).is_ok());
    let mut f = good.clone();
    f[10..14].copy_from_slice(&10u32.to_le_bytes());
    assert_eq!(BmpSheet::from_bytes(&f), Err(BmpError::PixelOffsetOutOfBounds));
    let mut f = good.clone();
    f[10..14].copy_from_slice(&1000u32.to_le_bytes());
    assert_eq!(BmpSheet::from_bytes(&f), Err(BmpError::PixelOffsetOutOfBounds));
    let mut f = good.clone();
    f[14..18].copy_from_slice(&12u32.to_le_bytes());
    assert_eq!(BmpSheet::from_bytes(&f), Err(BmpError::HeaderTooSmall));
    let mut f = good.clone();
    f[14..18].copy_from_slice(&500u32.to_le_bytes());
    assert_eq!(BmpSheet::from_bytes(&f), Err(BmpError::HeaderBeyondData));
    let mut f = good.clone();
    f[10..14].copy_from_slice(&30u32.to_le_bytes());
    assert_eq!(BmpSheet::from_bytes(&f), Err(BmpError::PixelOffsetBeforeHeader));
    let mut f = good.clone();
    f[28..30].copy_from_slice(&8u16.to_le_bytes());
    assert_eq!(BmpSheet::from_bytes(&f), Err(BmpError::UnsupportedBitCount));
}

#[test]
fn decoding_errors() {
    let good = sheet(8, 2, 1, 0, &BW, &[0, 0, 0, 0, 0, 0, 0, 0]);
    assert_eq!(decode_bitmap_sheet(2, 33, 8, 1, &good), Err(BmpError::SpriteSizeMismatch));
    assert_eq!(decode_bitmap_sheet(2, 28, 7, 1, &good), Err(BmpError::WidthMismatch));
    assert_eq!(decode_bitmap_sheet(3, 32, 8, 1, &good), Err(BmpError::HeightMismatch));
    let big = sheet(8, 2, 1, 17, &BW, &[0, 0, 0, 0, 0, 0, 0, 0]);
    assert_eq!(decode_bitmap_sheet(2, 32, 8, 1, &big), Err(BmpError::PaletteTooLarge));
    let over = sheet(8, 2, 1, 16, &BW, &[0, 0, 0, 0, 0, 0, 0, 0]);
    assert_eq!(decode_bitmap_sheet(2, 32, 8, 1, &over), Err(BmpError::PaletteOutOfBounds));
    let short = sheet(8, 2, 1, 0, &BW, &[0, 0, 0, 0, 0, 0]);
    assert_eq!(decode_bitmap_sheet(2, 32, 8, 1, &short), Err(BmpError::SpriteOutOfBounds));
    assert_eq!(
        decode_bitmap_sheet(2, 32, 8, 1, &good[..20]),
        Err(BmpError::TooSmall)
    );
}

#[test]
fn top_down_and_bottom_up_storage_decode_alike() {
    // Two 3 x 2 sprites; each row is one byte padded to four.
    let up = sheet(3, 4, 1, 0, &BW, &[0x40, 0, 0, 0, 0xa0, 0, 0, 0, 0xe0, 0, 0, 0, 0x20, 0, 0, 0]);
    let down = sheet(3, -4, 1, 0, &BW, &[0xa0, 0, 0, 0, 0x40, 0, 0, 0, 0x20, 0, 0, 0, 0xe0, 0, 0, 0]);
    let a = decode_bitmap_sheet(2, 24, 3, 2, &up).unwrap();
    let b = decode_bitmap_sheet(2, 24, 3, 2, &down).unwrap();
    assert_eq!(a, b);
}

#[test]
fn reserved_and_padding_bits_are_ignored() {
    let plain = sheet(3, 1, 1, 0, &BW, &[0xa0, 0, 0, 0]);
    let mut noisy = sheet(3, 1, 1, 0, &BW, &[0xbf, 0x55, 0xaa, 0xff]);
    // The reserved byte of each palette entry.
    noisy[54 + 3] = 0x77;
    noisy[54 + 7] = 0x99;
    let a = decode_bitmap_sheet(1, 12, 3, 1, &plain).unwrap();
    let b = decode_bitmap_sheet(1, 12, 3, 1, &noisy).unwrap();
    assert_eq!(a, b);
}

#[test]
fn wide_sheets_decode() {
    // 65537 pixels in one row: beyond 16 bits of width.
    let width: usize = 65537;
    let stride = ((width + 31) / 32) * 4;
    let mut row = vec![0u8; stride];
    row[0] = 0x80;
    let f = sheet(width as i32, 1, 1, 0, &BW, &row);
    let v = decode_bitmap_sheet(1, width * 4, width, 1, &f).unwrap();
    assert_eq!(&v[0][0..4], &[255, 255, 255, 0]);
    assert_eq!(&v[0][4..8], &[0, 0, 0, 0]);
    assert_eq!(v[0].len(), width * 4);
}
