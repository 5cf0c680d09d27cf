use mythterm::png::{adler32, crc32, encode_png_rgba, padded_row_bytes, zlib_store};

#[test]
fn writes_valid_png_header() {
    // 2x2 RGBA: red, green, blue, white
    let rgba = vec![
        255, 0, 0, 255, //
        0, 255, 0, 255, //
        0, 0, 255, 255, //
        255, 255, 255, 255,
    ];
    let bytes = encode_png_rgba(2, 2, 8, &rgba);
    // PNG signature
    assert_eq!(&bytes[0..8], &[137, 80, 78, 71, 13, 10, 26, 10]);
    // First chunk is IHDR
    assert_eq!(&bytes[12..16], b"IHDR");
}

#[test]
fn crc32_known_values() {
    assert_eq!(crc32(b""), 0);
    assert_eq!(crc32(b"123456789"), 0xCBF4_3926);
    assert_eq!(crc32(b"IEND"), 0xAE42_6082);
}

#[test]
fn adler32_known_values() {
    assert_eq!(adler32(b""), 1);
    assert_eq!(adler32(b"Wikipedia"), 0x11E6_0398);
}

#[test]
fn zlib_store_empty_and_small() {
    assert_eq!(
        zlib_store(&[]),
        vec![0x78, 0x01, 0x01, 0x00, 0x00, 0xFF, 0xFF, 0x00, 0x00, 0x00, 0x01]
    );
    assert_eq!(
        zlib_store(&[7, 8]),
        vec![0x78, 0x01, 0x01, 0x02, 0x00, 0xFD, 0xFF, 7, 8, 0x00, 0x18, 0x00, 0x10]
    );
}

#[test]
fn zlib_store_splits_long_input() {
    let data = vec![0xAAu8; 70_000];
    let z = zlib_store(&data);
    // header, two block headers, payload, checksum
    assert_eq!(z.len(), 2 + 5 + 5 + 70_000 + 4);
    assert_eq!(z[2], 0x00);
    assert_eq!(&z[3..7], &[0xFF, 0xFF, 0x00, 0x00]);
    let second = 2 + 5 + 65_535;
    assert_eq!(z[second], 0x01);
    let rest = (70_000 - 65_535) as u16;
    assert_eq!(&z[second + 1..second + 3], &rest.to_le_bytes());
}

#[test]
fn padded_rows_align_to_256() {
    assert_eq!(padded_row_bytes(2), 256);
    assert_eq!(padded_row_bytes(64), 256);
    assert_eq!(padded_row_bytes(65), 512);
    assert_eq!(padded_row_bytes(0), 0);
}

#[test]
fn padding_bytes_never_reach_the_file() {
    let width = 2u32;
    let height = 3u32;
    let padded = 12u32;
    let mut a = vec![0u8; (padded * height) as usize];
    for (i, b) in a.iter_mut().enumerate() {
        *b = (i * 7) as u8;
    }
    let mut b = a.clone();
    for y in 0..height as usize {
        for j in 8..12 {
            b[y * 12 + j] = 0xEE;
        }
    }
    assert_ne!(a, b);
    assert_eq!(encode_png_rgba(width, height, padded, &a), encode_png_rgba(width, height, padded, &b));
}
