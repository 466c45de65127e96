use sich_engine::assets::{
    can_decode_gsc_bmp, decode_gsc_bmp, decode_palette, GscBmpLoaderError, BMP_HEADER_LEN,
};

fn header(data_offset: u32, width: i32, height: i32) -> Vec<u8> {
    let mut b = vec![0u8; BMP_HEADER_LEN];
    b[0] = b'B';
    b[1] = b'M';
    b[10..14].copy_from_slice(&data_offset.to_le_bytes());
    b[18..22].copy_from_slice(&width.to_le_bytes());
    b[22..26].copy_from_slice(&height.to_le_bytes());
    b
}

fn small_palette() -> Vec<[u8; 3]> {
    let bytes: Vec<u8> = (0..4u8).flat_map(|i| [10 * i, 10 * i + 1, 10 * i + 2]).collect();
    decode_palette(&bytes)
}

/// A 3x2 image: file row 0 (the bottom row) holds indices 1, 2, 0 and
/// file row 1 (the top row) holds 3, 0, 1; rows are padded to four bytes.
fn small_bmp(height_sign: i32) -> Vec<u8> {
    let mut b = header(54, 3, 2 * height_sign);
    b.extend_from_slice(&[1, 2, 0, 0xEE]);
    b.extend_from_slice(&[3, 0, 1, 0xEE]);
    b
}

#[test]
fn palette_takes_rgb_triples() {
    let p = small_palette();
    assert_eq!(p, vec![[0, 1, 2], [10, 11, 12], [20, 21, 22], [30, 31, 32]]);
}

#[test]
fn palette_ignores_incomplete_triple() {
    let p = decode_palette(&[1, 2, 3, 4, 5, 6, 7, 8]);
    assert_eq!(p, vec![[1, 2, 3], [4, 5, 6]]);
    assert_eq!(decode_palette(&[]), Vec::<[u8; 3]>::new());
}

#[test]
fn palette_holds_at_most_256_colours() {
    let bytes: Vec<u8> = (0..900u32).map(|i| (i % 251) as u8).collect();
    let p = decode_palette(&bytes);
    assert_eq!(p.len(), 256);
    assert_eq!(p[255], [bytes[765], bytes[766], bytes[767]]);
}

#[test]
fn short_file_is_invalid_format() {
    let pal = small_palette();
    let b = vec![0u8; 53];
    assert!(can_decode_gsc_bmp(&b, &pal));
    assert!(matches!(decode_gsc_bmp(&b, &pal), Err(GscBmpLoaderError::InvalidFormat)));
}

#[test]
fn rows_are_flipped_and_index_zero_is_transparent() {
    let pal = small_palette();
    let b = small_bmp(1);
    assert!(can_decode_gsc_bmp(&b, &pal));
    let img = decode_gsc_bmp(&b, &pal).ok().unwrap();
    assert_eq!(img.width, 3);
    assert_eq!(img.height, 2);
    assert_eq!(
        img.rgba,
        vec![
            30, 31, 32, 255, 0, 1, 2, 0, 10, 11, 12, 255, //
            10, 11, 12, 255, 20, 21, 22, 255, 0, 1, 2, 0,
        ]
    );
}

#[test]
fn negative_height_decodes_like_positive() {
    let pal = small_palette();
    let up = decode_gsc_bmp(&small_bmp(1), &pal).ok().unwrap();
    let down = decode_gsc_bmp(&small_bmp(-1), &pal).ok().unwrap();
    assert_eq!(down.height, 2);
    assert_eq!(up.rgba, down.rgba);
}

#[test]
fn pixels_past_the_end_of_file_are_zero() {
    let pal = small_palette();
    let mut b = small_bmp(1);
    b.truncate(54 + 5);
    let img = decode_gsc_bmp(&b, &pal).ok().unwrap();
    // Top output row reads file row 1, which starts at byte 58: only its
    // first index (3) is in the file.
    assert_eq!(&img.rgba[0..12], &[30, 31, 32, 255, 0, 0, 0, 0, 0, 0, 0, 0]);
    assert_eq!(&img.rgba[12..24], &[10, 11, 12, 255, 20, 21, 22, 255, 0, 1, 2, 0]);
}

#[test]
fn negative_width_without_rows_gives_empty_image() {
    let pal = small_palette();
    let b = header(54, -4, 0);
    assert!(can_decode_gsc_bmp(&b, &pal));
    let img = decode_gsc_bmp(&b, &pal).ok().unwrap();
    assert_eq!(img.width, 4294967292);
    assert_eq!(img.height, 0);
    assert!(img.rgba.is_empty());
}

#[test]
fn undecodable_inputs_are_detected() {
    let pal = small_palette();
    assert!(!can_decode_gsc_bmp(&header(54, 2, i32::MIN), &pal));
    assert!(!can_decode_gsc_bmp(&header(54, -1, 0), &pal));
    assert!(!can_decode_gsc_bmp(&header(54, -8, 1), &pal));
    let mut b = header(54, 1, 1);
    b.extend_from_slice(&[9, 0, 0, 0]);
    assert!(!can_decode_gsc_bmp(&b, &pal));
    let full: Vec<[u8; 3]> = (0..=255u8).map(|i| [i, i, i]).collect();
    assert!(can_decode_gsc_bmp(&b, &full));
    let img = decode_gsc_bmp(&b, &full).ok().unwrap();
    assert_eq!(img.rgba, vec![9, 9, 9, 255]);
}

#[test]
fn empty_width_gives_empty_rows() {
    let pal = small_palette();
    let b = header(54, 0, 3);
    assert!(can_decode_gsc_bmp(&b, &pal));
    let img = decode_gsc_bmp(&b, &pal).ok().unwrap();
    assert_eq!((img.width, img.height), (0, 3));
    assert!(img.rgba.is_empty());
}

#[test]
fn row_padding_is_skipped() {
    // 5 pixels per row are stored in 8 bytes.
    let pal: Vec<[u8; 3]> = (0..=255u8).map(|i| [i, 0, 0]).collect();
    let mut b = header(54, 5, 2);
    b.extend_from_slice(&[1, 2, 3, 4, 5, 99, 99, 99]);
    b.extend_from_slice(&[6, 7, 8, 9, 10, 99, 99, 99]);
    let img = decode_gsc_bmp(&b, &pal).ok().unwrap();
    let reds: Vec<u8> = img.rgba.chunks(4).map(|c| c[0]).collect();
    assert_eq!(reds, vec![6, 7, 8, 9, 10, 1, 2, 3, 4, 5]);
}
