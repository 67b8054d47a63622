use flipper::error::CompressionError;
use flipper::flipper_core::utils::{
    bytes_equal, compress, decompress, frame_to_img_bytes, img_layout_ok, xor_in_place,
};

#[test]
fn test() {
    let s = vec![112, 34, 56, 67, 78, 89, 45, 34, 34, 23, 23, 12, 56];
    let compressed = compress(&s[..]).unwrap();
    let res = decompress(&compressed[..]).unwrap();
    assert!(s.eq(&res))
}

#[test]
fn compress_produces_a_zlib_stream_not_the_input() {
    let s: Vec<u8> = vec![7; 1000];
    let compressed = compress(&s).unwrap();
    assert_ne!(compressed, s);
    assert!(compressed.len() < s.len());
    // zlib header with the default compression level
    assert_eq!(compressed[0], 0x78);
    assert_eq!(decompress(&compressed).unwrap(), s);
}

#[test]
fn compress_empty_roundtrip() {
    let compressed = compress(&[]).unwrap();
    assert!(!compressed.is_empty());
    assert_eq!(decompress(&compressed).unwrap(), Vec::<u8>::new());
}

#[test]
fn decompress_rejects_garbage() {
    assert_eq!(decompress(&[1, 2, 3, 4, 5]), Err(CompressionError::Decompress));
}

#[test]
fn frame_to_img_bytes_swaps_channels_and_sets_alpha() {
    // two rows of two pixels, stride 8
    let frame: Vec<u8> = (0u8..16).collect();
    let img = frame_to_img_bytes(&frame, 2, 2);
    assert_eq!(
        img,
        vec![2, 1, 0, 255, 6, 5, 4, 255, 10, 9, 8, 255, 14, 13, 12, 255]
    );
}

#[test]
fn frame_to_img_bytes_skips_row_padding() {
    // one pixel per row, rows 6 bytes apart: the last two bytes of each row are padding
    let frame: Vec<u8> = vec![1, 2, 3, 4, 90, 91, 5, 6, 7, 8, 92, 93];
    assert!(img_layout_ok(frame.len(), 1, 2));
    let img = frame_to_img_bytes(&frame, 1, 2);
    assert_eq!(img, vec![3, 2, 1, 255, 7, 6, 5, 255]);
}

#[test]
fn frame_to_img_bytes_zero_width_is_empty() {
    let img = frame_to_img_bytes(&[1, 2, 3], 0, 3);
    assert!(img.is_empty());
}

#[test]
fn img_layout_ok_edges() {
    assert!(!img_layout_ok(16, 2, 0));
    assert!(img_layout_ok(16, 2, 2));
    assert!(img_layout_ok(15, 2, 2));
    assert!(img_layout_ok(14, 2, 2));
    assert!(img_layout_ok(13, 2, 2));
    assert!(!img_layout_ok(12, 2, 2));
    assert!(img_layout_ok(0, 0, 5));
    assert!(!img_layout_ok(usize::MAX, usize::MAX, usize::MAX));
}

#[test]
fn xor_in_place_zips_to_the_shorter() {
    let mut a = vec![0b1010, 0xff, 3];
    xor_in_place(&mut a, &[0b0110, 0x0f]);
    assert_eq!(a, vec![0b1100, 0xf0, 3]);
    let mut b = vec![1, 2];
    xor_in_place(&mut b, &[1, 2, 3, 4]);
    assert_eq!(b, vec![0, 0]);
}

#[test]
fn bytes_equal_cases() {
    assert!(bytes_equal(&[1, 2, 3], &[1, 2, 3]));
    assert!(!bytes_equal(&[1, 2, 3], &[1, 2, 4]));
    assert!(!bytes_equal(&[1, 2], &[1, 2, 3]));
    assert!(bytes_equal(&[], &[]));
}
