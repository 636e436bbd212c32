use raytrace::ppm::{encode_header, encode_image, encode_pixel, Rgb8};

/// The expected file: the magic line of the plain format, then `rest`.
fn file(rest: &[u8]) -> Vec<u8> {
    let mut bytes = vec![b'P', b'3', b'\n'];
    bytes.extend_from_slice(rest);
    bytes
}

#[test]
fn header_lines() {
    assert_eq!(encode_header(1200, 800), file(b"1200 800\n255\n"));
    assert_eq!(encode_header(0, 7), file(b"0 7\n255\n"));
}

#[test]
fn full_white_pixel_line() {
    assert_eq!(encode_pixel(Rgb8 { r: 255, g: 255, b: 255 }), b"255 255 255\n".to_vec());
}

#[test]
fn pixel_line_without_leading_zeros() {
    assert_eq!(encode_pixel(Rgb8 { r: 0, g: 7, b: 10 }), b"0 7 10\n".to_vec());
    assert_eq!(encode_pixel(Rgb8 { r: 100, g: 99, b: 201 }), b"100 99 201\n".to_vec());
}

#[test]
fn image_is_header_then_lines_in_order() {
    let pixels = vec![
        Rgb8 { r: 1, g: 2, b: 3 },
        Rgb8 { r: 40, g: 50, b: 60 },
    ];
    assert_eq!(
        encode_image(2, 1, &pixels),
        Some(file(b"2 1\n255\n1 2 3\n40 50 60\n"))
    );
}

#[test]
fn empty_image() {
    assert_eq!(encode_image(0, 0, &vec![]), Some(file(b"0 0\n255\n")));
}

#[test]
fn pixel_count_mismatch_is_none() {
    let pixels = vec![Rgb8 { r: 1, g: 2, b: 3 }];
    assert_eq!(encode_image(2, 1, &pixels), None);
    assert_eq!(encode_image(usize::MAX, 2, &pixels), None);
}
