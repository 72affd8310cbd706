use simple_ray_tracer::ppm::ppm_encode;

#[test]
fn ppm_encoding_exact_bytes() {
    let pixels = vec![(0, 0, 0), (255, 128, 7)];
    let bytes = ppm_encode(2, 1, &pixels);
    assert_eq!(bytes, b"P3\n2 1\n255\n0 0 0\n255 128 7\n".to_vec());
}

#[test]
fn ppm_encoding_row_major_order() {
    let pixels = vec![(1, 2, 3), (4, 5, 6), (7, 8, 9), (10, 11, 12)];
    let bytes = ppm_encode(2, 2, &pixels);
    assert_eq!(
        bytes,
        b"P3\n2 2\n255\n1 2 3\n4 5 6\n7 8 9\n10 11 12\n".to_vec()
    );
}

#[test]
fn ppm_encoding_empty_image() {
    let pixels: Vec<(u8, u8, u8)> = Vec::new();
    let bytes = ppm_encode(0, 0, &pixels);
    assert_eq!(bytes, b"P3\n0 0\n255\n".to_vec());
}

#[test]
fn ppm_encoding_multi_digit_dimensions() {
    let pixels = vec![(100, 200, 250); 12];
    let bytes = ppm_encode(12, 1, &pixels);
    let mut expected = b"P3\n12 1\n255\n".to_vec();
    for _ in 0..12 {
        expected.extend_from_slice(b"100 200 250\n");
    }
    assert_eq!(bytes, expected);
}
