use mandelbrot::raster::{image_buffer_len, pixel_shade, scan_coordinates, shade_pixels};

#[test]
fn buffer_len_is_four_bytes_per_pixel() {
    assert_eq!(image_buffer_len(800, 600), 1_920_000);
    assert_eq!(image_buffer_len(0, 600), 0);
}

#[test]
fn shade_endpoints_and_midpoint() {
    assert_eq!(pixel_shade(0, 100), 0);
    assert_eq!(pixel_shade(100, 100), 255);
    // 50^2 * 255 / 100^2 = 63.75
    assert_eq!(pixel_shade(50, 100), 63);
    assert_eq!(pixel_shade(1, 1), 255);
}

#[test]
fn shade_is_monotonic() {
    let mut previous = 0u8;
    for i in 0..=300usize {
        let grey = pixel_shade(i, 300);
        assert!(grey >= previous);
        previous = grey;
    }
}

#[test]
fn scan_order_rows_then_columns() {
    let points = scan_coordinates(4, 2);
    assert_eq!(
        points,
        vec![(-2, -1), (-1, -1), (0, -1), (1, -1), (-2, 0), (-1, 0), (0, 0), (1, 0)]
    );
}

#[test]
fn scan_drops_odd_column_and_row() {
    let points = scan_coordinates(5, 3);
    assert_eq!(points.len(), 4 * 2);
    assert_eq!(points[0], (-2, -1));
    assert_eq!(points[7], (1, 0));
}

#[test]
fn scan_of_degenerate_images_is_empty() {
    assert!(scan_coordinates(1, 100).is_empty());
    assert!(scan_coordinates(100, 0).is_empty());
    assert!(scan_coordinates(-10, 10).is_empty());
}

#[test]
fn shade_pixels_writes_grey_opaque_pixels_and_nothing_else() {
    let mut pixels = vec![7u8; 14];
    shade_pixels(&mut pixels, &[0, 10, 5], 10);
    assert_eq!(
        pixels,
        vec![0, 0, 0, 255, 255, 255, 255, 255, 63, 63, 63, 255, 7, 7]
    );
}

#[test]
fn shade_pixels_with_no_pixels_leaves_buffer() {
    let mut pixels = vec![9u8; 4];
    shade_pixels(&mut pixels, &[], 0);
    assert_eq!(pixels, vec![9, 9, 9, 9]);
}
