use ray_tracing::image::Image;

#[test]
fn new_image_is_black() {
    let img = Image::new(3, 2);
    assert_eq!(img.width(), 3);
    assert_eq!(img.height(), 2);
    for j in 0..2 {
        for i in 0..3 {
            assert_eq!(img.get_pixel(i, j), (0, 0, 0));
        }
    }
}

#[test]
fn set_and_get_pixel() {
    let mut img = Image::new(2, 2);
    img.set_pixel(1, 0, 10, 20, 30);
    assert_eq!(img.get_pixel(1, 0), (10, 20, 30));
    assert_eq!(img.get_pixel(0, 0), (0, 0, 0));
    assert_eq!(img.get_pixel(1, 1), (0, 0, 0));
}

#[test]
fn ppm_writes_rows_top_to_bottom() {
    // Row 1 (the top row) must come first in the file, row 0 last.
    let mut img = Image::new(1, 2);
    img.set_pixel(0, 0, 255, 0, 0);
    img.set_pixel(0, 1, 0, 255, 0);
    let bytes = img.ppm_bytes();
    assert_eq!(
        String::from_utf8(bytes).unwrap(),
        "P3\n1 2\n255\n0 255 0\n255 0 0\n"
    );
}

#[test]
fn ppm_all_black() {
    let img = Image::new(2, 2);
    let bytes = img.ppm_bytes();
    assert_eq!(
        String::from_utf8(bytes).unwrap(),
        "P3\n2 2\n255\n0 0 0\n0 0 0\n0 0 0\n0 0 0\n"
    );
}

#[test]
fn ppm_multi_digit_channels() {
    let mut img = Image::new(2, 1);
    img.set_pixel(0, 0, 12, 255, 7);
    img.set_pixel(1, 0, 0, 100, 42);
    let bytes = img.ppm_bytes();
    assert_eq!(
        String::from_utf8(bytes).unwrap(),
        "P3\n2 1\n255\n12 255 7\n0 100 42\n"
    );
}
