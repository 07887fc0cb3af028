use wxcore::contours;
use wxcore::storm_image;

fn px(p: &[u8], size: usize, x: usize, y: usize) -> [u8; 4] {
    let i = (y * size + x) * 4;
    [p[i], p[i + 1], p[i + 2], p[i + 3]]
}

#[test]
fn contour_glyphs() {
    assert_eq!(contours::char_glyph('-'), [0, 0, 0, 0b11111, 0, 0, 0]);
    assert_eq!(contours::char_glyph('x'), [0; 7]);
    assert_eq!(contours::char_glyph('1')[6], 0b01110);
}

#[test]
fn contour_label_is_centred_and_outlined() {
    let mut p = vec![0u8; 256 * 256 * 4];
    contours::draw_text(&mut p, 100, 100, "-", (255, 255, 255));
    // one byte of text: starts 3 left, 3 up; '-' lights row 3, columns 0..5
    assert_eq!(px(&p, 256, 97, 100), [255, 255, 255, 240]);
    assert_eq!(px(&p, 256, 101, 100), [255, 255, 255, 240]);
    assert_eq!(px(&p, 256, 97, 99), [0, 0, 0, 180]);
    assert_eq!(px(&p, 256, 96, 100), [0, 0, 0, 180]);
    assert_eq!(px(&p, 256, 102, 101), [0, 0, 0, 180]);
    assert_eq!(px(&p, 256, 97, 102), [0, 0, 0, 0]);
}

#[test]
fn storm_glyph_default_is_question_mark() {
    assert_eq!(storm_image::get_glyph('~'), [0b01110, 0b01010, 0b01010, 0b01010, 0b01010, 0b00000, 0b01010]);
    assert_eq!(storm_image::get_glyph('m'), [0b00000, 0b00000, 0b11010, 0b10101, 0b10101, 0b10001, 0b10001]);
}

#[test]
fn storm_text_and_pixels() {
    let size = 32;
    let mut p = vec![0u8; size * size * 4];
    storm_image::set_pixel(&mut p, size, 1, 2, [5, 6, 7, 8]);
    assert_eq!(px(&p, size, 1, 2), [5, 6, 7, 8]);
    storm_image::set_pixel(&mut p, size, 40, 40, [5, 6, 7, 8]);
    storm_image::draw_text(&mut p, size, -2, 0, "-", (1, 1, 1));
    assert_eq!(px(&p, size, 0, 3), [1, 1, 1, 255]);
    assert_eq!(px(&p, size, 2, 3), [1, 1, 1, 255]);
    assert_eq!(px(&p, size, 3, 3), [0, 0, 0, 0]);
}

#[test]
fn cell_marker_is_a_crosshair() {
    let size = 20;
    let mut p = vec![0u8; size * size * 4];
    storm_image::draw_cell_marker(&mut p, size, 2, 10);
    assert_eq!(px(&p, size, 0, 10), [0, 255, 255, 255]);
    assert_eq!(px(&p, size, 6, 10), [0, 255, 255, 255]);
    assert_eq!(px(&p, size, 2, 6), [0, 255, 255, 255]);
    assert_eq!(px(&p, size, 2, 14), [0, 255, 255, 255]);
    assert_eq!(px(&p, size, 3, 11), [0, 0, 0, 0]);
    let lit = p.chunks(4).filter(|c| c[3] > 0).count();
    assert_eq!(lit, 7 + 8);
}

#[test]
fn contour_settings_by_variable() {
    assert_eq!(contours::default_contour_settings("HGT"), (60, (255, 255, 255), 20));
    assert_eq!(contours::default_contour_settings("dew"), (5, (200, 200, 255), 15));
    assert_eq!(contours::default_contour_settings("refd"), (10, (100, 100, 100), 15));
    assert_eq!(contours::default_contour_settings("Visibility"), (1000, (255, 255, 200), 15));
    assert_eq!(contours::default_contour_settings("unknown"), (10, (255, 255, 255), 15));
}
