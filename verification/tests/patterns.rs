use barsign_disp::patterns::{
    animated_rainbow, glyph_row, grid, hsv_to_rgb, is_version_pixel, rainbow, render, rgb, solid,
    solid_blue, solid_green, solid_red, solid_white, version_char, Pattern,
};

#[test]
fn rgb_packs_blue_high() {
    assert_eq!(rgb(1, 2, 3), 0x030201);
    assert_eq!(rgb(255, 0, 0), 0x0000FF);
    assert_eq!(rgb(0, 0, 255), 0xFF0000);
}

#[test]
fn hsv_primary_colours() {
    assert_eq!(hsv_to_rgb(0, 255, 255), (255, 0, 0));
    assert_eq!(hsv_to_rgb(60, 255, 255), (255, 255, 0));
    assert_eq!(hsv_to_rgb(120, 255, 255), (0, 255, 0));
    assert_eq!(hsv_to_rgb(180, 255, 255), (0, 255, 255));
    assert_eq!(hsv_to_rgb(240, 255, 255), (0, 0, 255));
    assert_eq!(hsv_to_rgb(300, 255, 255), (255, 0, 255));
    assert_eq!(hsv_to_rgb(30, 255, 255), (255, 127, 0));
    assert_eq!(hsv_to_rgb(77, 0, 9), (9, 9, 9));
    assert_eq!(hsv_to_rgb(65535, 255, 255), (255, 0, 192));
}

#[test]
fn solid_pictures() {
    assert_eq!(solid(2, 2, 1, 2, 3), vec![0x030201; 4]);
    assert_eq!(solid_white(3, 1), vec![0xFFFFFF; 3]);
    assert_eq!(solid_red(1, 2), vec![0x0000FF; 2]);
    assert_eq!(solid_green(1, 1), vec![0x00FF00]);
    assert_eq!(solid_blue(1, 1), vec![0xFF0000]);
    assert_eq!(solid(0, 5, 1, 1, 1).len(), 0);
    assert_eq!(solid(5, 0, 1, 1, 1).len(), 0);
}

#[test]
fn rainbow_turns_with_the_diagonal() {
    assert_eq!(rainbow(2, 1), vec![0x0000FF, 0xFF0000]);
    assert_eq!(animated_rainbow(2, 1, 0), rainbow(2, 1));
    assert_eq!(animated_rainbow(2, 1, 1), vec![0xFF0000, 0x00FF00]);
    assert_eq!(animated_rainbow(2, 1, 3), rainbow(2, 1));
    assert_eq!(rainbow(128, 64).len(), 128 * 64);
    assert_eq!(render(Pattern::Rainbow, 2, 1), rainbow(2, 1));
}

#[test]
fn animated_rainbow_wraps_its_arithmetic() {
    let picture = animated_rainbow(1, 1, u32::MAX);
    let hue = (0u32.wrapping_add(u32::MAX).wrapping_mul(360).wrapping_mul(2) / 2) % 360;
    let (r, g, b) = hsv_to_rgb(hue as u16, 255, 255);
    assert_eq!(picture, vec![rgb(r, g, b)]);
}

#[test]
fn grid_lines_and_diagonals() {
    let picture = grid(8, 8);
    assert_eq!(picture.len(), 64);
    assert_eq!(picture[0], 0xFFFF00);
    assert_eq!(picture[7], 0xFF00FF);
    assert_eq!(picture[1], 0xFFFFFF);
    assert_eq!(picture[8 + 2], 0x00FF00);
    assert_eq!(picture[8 + 3], 0);
    assert_eq!(picture[8], 0x0000FF);
    assert_eq!(picture[8 + 1], 0xFFFF00);
    assert_eq!(picture[8 + 4], 0xFF0000);
    assert_eq!(picture[3 * 8 + 6], 0x00FFFF);
    assert_eq!(picture[2 * 8 + 1], 0xFFFFFF);
    assert_eq!(picture[63], 0xFFFF00);
}

#[test]
fn version_text_needs_room() {
    assert!(!is_version_pixel(2, 22, 128, 64));
    assert!(!is_version_pixel(0, 0, 0, 0));
    assert!(!is_version_pixel(2, 22, 160, 16));
    assert!(is_version_pixel(2, 22, 160, 64));
    assert!(!is_version_pixel(3, 22, 160, 64));
    assert!(is_version_pixel(6, 22, 160, 64));
    assert!(!is_version_pixel(7, 22, 160, 64));
    assert!(!is_version_pixel(2, 20, 160, 64));
    assert!(is_version_pixel(9, 20, 160, 64));
    assert!(!is_version_pixel(8, 20, 160, 64));
    assert!(!is_version_pixel(2, 27, 160, 64));
    assert!(!is_version_pixel(1, 22, 160, 64));
    assert!(!is_version_pixel(38, 22, 160, 64));
    assert_eq!(grid(160, 64)[22 * 160 + 2], 0xFFFFFF);
}

#[test]
fn font_has_digits_dot_and_v() {
    assert_eq!(version_char(0), b'v');
    assert_eq!(version_char(1), b'0');
    assert_eq!(version_char(2), b'.');
    assert_eq!(version_char(3), b'1');
    assert_eq!(version_char(4), b'.');
    assert_eq!(version_char(5), b'0');
    assert_eq!(glyph_row(b'1', 1), Some(0b01100));
    assert_eq!(glyph_row(b'9', 6), Some(0b01100));
    assert_eq!(glyph_row(b'.', 0), Some(0));
    assert_eq!(glyph_row(b'v', 6), Some(0b00100));
    assert_eq!(glyph_row(b'a', 0), None);
}
