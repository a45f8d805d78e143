use terminal_display::glyph::{braille_char, encode, PixelBuffer};

fn buffer(width: u32, height: u32, data: Vec<u8>) -> PixelBuffer {
    PixelBuffer { width, height, data }
}

#[test]
fn braille_char_adds_mask_to_base() {
    assert_eq!(braille_char(0), '\u{2800}');
    assert_eq!(braille_char(1), '\u{2801}');
    assert_eq!(braille_char(0x47), '\u{2847}');
    assert_eq!(braille_char(0xFF), '\u{28FF}');
}

#[test]
fn dark_block_gives_empty_glyph() {
    let b = buffer(2, 4, vec![0, 10, 100, 200, 254, 254, 3, 0]);
    assert_eq!(encode(&b), vec!['\u{2800}']);
}

#[test]
fn lit_block_gives_full_glyph() {
    let b = buffer(2, 4, vec![255; 8]);
    assert_eq!(encode(&b), vec!['\u{28FF}']);
}

#[test]
fn top_left_pixel_sets_bit_zero() {
    let mut data = vec![0u8; 8];
    data[0] = 255;
    let b = buffer(2, 4, data);
    assert_eq!(encode(&b), vec!['\u{2801}']);
}

#[test]
fn each_dot_sets_its_permuted_bit() {
    // Pixel (dx, dy) of a 2x4 block lives at index dy * 2 + dx.
    let expected: [(usize, u32); 8] = [
        (0, 0x01),
        (2, 0x02),
        (4, 0x04),
        (6, 0x40),
        (1, 0x08),
        (3, 0x10),
        (5, 0x20),
        (7, 0x80),
    ];
    for (index, bit) in expected {
        let mut data = vec![0u8; 8];
        data[index] = 255;
        let out = encode(&buffer(2, 4, data));
        assert_eq!(out, vec![char::from_u32(0x2800 + bit).unwrap()]);
    }
}

#[test]
fn encoding_twice_gives_the_same_glyphs() {
    let data: Vec<u8> = (0..48u32).map(|i| if i % 3 == 0 { 255 } else { (i * 5) as u8 }).collect();
    let b = buffer(6, 8, data);
    let first = encode(&b);
    let second = encode(&b);
    assert_eq!(first, second);
    assert_eq!(first.len(), 6);
}

#[test]
fn odd_width_leaves_right_dots_unlit() {
    // A 3x4 image: the second glyph covers column 2 only.
    let data = vec![
        0, 0, 255, //
        0, 0, 255, //
        0, 0, 255, //
        0, 0, 255, //
    ];
    let out = encode(&buffer(3, 4, data));
    assert_eq!(out, vec!['\u{2800}', '\u{2847}']);
}

#[test]
fn partial_bottom_row_of_blocks() {
    // Width 2, height 5: the second glyph row has only its top row of pixels.
    let data = vec![0, 0, 0, 0, 0, 0, 0, 0, 255, 255];
    let out = encode(&buffer(2, 5, data));
    assert_eq!(out, vec!['\u{2800}', '\u{2809}']);
}

#[test]
fn glyphs_come_row_by_row() {
    // A 4x8 image with only the top-left pixel of the bottom-right block lit.
    let mut data = vec![0u8; 32];
    data[4 * 4 + 2] = 255;
    let out = encode(&buffer(4, 8, data));
    assert_eq!(out, vec!['\u{2800}', '\u{2800}', '\u{2800}', '\u{2801}']);
}

#[test]
fn empty_image_gives_no_glyphs() {
    assert!(encode(&buffer(0, 0, Vec::new())).is_empty());
    assert!(encode(&buffer(5, 0, Vec::new())).is_empty());
}

#[test]
fn almost_full_intensity_is_not_lit() {
    let b = buffer(2, 4, vec![254; 8]);
    assert_eq!(encode(&b), vec!['\u{2800}']);
}
