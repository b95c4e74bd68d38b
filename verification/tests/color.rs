use now_playing::color::{rgb888_to_rgb565, rgb8_to_rgb565, BLACK, WHITE};

#[test]
fn pure_red_pixel_becomes_f800() {
    assert_eq!(rgb8_to_rgb565(&[255, 0, 0]), vec![0xF8, 0x00]);
}

#[test]
fn pure_green_and_blue_pixels() {
    assert_eq!(rgb8_to_rgb565(&[0, 255, 0]), vec![0x07, 0xE0]);
    assert_eq!(rgb8_to_rgb565(&[0, 0, 255]), vec![0x00, 0x1F]);
}

#[test]
fn black_and_white_pixels() {
    assert_eq!(rgb8_to_rgb565(&[0, 0, 0, 255, 255, 255]), vec![0, 0, 0xFF, 0xFF]);
    assert_eq!(BLACK, 0);
    assert_eq!(WHITE, 0xFFFF);
}

#[test]
fn channels_are_scaled_to_their_levels() {
    // (29 + 1) * 31 / 255 = 3, (185 + 1) * 63 / 255 = 45, (84 + 1) * 31 / 255 = 10.
    assert_eq!(rgb888_to_rgb565(0x1d, 0xb9, 0x54), (3 << 11) | (45 << 5) | 10);
    assert_eq!(rgb888_to_rgb565(0x1d, 0xb9, 0x54), 0x1DAA);
    assert_eq!(rgb8_to_rgb565(&[0x1d, 0xb9, 0x54]), vec![0x1D, 0xAA]);
    // (160 + 1) * 31 / 255 = 19, (160 + 1) * 63 / 255 = 39.
    assert_eq!(rgb888_to_rgb565(160, 160, 160), 0x9CF3);
    // The lowest values that reach the first level.
    assert_eq!(rgb888_to_rgb565(7, 3, 7), 0);
    assert_eq!(rgb888_to_rgb565(8, 4, 8), (1 << 11) | (1 << 5) | 1);
}

#[test]
fn red_stays_in_the_top_bits() {
    // A pixel with only red must not come out as blue: the two reversals
    // of the channel order cancel.
    let out = rgb8_to_rgb565(&[200, 10, 20]);
    let word = u16::from_be_bytes([out[0], out[1]]);
    assert_eq!(word >> 11, (201 * 31 / 255) as u16);
    assert_eq!((word >> 5) & 0x3F, (11 * 63 / 255) as u16);
    assert_eq!(word & 0x1F, (21 * 31 / 255) as u16);
}

#[test]
fn output_is_two_thirds_of_the_input() {
    for len in 0..40usize {
        let input: Vec<u8> = (0..len).map(|i| (i * 37 % 256) as u8).collect();
        assert_eq!(rgb8_to_rgb565(&input).len(), len * 2 / 3, "for {len} bytes");
    }
}

#[test]
fn partial_triple_at_the_end_is_not_a_pixel() {
    assert_eq!(rgb8_to_rgb565(&[]), Vec::<u8>::new());
    assert_eq!(rgb8_to_rgb565(&[255]), Vec::<u8>::new());
    assert_eq!(rgb8_to_rgb565(&[255, 255]), vec![0]);
    assert_eq!(rgb8_to_rgb565(&[255, 0, 0, 255]), vec![0xF8, 0x00]);
    assert_eq!(rgb8_to_rgb565(&[255, 0, 0, 255, 255]), vec![0xF8, 0x00, 0]);
}

#[test]
fn same_input_gives_same_output() {
    let input: Vec<u8> = (0..114 * 3 * 4).map(|i| (i * 97 % 251) as u8).collect();
    let first = rgb8_to_rgb565(&input);
    let second = rgb8_to_rgb565(&input);
    assert_eq!(first, second);
    assert_eq!(first.len(), 114 * 2 * 4);
}

#[test]
fn pixels_keep_their_order() {
    let out = rgb8_to_rgb565(&[255, 0, 0, 0, 255, 0, 0, 0, 255]);
    assert_eq!(out, vec![0xF8, 0x00, 0x07, 0xE0, 0x00, 0x1F]);
}
