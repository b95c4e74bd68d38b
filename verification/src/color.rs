//! Conversion of 24-bit RGB pixels to the 16-bit colour words of the display.
//!
//! A colour word holds red in its top five bits, green in the middle six and
//! blue in the low five. Pixel buffers store each word big-endian.
use vstd::prelude::*;

verus! {

/// A colour of the display: a 5-6-5 word.
pub type Color = u16;

/// Black, the background of every region.
pub const BLACK: Color = 0;

/// White, the colour of all text.
pub const WHITE: Color = 0xFFFF;

/// The five-bit level that stands for an eight-bit channel value.
pub open spec fn level5(c: u8) -> int {
    (c as int + 1) * 31 / 255
}

/// The six-bit level that stands for an eight-bit channel value.
pub open spec fn level6(c: u8) -> int {
    (c as int + 1) * 63 / 255
}

/// The colour word of three eight-bit channels.
pub open spec fn packed565(r: u8, g: u8, b: u8) -> int {
    level5(r) * 2048 + level6(g) * 32 + level5(b)
}

/// A colour word with its red and blue fields exchanged.
pub open spec fn swap_components(word: u16) -> u16 {
    (word & 0x07E0u16) | (word >> 11u16) | (word << 11u16)
}

/// The two bytes that one RGB pixel becomes: its colour word, high byte
/// first.
pub open spec fn pixel_bytes(r: u8, g: u8, b: u8) -> Seq<u8> {
    seq![(packed565(r, g, b) / 256) as u8, (packed565(r, g, b) % 256) as u8]
}

/// The display buffer of a buffer of RGB triples: two bytes for each whole
/// triple, in order. The result has two thirds of the input's length, rounded
/// down; where the input ends in a partial triple of two bytes, the one
/// byte this leaves over is zero.
pub open spec fn rgb565_bytes(rgb: Seq<u8>) -> Seq<u8> {
    Seq::new(
        (rgb.len() * 2 / 3) as nat,
        |i: int|
            if i / 2 < rgb.len() / 3 {
                pixel_bytes(rgb[3 * (i / 2)], rgb[3 * (i / 2) + 1], rgb[3 * (i / 2) + 2])[i % 2]
            } else {
                0u8
            },
    )
}

/// `rgb565::Rgb565::from_rgb888_components`, read back with `to_rgb565`:
/// each channel is scaled to its level and the levels are packed into one
/// word, the first argument in the top bits.
#[verifier::external_body]
fn pack_rgb888(r: u8, g: u8, b: u8) -> (word: u16)
    ensures
        word as int == packed565(r, g, b),
{
    rgb565::Rgb565::from_rgb888_components(r, g, b).to_rgb565()
}

/// `rgb565::Rgb565::to_bgr565_be` of the colour made by `from_rgb565`: the
/// word with red and blue exchanged, high byte first.
#[verifier::external_body]
fn bgr565_be(word: u16) -> (bytes: (u8, u8))
    ensures
        bytes.0 as int == swap_components(word) as int / 256,
        bytes.1 as int == swap_components(word) as int % 256,
{
    let [high, low] = rgb565::Rgb565::from_rgb565(word).to_bgr565_be();
    (high, low)
}

proof fn lemma_levels_fit(c: u8)
    ensures
        0 <= level5(c) < 32,
        0 <= level6(c) < 64,
{
}

/// Exchanging red and blue in a word packed from (blue, green, red) gives
/// the word packed from (red, green, blue).
proof fn lemma_swap_reversed(r5: u16, g6: u16, b5: u16)
    requires
        r5 < 32,
        g6 < 64,
        b5 < 32,
    ensures
        swap_components((b5 * 2048 + g6 * 32 + r5) as u16) as int == r5 * 2048 + g6 * 32 + b5,
{
    assert(swap_components((b5 * 2048 + g6 * 32 + r5) as u16) as int == r5 * 2048 + g6 * 32 + b5)
        by (bit_vector)
        requires
            r5 < 32,
            g6 < 64,
            b5 < 32,
    ;
}

/// The colour word of three eight-bit channels.
pub fn rgb888_to_rgb565(r: u8, g: u8, b: u8) -> (word: Color)
    ensures
        word as int == packed565(r, g, b),
{
    pack_rgb888(r, g, b)
}

/// Repacks a buffer of 8-bit RGB triples into big-endian colour words.
///
/// Each pixel is packed with its channels in reverse order and then has
/// red and blue exchanged as it is written out. The two reversals are
/// fixed: together they leave red in the top bits of the first byte.
pub fn rgb8_to_rgb565(image: &[u8]) -> (out: Vec<u8>)
    ensures
        out@ == rgb565_bytes(image@),
        out@.len() == image@.len() * 2 / 3,
{
    let pixels: usize = image.len() / 3;
    let spare: usize = (image.len() % 3) * 2 / 3;
    let mut out: Vec<u8> = Vec::new();
    let mut i: usize = 0;
    while i < pixels
        invariant
            pixels == image@.len() / 3,
            image@.len() <= usize::MAX,
            i <= pixels,
            out@.len() == 2 * i,
            forall|k: int| 0 <= k < 2 * i ==> out@[k] == #[trigger] rgb565_bytes(image@)[k],
        decreases pixels - i,
    {
        let r: u8 = image[3 * i];
        let g: u8 = image[3 * i + 1];
        let b: u8 = image[3 * i + 2];
        let word: u16 = pack_rgb888(b, g, r);
        let (high, low) = bgr565_be(word);
        proof {
            lemma_levels_fit(r);
            lemma_levels_fit(g);
            lemma_levels_fit(b);
            lemma_swap_reversed(level5(r) as u16, level6(g) as u16, level5(b) as u16);
            assert(high == pixel_bytes(r, g, b)[0]);
            assert(low == pixel_bytes(r, g, b)[1]);
            assert((2 * i) / 2 == i && (2 * i) % 2 == 0);
            assert((2 * i + 1) / 2 == i && (2 * i + 1) % 2 == 1);
        }
        out.push(high);
        out.push(low);
        i += 1;
    }
    if spare == 1 {
        out.push(0);
    }
    proof {
        assert(out@.len() == image@.len() * 2 / 3);
        assert(out@ =~= rgb565_bytes(image@));
    }
    out
}

} // verus!
