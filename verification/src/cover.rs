//! From the bytes of a cover as they were fetched to the buffer that the
//! display takes.
//!
//! A cover is decoded to RGB pixels, made to fit a square of 114 pixels
//! with its proportions kept, and repacked as colour words. Decoding is
//! done by `jpeg-decoder` and scaling by `image`; what is checked between
//! the two, and the repacking, is done here.
use crate::color::{rgb565_bytes, rgb8_to_rgb565};
use crate::graphics::IMAGE_WIDTH;
use crate::producer::ImageKind;
use image::imageops::FilterType;
use image::{DynamicImage, ImageBuffer, ImageFormat};
use vstd::prelude::*;

verus! {

/// Why the bytes of a cover gave no buffer for the display.
#[derive(Debug, Clone, Copy, PartialEq, Eq, Structural)]
pub enum CoverError {
    /// The bytes are no image that the decoder takes.
    Undecodable,
    /// The image has no width or no height.
    Empty,
    /// The pixels are not three bytes of red, green and blue each.
    NotRgb,
}

/// What went wrong in the JPEG decoder.
#[verifier::external_type_specification]
#[verifier::external_body]
pub struct ExJpegError(jpeg_decoder::Error);

/// What went wrong in the PNG decoder.
#[verifier::external_type_specification]
#[verifier::external_body]
pub struct ExImageError(image::ImageError);

/// An image of RGB pixels scaled with a triangle filter to the largest
/// size of the same proportions that fits a square of the given side: its
/// width, its height and its pixels.
pub uninterp spec fn scaled_rgb(width: u32, height: u32, rgb: Seq<u8>, side: u32) -> (
    u32,
    u32,
    Seq<u8>,
);

/// The picture that the bytes of a PNG image hold, as RGB pixels of eight
/// bits: its width, its height and its pixels, row by row; nothing for
/// bytes that the decoder does not take.
pub uninterp spec fn png_rgb(bytes: Seq<u8>) -> Option<(u32, u32, Seq<u8>)>;

/// `Decoder::decode` of `jpeg-decoder`, with the width and height from
/// `Decoder::info`. The decoder may use what the machine offers, so
/// nothing is said of the pixels.
#[verifier::external_body]
fn decode_jpeg(bytes: &[u8]) -> (decoded: Result<(Option<(u16, u16)>, Vec<u8>), jpeg_decoder::Error>) {
    let mut decoder = jpeg_decoder::Decoder::new(bytes);
    let pixels = decoder.decode()?;
    Ok((decoder.info().map(|info| (info.width, info.height)), pixels))
}

/// `image::load_from_memory_with_format` for PNG, read back with
/// `into_rgb8` and `into_raw`, with the width and height of the image. A
/// PNG image is stored without loss, so what comes out depends on the
/// bytes alone: it is the picture that they hold, or an error where they
/// hold none.
#[verifier::external_body]
fn decode_png(bytes: &[u8]) -> (decoded: Result<(u32, u32, Vec<u8>), image::ImageError>)
    ensures
        match decoded {
            Ok((width, height, pixels)) => png_rgb(bytes@) == Some((width, height, pixels@)),
            Err(_) => png_rgb(bytes@) is None,
        },
{
    let image = image::load_from_memory_with_format(bytes, ImageFormat::Png)?.into_rgb8();
    Ok((image.width(), image.height(), image.into_raw()))
}

/// `DynamicImage::resize` of `image` with `FilterType::Triangle`, on an
/// image made by `ImageBuffer::from_vec` and read back with `into_rgb8` and
/// `into_raw`. The result fits the square, is at least one pixel wide and
/// high, and has three bytes for each pixel. The longer side of the image
/// becomes the side of the square; of a square image both do.
#[verifier::external_body]
fn scale_rgb(width: u32, height: u32, rgb: Vec<u8>, side: u32) -> (scaled: (u32, u32, Vec<u8>))
    requires
        width > 0,
        height > 0,
        side > 0,
        rgb@.len() == width * height * 3,
    ensures
        (scaled.0, scaled.1, scaled.2@) == scaled_rgb(width, height, rgb@, side),
        1 <= scaled.0 <= side,
        1 <= scaled.1 <= side,
        width >= height ==> scaled.0 == side,
        height >= width ==> scaled.1 == side,
        scaled.2@.len() == scaled.0 * scaled.1 * 3,
{
    let image = DynamicImage::ImageRgb8(ImageBuffer::from_vec(width, height, rgb).unwrap());
    let small = image.resize(side, side, FilterType::Triangle).into_rgb8();
    (small.width(), small.height(), small.into_raw())
}

/// The buffer for the display of an image of RGB pixels, or why there is
/// none.
pub open spec fn cover_of_rgb(width: u32, height: u32, rgb: Seq<u8>) -> Result<Seq<u8>, CoverError> {
    if width == 0 || height == 0 {
        Err(CoverError::Empty)
    } else if rgb.len() != width * height * 3 {
        Err(CoverError::NotRgb)
    } else {
        Ok(rgb565_bytes(scaled_rgb(width, height, rgb, IMAGE_WIDTH).2))
    }
}

/// What holds of the cover that was made from an image of RGB pixels. It
/// is the buffer of the image, or the error says why there is none. The
/// buffer has two bytes for each pixel of the scaled image; the scaled
/// image fits the square of the cover, and its longer side is the side of
/// the square.
pub open spec fn is_cover_of(
    cover: Result<Vec<u8>, CoverError>,
    width: u32,
    height: u32,
    rgb: Seq<u8>,
) -> bool {
    let small = scaled_rgb(width, height, rgb, IMAGE_WIDTH);
    match cover {
        Ok(words) => {
            &&& cover_of_rgb(width, height, rgb) == Ok::<Seq<u8>, CoverError>(words@)
            &&& words@.len() == 2 * small.0 * small.1
            &&& 1 <= small.0 <= IMAGE_WIDTH
            &&& 1 <= small.1 <= IMAGE_WIDTH
            &&& width >= height ==> small.0 == IMAGE_WIDTH
            &&& height >= width ==> small.1 == IMAGE_WIDTH
        },
        Err(error) => cover_of_rgb(width, height, rgb) == Err::<Seq<u8>, CoverError>(error),
    }
}

/// The bytes were not taken by the decoder.
pub open spec fn is_undecodable(cover: Result<Vec<u8>, CoverError>) -> bool {
    cover is Err && cover->Err_0 == CoverError::Undecodable
}

/// What holds of every cover that was made: it is the cover of some image
/// of RGB pixels, or the bytes were not taken by the decoder.
pub open spec fn is_cover_result(cover: Result<Vec<u8>, CoverError>) -> bool {
    is_undecodable(cover) || exists|width: u32, height: u32, rgb: Seq<u8>|
        is_cover_of(cover, width, height, rgb)
}

/// What holds of the cover that was made from the bytes of a PNG image: it
/// is the cover of the picture that the bytes hold, and `Undecodable` where
/// they hold none.
pub open spec fn is_png_cover(cover: Result<Vec<u8>, CoverError>, bytes: Seq<u8>) -> bool {
    match png_rgb(bytes) {
        Some((width, height, rgb)) => is_cover_of(cover, width, height, rgb),
        None => is_undecodable(cover),
    }
}

/// A cover is made from every image that has a width, a height and three
/// bytes for each pixel, and from no other.
pub proof fn lemma_cover_is_owed(width: u32, height: u32, rgb: Seq<u8>)
    ensures
        cover_of_rgb(width, height, rgb) is Ok <==> width > 0 && height > 0 && rgb.len() == width
            * height * 3,
{
}

/// Makes the buffer for the display from an image of RGB pixels, three
/// bytes each, row by row: the image is scaled to fit the square of the
/// cover and repacked as colour words. A square image gives a buffer of
/// 114 by 114 colour words.
pub fn rgb_cover(width: u32, height: u32, rgb: Vec<u8>) -> (cover: Result<Vec<u8>, CoverError>)
    ensures
        is_cover_of(cover, width, height, rgb@),
        cover is Ok ==> cover->Ok_0@.len() % 2 == 0 && 2 <= cover->Ok_0@.len() <= 2 * IMAGE_WIDTH
            * IMAGE_WIDTH,
        cover is Ok && width == height ==> cover->Ok_0@.len() == 2 * IMAGE_WIDTH * IMAGE_WIDTH,
{
    if width == 0 || height == 0 {
        return Err(CoverError::Empty);
    }
    assert(width * height * 3 <= 0xFFFF_FFFF * 0xFFFF_FFFF * 3) by (nonlinear_arith)
        requires
            width <= 0xFFFF_FFFF,
            height <= 0xFFFF_FFFF,
    ;
    if rgb.len() as u128 != width as u128 * height as u128 * 3 {
        return Err(CoverError::NotRgb);
    }
    let (small_width, small_height, small) = scale_rgb(width, height, rgb, IMAGE_WIDTH);
    proof {
        lemma_cover_length(small_width as nat, small_height as nat);
    }
    Ok(rgb8_to_rgb565(small.as_slice()))
}

/// An image that fits the square of the cover has a buffer of two bytes
/// for each pixel: two thirds of its three.
proof fn lemma_cover_length(width: nat, height: nat)
    requires
        1 <= width <= IMAGE_WIDTH,
        1 <= height <= IMAGE_WIDTH,
    ensures
        (width * height * 3) * 2 / 3 == 2 * width * height,
        (2 * width * height) % 2 == 0,
        2 <= 2 * width * height <= 2 * IMAGE_WIDTH * IMAGE_WIDTH,
{
    assert(1 <= width * height <= 114 * 114) by (nonlinear_arith)
        requires
            1 <= width <= 114,
            1 <= height <= 114,
    ;
    assert(2 * width * height == 2 * (width * height)) by (nonlinear_arith);
}

/// Makes the buffer for the display from the bytes of a JPEG image. Bytes
/// that the decoder does not take give `Undecodable`; an image that has
/// been decoded is handed on as it is.
pub fn jpeg_cover(bytes: &[u8]) -> (cover: Result<Vec<u8>, CoverError>)
    ensures
        is_cover_result(cover),
        cover is Ok ==> cover->Ok_0@.len() % 2 == 0 && 2 <= cover->Ok_0@.len() <= 2 * IMAGE_WIDTH
            * IMAGE_WIDTH,
{
    match decode_jpeg(bytes) {
        Ok((Some((width, height)), pixels)) => {
            let ghost rgb = pixels@;
            let cover = rgb_cover(width as u32, height as u32, pixels);
            assert(is_cover_of(cover, width as u32, height as u32, rgb));
            cover
        },
        Ok((None, _)) => Err(CoverError::Undecodable),
        Err(_) => Err(CoverError::Undecodable),
    }
}

/// Makes the buffer for the display from the bytes of a PNG image. Bytes
/// that the decoder does not take give `Undecodable`; an image that has
/// been decoded is turned into RGB pixels and handed on.
pub fn png_cover(bytes: &[u8]) -> (cover: Result<Vec<u8>, CoverError>)
    ensures
        is_png_cover(cover, bytes@),
        is_cover_result(cover),
        cover is Ok ==> cover->Ok_0@.len() % 2 == 0 && 2 <= cover->Ok_0@.len() <= 2 * IMAGE_WIDTH
            * IMAGE_WIDTH,
{
    match decode_png(bytes) {
        Ok((width, height, pixels)) => {
            let ghost rgb = pixels@;
            let cover = rgb_cover(width, height, pixels);
            assert(is_cover_of(cover, width, height, rgb));
            cover
        },
        Err(_) => Err(CoverError::Undecodable),
    }
}

/// Makes the buffer for the display from the bytes of a cover of the
/// given kind.
pub fn cover_from(kind: ImageKind, bytes: &[u8]) -> (cover: Result<Vec<u8>, CoverError>)
    ensures
        is_cover_result(cover),
        kind == ImageKind::Png ==> is_png_cover(cover, bytes@),
        cover is Ok ==> cover->Ok_0@.len() % 2 == 0 && 2 <= cover->Ok_0@.len() <= 2 * IMAGE_WIDTH
            * IMAGE_WIDTH,
{
    match kind {
        ImageKind::Jpeg => jpeg_cover(bytes),
        ImageKind::Png => png_cover(bytes),
    }
}

} // verus!
