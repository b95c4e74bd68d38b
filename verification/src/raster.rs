//! What the drawing crates make of text and shapes, taken over as cells.
//!
//! Glyphs, circles, laid-out rows and text boxes are drawn by
//! `embedded-graphics`, `embedded-layout` and `embedded-text` on a canvas of
//! `embedded-canvas`. Each function here hands such a drawing back as a
//! [`Surface`], so that everything after it works on plain cells.
use crate::color::Color;
use crate::surface::{Surface, SurfaceView};
use embedded_canvas::Canvas;
use embedded_graphics::geometry::{Dimensions, Point, Size};
use embedded_graphics::image::{Image, ImageRawBE};
use embedded_graphics::mono_font::jis_x0201::{FONT_6X13, FONT_7X14};
use embedded_graphics::mono_font::{MonoTextStyle, MonoTextStyleBuilder};
use embedded_graphics::pixelcolor::raw::RawU16;
use embedded_graphics::pixelcolor::{IntoStorage, Rgb565};
use embedded_graphics::primitives::{Circle, Primitive, PrimitiveStyle, Rectangle};
use embedded_graphics::text::{Baseline, Text};
use embedded_graphics::Drawable;
use embedded_layout::align::{horizontal, vertical, Align};
use embedded_layout::layout::linear::LinearLayout;
use embedded_layout::object_chain::Chain;
use embedded_text::alignment::HorizontalAlignment;
use embedded_text::style::{HeightMode, TextBoxStyleBuilder, VerticalOverdraw};
use embedded_text::TextBox;
use vstd::prelude::*;

verus! {

/// The two fonts of the display.
#[derive(Clone, Copy, Debug, PartialEq, Eq, Structural)]
pub enum Font {
    /// Seven by fourteen pixels, for the title.
    Title,
    /// Six by thirteen pixels, for the artists.
    Artist,
}

impl Font {
    /// The width of every glyph.
    pub open spec fn glyph_width(self) -> nat {
        match self {
            Font::Title => 7,
            Font::Artist => 6,
        }
    }

    /// The height of a line.
    pub open spec fn line_height(self) -> nat {
        match self {
            Font::Title => 14,
            Font::Artist => 13,
        }
    }
}

/// The longest text that is drawn. The drawing crates count pixels in 32
/// bits; a text within this limit stays far below what they can count.
pub const MAX_TEXT_CHARS: usize = 4096;

/// The longest side of a surface that shapes are laid out on.
pub const MAX_SIDE: u32 = 4096;

/// The width and height of the box around a text in a font.
pub uninterp spec fn text_extent(font: Font, text: Seq<char>) -> (u32, u32);

/// The cells of a text drawn in a font and a colour, row by row, on a
/// canvas as large as the box around it.
pub uninterp spec fn text_cells(font: Font, text: Seq<char>, color: Color) -> Seq<Option<Color>>;

/// The column in the middle of so many columns; of an even number, the one
/// left of the middle.
pub open spec fn middle(width: nat) -> int {
    if width == 0 {
        0
    } else {
        (width - 1) / 2
    }
}

/// The colour word at a place of a buffer of big-endian colour words.
pub open spec fn image_word(image: Seq<u8>, place: int) -> Color {
    (image[2 * place] * 256 + image[2 * place + 1]) as Color
}

/// The cells of a canvas on which an image of big-endian colour words, of
/// the given width, was drawn at the top, centred between left and right.
/// The image has as many rows as the buffer holds in full; its middle
/// column lies on the middle column of the canvas, and what does not fall
/// on the canvas is left out.
pub open spec fn cover_cells(image: Seq<u8>, image_width: nat, width: nat, height: nat) -> Seq<
    Option<Color>,
> {
    let left = middle(width) - middle(image_width);
    let rows = image.len() / (2 * image_width);
    Seq::new(
        width * height,
        |i: int|
            {
                let x = i % (width as int);
                let y = i / (width as int);
                if left <= x < left + image_width && y < rows {
                    Some(image_word(image, y * image_width + (x - left)))
                } else {
                    None
                }
            },
    )
}

/// Whether a filled circle of the given diameter covers a pixel of the
/// square around it, counted from the top left corner of the square.
///
/// Distances are measured in half pixels from the middle of the square, so
/// that the middle of a square with an even side lies between two pixels.
/// A pixel is covered where the square of its distance stays below the
/// square of the diameter; up to a diameter of four the limit is lower by
/// half the diameter, which rounds the corners of the smallest circles.
pub open spec fn disc_covers(diameter: nat, x: int, y: int) -> bool {
    let across = 2 * x - (diameter - 1);
    let down = 2 * y - (diameter - 1);
    let limit: int = if diameter <= 4 {
        diameter * diameter - diameter / 2
    } else {
        (diameter * diameter) as int
    };
    across * across + down * down < limit
}

/// The place lies in the rectangle.
pub open spec fn in_box(x: int, y: int, left: int, top: int, width: nat, height: nat) -> bool {
    left <= x < left + width && top <= y < top + height
}

/// The cells of a canvas with a row of three shapes in its middle: a bar, a
/// disc and a second bar, each given as its length and its colour. The
/// shapes stand side by side without a gap, the row as a whole is centred
/// between left and right, and each shape is centred between top and
/// bottom.
pub open spec fn bar_cells(
    width: nat,
    height: nat,
    thickness: nat,
    played: (nat, Color),
    knob: (nat, Color),
    remaining: (nat, Color),
) -> Seq<Option<Color>> {
    let left = middle(width) - middle(played.0 + knob.0 + remaining.0);
    let bar_top = middle(height) - middle(thickness);
    let knob_top = middle(height) - middle(knob.0);
    let knob_left = left + played.0;
    Seq::new(
        width * height,
        |i: int|
            {
                let x = i % (width as int);
                let y = i / (width as int);
                if in_box(x, y, left, bar_top, played.0, thickness) {
                    Some(played.1)
                } else if in_box(x, y, knob_left, knob_top, knob.0, knob.0) && disc_covers(
                    knob.0,
                    x - knob_left,
                    y - knob_top,
                ) {
                    Some(knob.1)
                } else if in_box(x, y, knob_left + knob.0, bar_top, remaining.0, thickness) {
                    Some(remaining.1)
                } else {
                    None
                }
            },
    )
}

/// The cells of a canvas with a text box at its top: the text in the title
/// font on a background, each line centred.
pub uninterp spec fn notice_cells(
    text: Seq<char>,
    width: nat,
    height: nat,
    color: Color,
    background: Color,
) -> Seq<Option<Color>>;

/// A text without a line break.
pub open spec fn single_line(text: Seq<char>) -> bool {
    !text.contains('\n') && !text.contains('\r')
}

/// A text that takes one line of the title font on a surface of the given
/// size, and no more. A tab would be drawn wider than a glyph, so the text
/// holds none.
pub open spec fn fits_one_line(text: Seq<char>, width: nat, height: nat) -> bool {
    &&& single_line(text)
    &&& !text.contains('\t')
    &&& 0 < text.len()
    &&& Font::Title.glyph_width() * text.len() <= width
    &&& Font::Title.line_height() <= height
}

/// A colour of `embedded-graphics`.
#[verifier::external_type_specification]
#[verifier::external_body]
pub struct ExRgb565(Rgb565);

/// The canvas of `embedded-canvas`.
#[verifier::external_type_specification]
#[verifier::external_body]
#[verifier::reject_recursive_types(C)]
pub struct ExCanvas<C>(Canvas<C>);

/// The cells of a canvas, row by row, each as its colour word.
pub uninterp spec fn canvas_cells(canvas: Canvas<Rgb565>) -> Seq<Option<Color>>;

/// The width and height that a canvas was made with.
pub uninterp spec fn canvas_size(canvas: Canvas<Rgb565>) -> (nat, nat);

/// A canvas of empty cells.
pub open spec fn is_blank(canvas: Canvas<Rgb565>, width: nat, height: nat) -> bool {
    &&& canvas_size(canvas) == (width, height)
    &&& canvas_cells(canvas) == Seq::new(width * height, |i: int| None::<Color>)
}

/// `Canvas::new`: a canvas of the given size with one empty cell for each
/// place.
#[verifier::external_body]
fn blank_canvas(width: u32, height: u32) -> (canvas: Canvas<Rgb565>)
    requires
        width * height <= usize::MAX,
    ensures
        is_blank(canvas, width as nat, height as nat),
{
    Canvas::new(Size::new(width, height))
}

/// The field `pixels` of a canvas, each colour as the word it is stored in.
#[verifier::external_body]
fn into_cells(canvas: Canvas<Rgb565>) -> (cells: Vec<Option<Color>>)
    ensures
        cells@ == canvas_cells(canvas),
{
    canvas.pixels.iter().map(|cell| cell.map(|color| color.into_storage())).collect()
}

/// `Text::bounding_box` of `embedded-graphics`, for a text that starts at
/// the origin with its top on the first row, in a `MonoTextStyle` of the
/// font. The box is no wider than the glyphs of the text together and no
/// higher than its lines. A text of one line is exactly as wide as its
/// glyphs and one line high, and an empty text has no box.
#[verifier::external_body]
fn measure_text(font: Font, text: &str) -> (extent: (u32, u32))
    requires
        text@.len() <= MAX_TEXT_CHARS,
    ensures
        extent == text_extent(font, text@),
        extent.0 <= font.glyph_width() * text@.len(),
        extent.1 <= font.line_height() * (text@.len() + 1),
        single_line(text@) ==> extent.0 == font.glyph_width() * text@.len(),
        single_line(text@) && text@.len() > 0 ==> extent.1 == font.line_height(),
        text@.len() == 0 ==> extent.1 == 0,
{
    let face = match font {
        Font::Title => &FONT_7X14,
        Font::Artist => &FONT_6X13,
    };
    let style = MonoTextStyle::new(face, Rgb565::new(0, 0, 0));
    let size = Text::with_baseline(text, Point::zero(), style, Baseline::Top).bounding_box().size;
    (size.width, size.height)
}

/// `Text::draw` of `embedded-graphics` on an empty canvas as large as the
/// box around the text: the text starts at the origin with its top on the
/// first row, in a `MonoTextStyle` of the font and colour.
#[verifier::external_body]
fn draw_text(canvas: &mut Canvas<Rgb565>, font: Font, text: &str, color: Color)
    requires
        text@.len() <= MAX_TEXT_CHARS,
        is_blank(
            *old(canvas),
            text_extent(font, text@).0 as nat,
            text_extent(font, text@).1 as nat,
        ),
    ensures
        canvas_size(*final(canvas)) == canvas_size(*old(canvas)),
        canvas_cells(*final(canvas)) == text_cells(font, text@, color),
        canvas_cells(*final(canvas)).len() == canvas_cells(*old(canvas)).len(),
{
    let face = match font {
        Font::Title => &FONT_7X14,
        Font::Artist => &FONT_6X13,
    };
    let style = MonoTextStyle::new(face, Rgb565::from(RawU16::new(color)));
    Text::with_baseline(text, Point::zero(), style, Baseline::Top).draw(canvas).unwrap();
}

/// `Image::draw` of an `ImageRawBE` of the given width on an empty canvas:
/// the image is laid out by `LinearLayout::vertical` with
/// `horizontal::Center` and aligned to the top centre of the canvas. The
/// image takes its rows from the buffer, two bytes for each pixel with the
/// high byte first; the layout moves it sideways until the middle columns
/// of image and canvas agree; the canvas keeps the pixels that fall on it.
#[verifier::external_body]
fn draw_cover(canvas: &mut Canvas<Rgb565>, image: &[u8], image_width: u32)
    requires
        0 < image_width <= MAX_SIDE,
        image@.len() <= 0x2000_0000,
        canvas_size(*old(canvas)).0 <= MAX_SIDE,
        canvas_size(*old(canvas)).1 <= MAX_SIDE,
        is_blank(*old(canvas), canvas_size(*old(canvas)).0, canvas_size(*old(canvas)).1),
    ensures
        canvas_size(*final(canvas)) == canvas_size(*old(canvas)),
        canvas_cells(*final(canvas)) == cover_cells(
            image@,
            image_width as nat,
            canvas_size(*old(canvas)).0,
            canvas_size(*old(canvas)).1,
        ),
        canvas_cells(*final(canvas)).len() == canvas_cells(*old(canvas)).len(),
{
    let raw = ImageRawBE::<Rgb565>::new(image, image_width);
    LinearLayout::vertical(Chain::new(Image::new(&raw, Point::zero())))
        .with_alignment(horizontal::Center)
        .arrange()
        .align_to(&canvas.bounding_box(), horizontal::Center, vertical::Top)
        .draw(canvas)
        .unwrap();
}

/// `LinearLayout::horizontal` of a filled `Rectangle`, a filled `Circle` and
/// a second filled `Rectangle`, with `vertical::Center`, aligned to the
/// centre of an empty canvas and drawn on it. The layout puts each shape
/// right of the one before and centres each on the one before, then moves
/// the row until its middle lies on the middle of the canvas; a filled
/// rectangle covers all of its pixels, a filled circle those whose
/// distance from its middle, doubled and squared, is below the limit that
/// `Circle` has for its diameter; the canvas keeps the pixels that fall on
/// it.
#[verifier::external_body]
fn draw_bar(
    canvas: &mut Canvas<Rgb565>,
    thickness: u32,
    played: (u32, Color),
    knob: (u32, Color),
    remaining: (u32, Color),
)
    requires
        0 < thickness <= MAX_SIDE,
        0 < played.0 <= MAX_SIDE,
        0 < knob.0 <= MAX_SIDE,
        0 < remaining.0 <= MAX_SIDE,
        canvas_size(*old(canvas)).0 <= MAX_SIDE,
        canvas_size(*old(canvas)).1 <= MAX_SIDE,
        is_blank(*old(canvas), canvas_size(*old(canvas)).0, canvas_size(*old(canvas)).1),
    ensures
        canvas_size(*final(canvas)) == canvas_size(*old(canvas)),
        canvas_cells(*final(canvas)) == bar_cells(
            canvas_size(*old(canvas)).0,
            canvas_size(*old(canvas)).1,
            thickness as nat,
            (played.0 as nat, played.1),
            (knob.0 as nat, knob.1),
            (remaining.0 as nat, remaining.1),
        ),
        canvas_cells(*final(canvas)).len() == canvas_cells(*old(canvas)).len(),
{
    let fill = |color: Color| PrimitiveStyle::with_fill(Rgb565::from(RawU16::new(color)));
    let bar = |length: u32| Rectangle::new(Point::zero(), Size::new(length, thickness));
    let row = Chain::new(bar(played.0).into_styled(fill(played.1)))
        .append(Circle::new(Point::zero(), knob.0).into_styled(fill(knob.1)))
        .append(bar(remaining.0).into_styled(fill(remaining.1)));
    LinearLayout::horizontal(row)
        .with_alignment(vertical::Center)
        .arrange()
        .align_to(&canvas.bounding_box(), horizontal::Center, vertical::Center)
        .draw(canvas)
        .unwrap();
}

/// `TextBox::draw` of `embedded-text` on an empty canvas: a box over the
/// whole canvas, shrunk to its text, with centred lines in the title font
/// on a background, laid out by `LinearLayout::vertical` and aligned to the
/// top centre of the canvas. The text is one line that fits the canvas: the
/// box counts rows below its last line without a check, and a text that is
/// broken into three lines or more can take it there.
#[verifier::external_body]
fn draw_notice(canvas: &mut Canvas<Rgb565>, text: &str, color: Color, background: Color)
    requires
        fits_one_line(text@, canvas_size(*old(canvas)).0, canvas_size(*old(canvas)).1),
        canvas_size(*old(canvas)).0 <= MAX_SIDE,
        canvas_size(*old(canvas)).1 <= MAX_SIDE,
        is_blank(*old(canvas), canvas_size(*old(canvas)).0, canvas_size(*old(canvas)).1),
    ensures
        canvas_size(*final(canvas)) == canvas_size(*old(canvas)),
        canvas_cells(*final(canvas)) == notice_cells(
            text@,
            canvas_size(*old(canvas)).0,
            canvas_size(*old(canvas)).1,
            color,
            background,
        ),
        canvas_cells(*final(canvas)).len() == canvas_cells(*old(canvas)).len(),
{
    let frame = canvas.bounding_box();
    let ink = Rgb565::from(RawU16::new(color));
    let paper = Rgb565::from(RawU16::new(background));
    let style = MonoTextStyleBuilder::new().font(&FONT_7X14).text_color(ink).background_color(paper);
    let shape = TextBoxStyleBuilder::new()
        .height_mode(HeightMode::ShrinkToText(VerticalOverdraw::Hidden))
        .alignment(HorizontalAlignment::Center);
    let text_box = TextBox::with_textbox_style(text, frame, style.build(), shape.build());
    LinearLayout::vertical(Chain::new(text_box))
        .with_alignment(horizontal::Center)
        .arrange()
        .align_to(&frame, horizontal::Center, vertical::Top)
        .draw(canvas)
        .unwrap();
}

/// A text drawn in a font and a colour: a surface at the origin as large
/// as the box around the text.
pub open spec fn rendered_text(font: Font, text: Seq<char>, color: Color) -> SurfaceView {
    SurfaceView {
        width: text_extent(font, text).0 as nat,
        height: text_extent(font, text).1 as nat,
        left: 0,
        top: 0,
        cells: text_cells(font, text, color),
    }
}

/// A surface at the origin with the given cells.
pub open spec fn canvas_of(width: nat, height: nat, cells: Seq<Option<Color>>) -> SurfaceView {
    SurfaceView { width, height, left: 0, top: 0, cells }
}

/// The width and height of the box around a text in a font.
pub fn text_size(font: Font, text: &str) -> (extent: (u32, u32))
    requires
        text@.len() <= MAX_TEXT_CHARS,
    ensures
        extent == text_extent(font, text@),
        single_line(text@) ==> extent.0 == font.glyph_width() * text@.len(),
        single_line(text@) && text@.len() > 0 ==> extent.1 == font.line_height(),
        text@.len() == 0 ==> extent.1 == 0,
{
    measure_text(font, text)
}

/// Draws a text in a font and a colour on a surface of its own.
pub fn render_text(font: Font, text: &str, color: Color) -> (surface: Surface)
    requires
        text@.len() <= MAX_TEXT_CHARS,
    ensures
        surface@ == rendered_text(font, text@, color),
        surface@.wf(),
        single_line(text@) ==> surface@.width == font.glyph_width() * text@.len(),
        single_line(text@) && text@.len() > 0 ==> surface@.height == font.line_height(),
        text@.len() == 0 ==> surface@.height == 0,
{
    let (width, height) = measure_text(font, text);
    proof {
        assert(font.glyph_width() * text@.len() <= 7 * 4096) by (nonlinear_arith)
            requires
                font.glyph_width() <= 7,
                text@.len() <= 4096,
        ;
        assert(font.line_height() * (text@.len() + 1) <= 14 * 4097) by (nonlinear_arith)
            requires
                font.line_height() <= 14,
                text@.len() <= 4096,
        ;
        assert(width * height <= 28672 * 57358) by (nonlinear_arith)
            requires
                width <= 28672,
                height <= 57358,
        ;
    }
    let mut canvas = blank_canvas(width, height);
    draw_text(&mut canvas, font, text, color);
    Surface::from_cells(width, height, into_cells(canvas)).unwrap()
}

/// Draws an album cover of the given width at the top of a surface, centred
/// between left and right. The cover is a buffer of big-endian colour
/// words, row by row.
pub fn render_cover(image: &[u8], image_width: u32, width: u32, height: u32) -> (surface: Surface)
    requires
        0 < image_width <= MAX_SIDE,
        width <= MAX_SIDE,
        height <= MAX_SIDE,
        image@.len() <= 0x2000_0000,
    ensures
        surface@ == canvas_of(
            width as nat,
            height as nat,
            cover_cells(image@, image_width as nat, width as nat, height as nat),
        ),
        surface@.wf(),
{
    proof {
        lemma_side_fits(width, height);
    }
    let mut canvas = blank_canvas(width, height);
    draw_cover(&mut canvas, image, image_width);
    Surface::from_cells(width, height, into_cells(canvas)).unwrap()
}

/// Draws the row of the progress bar in the middle of a surface: the played
/// part, the knob and the remaining part, each with its length and colour.
pub fn render_bar(
    width: u32,
    height: u32,
    thickness: u32,
    played: (u32, Color),
    knob: (u32, Color),
    remaining: (u32, Color),
) -> (surface: Surface)
    requires
        width <= MAX_SIDE,
        height <= MAX_SIDE,
        0 < thickness <= MAX_SIDE,
        0 < played.0 <= MAX_SIDE,
        0 < knob.0 <= MAX_SIDE,
        0 < remaining.0 <= MAX_SIDE,
    ensures
        surface@ == canvas_of(
            width as nat,
            height as nat,
            bar_cells(
                width as nat,
                height as nat,
                thickness as nat,
                (played.0 as nat, played.1),
                (knob.0 as nat, knob.1),
                (remaining.0 as nat, remaining.1),
            ),
        ),
        surface@.wf(),
{
    proof {
        lemma_side_fits(width, height);
    }
    let mut canvas = blank_canvas(width, height);
    draw_bar(&mut canvas, thickness, played, knob, remaining);
    Surface::from_cells(width, height, into_cells(canvas)).unwrap()
}

/// Draws a notice at the top of a surface: one line of text in the title
/// font on a background, centred.
pub fn render_notice(text: &str, width: u32, height: u32, color: Color, background: Color) -> (surface:
    Surface)
    requires
        fits_one_line(text@, width as nat, height as nat),
        width <= MAX_SIDE,
        height <= MAX_SIDE,
    ensures
        surface@ == canvas_of(
            width as nat,
            height as nat,
            notice_cells(text@, width as nat, height as nat, color, background),
        ),
        surface@.wf(),
{
    proof {
        lemma_side_fits(width, height);
    }
    let mut canvas = blank_canvas(width, height);
    draw_notice(&mut canvas, text, color, background);
    Surface::from_cells(width, height, into_cells(canvas)).unwrap()
}

proof fn lemma_side_fits(width: u32, height: u32)
    requires
        width <= MAX_SIDE,
        height <= MAX_SIDE,
    ensures
        width * height <= 0x100_0000,
{
    assert(width * height <= 4096 * 4096) by (nonlinear_arith)
        requires
            width <= 4096,
            height <= 4096,
    ;
}

} // verus!
