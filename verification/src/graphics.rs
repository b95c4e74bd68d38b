//! The regions of the screen: cover, title and artists, progress bar, and
//! the notice that nothing is playing.
//!
//! The screen is 128 pixels wide and 160 high. The cover takes the top 114
//! rows, the title the next 14, the artists 13 more, and the progress bar
//! the rest. Every function here draws one region on a fresh surface and
//! returns the batch that shows it; empty cells show black.
use crate::color::{packed565, rgb888_to_rgb565, Color, BLACK, WHITE};
use crate::katakana::{full_katakana_to_half_katakana, half_width};
use crate::raster::{
    bar_cells, canvas_of, cover_cells, disc_covers, image_word, in_box, notice_cells, render_bar,
    render_cover, render_notice, render_text, rendered_text, text_extent, text_size, Font,
    MAX_TEXT_CHARS,
};
use crate::surface::{
    draw_canvas_with_background, lemma_cell_in_range, lemma_cell_index, lemma_cropped_at,
    lemma_overlaid_at, lemma_wrapped_at, lemma_wrapped_full_turn, Blit, Surface, SurfaceView,
};
use crate::track::{Playing, SimpleArtist};
use vstd::prelude::*;
use vstd::string::{StrSliceExecFns, StringExecFns};

verus! {

/// Width of the display in pixels.
pub const SCREEN_WIDTH: u32 = 128;

/// Height of the display in pixels.
pub const SCREEN_HEIGHT: u32 = 160;

/// Side of the square album cover in pixels.
pub const IMAGE_WIDTH: u32 = 114;

/// Height of the title line.
pub const TITLE_HEIGHT: u32 = 14;

/// Height of the artist line.
pub const ARTIST_HEIGHT: u32 = 13;

/// Height of the two lines of text.
pub const TEXT_HEIGHT: u32 = 14 + 13;

/// The row where the progress bar begins.
pub const CURRENT_TRACK_HEIGHT: u32 = IMAGE_WIDTH + 14 + 13;

/// Room left free on either side of the progress bar.
pub const PADDING: u32 = 10;

/// Radius of the knob of the progress bar.
pub const CIRCLE_RADIUS: u32 = 4;

/// Thickness of the progress bar.
pub const THICKNESS: u32 = 3;

/// The longest cover buffer that is drawn.
pub const MAX_COVER_BYTES: usize = 0x2000_0000;

/// The green of the played part and of the knob.
pub open spec fn green() -> Color {
    packed565(0x1d, 0xb9, 0x54) as Color
}

/// The grey of the part still to play.
pub open spec fn grey() -> Color {
    packed565(160, 160, 160) as Color
}

/// The region of the cover: black, with the cover drawn at the top centre.
pub open spec fn cover_region(image: Seq<u8>) -> SurfaceView {
    SurfaceView::blank(128, 114).cleared(BLACK).overlaid(
        canvas_of(128, 114, cover_cells(image, 114, 128, 114)),
    )
}

/// How far the bar is filled: `bar_width * (progress + 1) / duration`,
/// rounded to the nearest whole pixel, halves upwards, and no more than the
/// bar is wide. The one second added lets the bar move at the start of each
/// second. A track without duration fills the bar.
pub open spec fn filled_width(bar_width: nat, progress: nat, duration: nat) -> nat {
    if duration == 0 {
        bar_width
    } else {
        let rounded = (2 * bar_width * (progress + 1) + duration) / (2 * duration);
        if rounded <= bar_width {
            rounded
        } else {
            bar_width
        }
    }
}

/// The length of the played part of the bar: what is filled, less the
/// radius of the knob.
pub open spec fn played_length(bar_width: nat, progress: nat, duration: nat) -> nat {
    let filled = filled_width(bar_width, progress, duration);
    if filled >= CIRCLE_RADIUS {
        (filled - CIRCLE_RADIUS) as nat
    } else {
        0
    }
}

/// The length of the part still to play: what the played part and the
/// radius of the knob leave of the bar.
pub open spec fn remaining_length(bar_width: nat, progress: nat, duration: nat) -> nat {
    let played = played_length(bar_width, progress, duration);
    if bar_width >= played + CIRCLE_RADIUS {
        (bar_width - played - CIRCLE_RADIUS) as nat
    } else {
        0
    }
}

/// A part of the bar as it is drawn: at least one pixel long, and black
/// where it has no length.
pub open spec fn drawn_part(length: nat, color: Color) -> (nat, Color) {
    if length == 0 {
        (1, BLACK)
    } else {
        (length, color)
    }
}

/// The region of the progress bar: black, with the played part, the knob
/// and the remaining part in a row in its middle.
pub open spec fn progress_region(progress: nat, duration: nat) -> SurfaceView {
    let bar_width = (SCREEN_WIDTH - 2 * PADDING) as nat;
    SurfaceView::blank(128, 19).cleared(BLACK).overlaid(
        canvas_of(
            128,
            19,
            bar_cells(
                128,
                19,
                THICKNESS as nat,
                drawn_part(played_length(bar_width, progress, duration), green()),
                ((2 * CIRCLE_RADIUS + 1) as nat, green()),
                drawn_part(remaining_length(bar_width, progress, duration), grey()),
            ),
        ),
    ).placed_at(0, CURRENT_TRACK_HEIGHT as int)
}

/// The screen that says that nothing is playing.
pub open spec fn no_song_region() -> SurfaceView {
    canvas_of(128, 160, notice_cells("Not Playing"@, 128, 160, WHITE, BLACK))
}

/// The batch of the cover, pixel by pixel: the cover takes the 114 columns
/// in the middle of the 128, as far down as its rows reach, and the rest is
/// black.
pub proof fn lemma_cover_pixel(image: Seq<u8>, x: int, y: int)
    requires
        0 <= x < 128,
        0 <= y < 114,
    ensures
        cover_region(image).composite(BLACK).colors.len() == 128 * 114,
        cover_region(image).composite(BLACK).colors[y * 128 + x] == if 7 <= x < 121 && y
            < image.len() / 228 {
            image_word(image, y * 114 + (x - 7))
        } else {
            BLACK
        },
{
    lemma_cell_index(128, x, y);
    lemma_cell_in_range(128, 114, x, y);
    let i = y * 128 + x;
    let drawn = canvas_of(128, 114, cover_cells(image, 114, 128, 114));
    assert(drawn.get(x, y) == drawn.cells[i]);
}

/// The batch of the progress bar, pixel by pixel. The bar begins seven
/// columns in and lies in the three rows in the middle of the region. The
/// played part is green; behind it comes the knob, a green disc nine
/// pixels across; the rest of the bar is grey. A part without length
/// leaves one black pixel in each of the three rows. All else is black.
pub proof fn lemma_progress_pixel(progress: nat, duration: nat, x: int, y: int)
    requires
        0 <= x < 128,
        0 <= y < 19,
    ensures
        progress_region(progress, duration).composite(BLACK).colors.len() == 128 * 19,
        progress_region(progress, duration).composite(BLACK).colors[y * 128 + x] == ({
            let played = played_length(108, progress, duration);
            let remaining = remaining_length(108, progress, duration);
            let knob_left = 7 + if played == 0 {
                1
            } else {
                played as int
            };
            if played > 0 && in_box(x, y, 7, 8, played, 3) {
                green()
            } else if in_box(x, y, knob_left, 5, 9, 9) && disc_covers(9, x - knob_left, y - 5) {
                green()
            } else if remaining > 0 && in_box(x, y, knob_left + 9, 8, remaining, 3) {
                grey()
            } else {
                BLACK
            }
        }),
{
    lemma_cell_index(128, x, y);
    lemma_cell_in_range(128, 19, x, y);
    lemma_bar_fills_steadily(108, progress, progress, duration);
    let i = y * 128 + x;
    let drawn = canvas_of(
        128,
        19,
        bar_cells(
            128,
            19,
            3,
            drawn_part(played_length(108, progress, duration), green()),
            (9, green()),
            drawn_part(remaining_length(108, progress, duration), grey()),
        ),
    );
    assert(drawn.get(x, y) == drawn.cells[i]);
}

/// In the last second of a track the bar is full.
pub proof fn lemma_last_second_fills_the_bar(bar_width: nat, duration: nat)
    requires
        duration > 0,
    ensures
        filled_width(bar_width, (duration - 1) as nat, duration) == bar_width,
{
    assert((2 * bar_width * duration + duration) / (2 * duration) == bar_width)
        by (nonlinear_arith)
        requires
            duration > 0,
    ;
    assert(2 * bar_width * (((duration - 1) as nat) + 1) == 2 * bar_width * duration)
        by (nonlinear_arith)
        requires
            duration > 0,
    ;
}

/// The bar is never filled beyond its width, and it fills as time passes.
pub proof fn lemma_bar_fills_steadily(bar_width: nat, earlier: nat, later: nat, duration: nat)
    requires
        earlier <= later,
    ensures
        filled_width(bar_width, earlier, duration) <= filled_width(bar_width, later, duration),
        filled_width(bar_width, later, duration) <= bar_width,
{
    if duration > 0 {
        assert(2 * bar_width * (earlier + 1) + duration <= 2 * bar_width * (later + 1) + duration)
            by (nonlinear_arith)
            requires
                earlier <= later,
        ;
        assert((2 * bar_width * (earlier + 1) + duration) / (2 * duration) <= (2 * bar_width * (
            later + 1) + duration) / (2 * duration)) by (nonlinear_arith)
            requires
                duration > 0,
                2 * bar_width * (earlier + 1) + duration <= 2 * bar_width * (later + 1)
                    + duration,
        ;
    }
}

/// Draws the cover, or an empty region of the same size where there is
/// none. The cover is a buffer of big-endian colour words, 114 to a row.
pub fn draw_album_cover(image: Option<&[u8]>) -> (blit: Blit)
    requires
        image is Some ==> image->Some_0@.len() <= MAX_COVER_BYTES,
    ensures
        blit@ == cover_region(
            match image {
                Some(bytes) => bytes@,
                None => Seq::<u8>::empty(),
            },
        ).composite(BLACK),
        blit@.fills(0, 0, 128, 114),
{
    let none: Vec<u8> = Vec::new();
    let bytes: &[u8] = match image {
        Some(bytes) => bytes,
        None => none.as_slice(),
    };
    let mut canvas = Surface::new(SCREEN_WIDTH, IMAGE_WIDTH);
    canvas.clear(BLACK);
    let cover = render_cover(bytes, IMAGE_WIDTH, SCREEN_WIDTH, IMAGE_WIDTH);
    canvas.draw(&cover);
    draw_canvas_with_background(&canvas, BLACK)
}

/// How far a bar of the given width is filled after `progress_secs` of
/// `duration` seconds.
pub fn progress_width(bar_width: u32, progress_secs: u32, duration: u32) -> (filled: u32)
    ensures
        filled == filled_width(bar_width as nat, progress_secs as nat, duration as nat),
        filled <= bar_width,
{
    if duration == 0 {
        return bar_width;
    }
    let seconds: u128 = progress_secs as u128 + 1;
    let twice: u128 = 2 * (bar_width as u128);
    assert(twice * seconds <= 0x1_FFFF_FFFE * 0x1_0000_0000) by (nonlinear_arith)
        requires
            twice <= 0x1_FFFF_FFFE,
            seconds <= 0x1_0000_0000,
    ;
    assert(2 * bar_width * (progress_secs + 1) == twice * seconds) by (nonlinear_arith)
        requires
            twice == 2 * bar_width,
            seconds == progress_secs + 1,
    ;
    let rounded: u128 = (twice * seconds + duration as u128) / (2 * (duration as u128));
    if rounded <= bar_width as u128 {
        rounded as u32
    } else {
        bar_width
    }
}

/// Draws the progress bar for a track of `duration` seconds of which
/// `progress_secs` have passed.
pub fn draw_current_progress(progress_secs: u32, duration: u32) -> (blit: Blit)
    ensures
        blit@ == progress_region(progress_secs as nat, duration as nat).composite(BLACK),
        blit@.fills(0, 141, 128, 19),
{
    let bar_width: u32 = SCREEN_WIDTH - PADDING * 2;
    let filled: u32 = progress_width(bar_width, progress_secs, duration);
    let played: u32 = filled.saturating_sub(CIRCLE_RADIUS);
    let remaining: u32 = bar_width.saturating_sub(played).saturating_sub(CIRCLE_RADIUS);
    let green: Color = rgb888_to_rgb565(0x1d, 0xb9, 0x54);
    let grey: Color = rgb888_to_rgb565(160, 160, 160);
    let played_part: (u32, Color) = if played != 0 {
        (played, green)
    } else {
        (1, BLACK)
    };
    let remaining_part: (u32, Color) = if remaining != 0 {
        (remaining, grey)
    } else {
        (1, BLACK)
    };
    let mut canvas = Surface::new(SCREEN_WIDTH, SCREEN_HEIGHT - CURRENT_TRACK_HEIGHT);
    canvas.clear(BLACK);
    let row = render_bar(
        SCREEN_WIDTH,
        SCREEN_HEIGHT - CURRENT_TRACK_HEIGHT,
        THICKNESS,
        played_part,
        (CIRCLE_RADIUS * 2 + 1, green),
        remaining_part,
    );
    canvas.draw(&row);
    let canvas = canvas.place_at(0, CURRENT_TRACK_HEIGHT as i32);
    draw_canvas_with_background(&canvas, BLACK)
}

/// Draws the screen that says that nothing is playing. The batch covers
/// the whole display, so that nothing of what was shown before is left.
pub fn draw_no_song() -> (blit: Blit)
    ensures
        blit@ == no_song_region().composite(BLACK),
        blit@.fills(0, 0, 128, 160),
{
    proof {
        reveal_strlit("Not Playing");
        assert(!"Not Playing"@.contains('\n')) by {
            if "Not Playing"@.contains('\n') {
                let i = choose|i: int| 0 <= i < 11 && "Not Playing"@[i] == '\n';
                assert("Not Playing"@[i] != '\n');
            }
        }
        assert(!"Not Playing"@.contains('\r')) by {
            if "Not Playing"@.contains('\r') {
                let i = choose|i: int| 0 <= i < 11 && "Not Playing"@[i] == '\r';
                assert("Not Playing"@[i] != '\r');
            }
        }
        assert(!"Not Playing"@.contains('\t')) by {
            if "Not Playing"@.contains('\t') {
                let i = choose|i: int| 0 <= i < 11 && "Not Playing"@[i] == '\t';
                assert("Not Playing"@[i] != '\t');
            }
        }
    }
    let canvas = render_notice("Not Playing", SCREEN_WIDTH, SCREEN_HEIGHT, WHITE, BLACK);
    draw_canvas_with_background(&canvas, BLACK)
}

/// A text joined from `names`, with a comma and a blank between neighbours.
pub open spec fn joined(names: Seq<Seq<char>>) -> Seq<char>
    decreases names.len(),
{
    if names.len() == 0 {
        Seq::empty()
    } else if names.len() == 1 {
        names[0]
    } else {
        joined(names.drop_last()) + seq![',', ' '] + names.last()
    }
}

/// The names of the artists as they are shown.
pub open spec fn artist_names(artists: Seq<SimpleArtist>) -> Seq<Seq<char>> {
    artists.map_values(|artist: SimpleArtist| half_width(artist.name@))
}

/// The title as it is shown.
pub open spec fn title_text(playing: Playing) -> Seq<char> {
    half_width(playing.playing.name@)
}

/// The line of the artists as it is shown: their names, joined.
pub open spec fn artist_text(playing: Playing) -> Seq<char> {
    joined(artist_names(playing.playing.artists@))
}

/// The number of characters of the line of the artists.
pub open spec fn joined_length(artists: Seq<SimpleArtist>) -> nat
    decreases artists.len(),
{
    if artists.len() == 0 {
        0
    } else if artists.len() == 1 {
        artists[0].name@.len()
    } else {
        joined_length(artists.drop_last()) + 2 + artists.last().name@.len()
    }
}

/// The title and the line of the artists are short enough to be drawn, two
/// blanks included.
pub open spec fn drawable(playing: Playing) -> bool {
    &&& playing.playing.name@.len() + 2 <= MAX_TEXT_CHARS
    &&& joined_length(playing.playing.artists@) + 2 <= MAX_TEXT_CHARS
}

/// A text is too wide for its line and has to scroll.
pub open spec fn overflows(font: Font, text: Seq<char>) -> bool {
    text_extent(font, text).0 > SCREEN_WIDTH - 4
}

/// A text with the two blanks that part its end from its beginning while
/// it scrolls.
pub open spec fn padded(text: Seq<char>) -> Seq<char> {
    text + seq![' ', ' ']
}

/// The width of a scrolling text: after as many steps it is back where it
/// began.
pub open spec fn cycle_width(font: Font, text: Seq<char>) -> nat {
    text_extent(font, padded(text)).0 as nat
}

/// A rendered line turned by `shift` columns. A shift of nothing, or of
/// the whole width and more, leaves the line as it is.
pub open spec fn scrolled(rendered: SurfaceView, shift: nat) -> SurfaceView {
    if 0 < shift < rendered.width {
        rendered.wrapped(shift)
    } else {
        rendered
    }
}

/// The shift that a line of the given width keeps: a shift that has
/// reached the width has come round and is nothing again.
pub open spec fn wrapped_shift(width: nat, shift: nat) -> nat {
    if shift < width {
        shift
    } else {
        0
    }
}

/// The shift of a line of the given width after one more step.
pub open spec fn advanced(width: nat, shift: nat) -> nat {
    wrapped_shift(width, shift + 1)
}

/// The shift of a line of the given width after so many steps from rest.
pub open spec fn shift_after(width: nat, steps: nat) -> nat
    decreases steps,
{
    if steps == 0 {
        0
    } else {
        advanced(width, shift_after(width, (steps - 1) as nat))
    }
}

/// A step never takes the shift of a line to its width or beyond.
pub proof fn lemma_shift_stays_in_range(width: nat, shift: nat)
    requires
        width > 0,
    ensures
        advanced(width, shift) < width,
        advanced(width, shift) == 0 || advanced(width, shift) == shift + 1,
{
}

/// From rest, the shift of a line counts its steps until it has made as
/// many as the line is wide; with that step, and not before, it is back
/// at rest.
pub proof fn lemma_shift_comes_round(width: nat, steps: nat)
    requires
        width > 0,
        steps <= width,
    ensures
        shift_after(width, steps) == if steps == width {
            0
        } else {
            steps
        },
    decreases steps,
{
    if steps > 0 {
        lemma_shift_comes_round(width, (steps - 1) as nat);
    }
}

/// A line of text as it is drawn at a shift: as it is where it fits, and
/// with two blanks behind it and turned by the shift where it does not.
pub open spec fn field(font: Font, text: Seq<char>, shift: nat) -> SurfaceView {
    if overflows(font, text) {
        scrolled(rendered_text(font, padded(text), WHITE), shift)
    } else {
        rendered_text(font, text, WHITE)
    }
}

/// The shift that a line of text keeps after it was drawn: nothing for a
/// text that fits, and nothing again for one that has come round.
pub open spec fn settled(font: Font, text: Seq<char>, shift: nat) -> nat {
    if overflows(font, text) {
        wrapped_shift(cycle_width(font, text), shift)
    } else {
        0
    }
}

/// The region of the text, made of the line of the title and the line of
/// the artists: each is cut to the width of the screen less two and set
/// two pixels in from the left, the artists below the title.
pub open spec fn text_region(title: SurfaceView, artists: SurfaceView) -> SurfaceView {
    SurfaceView::blank((SCREEN_WIDTH - 4) as nat, TEXT_HEIGHT as nat).overlaid(
        title.cropped(0, 0, (SCREEN_WIDTH - 2) as nat, TITLE_HEIGHT as nat).placed_at(2, 0),
    ).overlaid(
        artists.cropped(0, 0, (SCREEN_WIDTH - 2) as nat, ARTIST_HEIGHT as nat).placed_at(
            2,
            TITLE_HEIGHT as int,
        ),
    ).placed_at(0, IMAGE_WIDTH as int)
}

/// The region of the text for a track at the given shifts.
pub open spec fn name_and_artist_region(
    playing: Playing,
    title_shift: nat,
    composer_shift: nat,
) -> SurfaceView {
    text_region(
        field(Font::Title, title_text(playing), title_shift),
        field(Font::Artist, artist_text(playing), composer_shift),
    )
}

/// A scrolled line, cell by cell: column `x` shows the column of the
/// rendered line that lies `shift` columns further on, counted round the
/// width of the line.
pub proof fn lemma_scrolled_at(rendered: SurfaceView, shift: nat, x: int, y: int)
    requires
        rendered.wf(),
        rendered.covers(x, y),
    ensures
        scrolled(rendered, shift).at(x, y) == rendered.at(
            (x + wrapped_shift(rendered.width, shift)) % (rendered.width as int),
            y,
        ),
{
    lemma_wrapped_at(rendered, shift, x, y);
    lemma_wrapped_at(rendered, 0, x, y);
    lemma_wrapped_full_turn(rendered);
}

/// The region of the text, cell by cell: the first two columns are empty;
/// from the third on, the upper 14 rows show the line of the title from
/// its first column, and the 13 rows below show the line of the artists.
/// So 122 columns of each line are seen.
pub proof fn lemma_text_region_at(title: SurfaceView, artists: SurfaceView, x: int, y: int)
    requires
        0 <= x < 124,
        0 <= y < 27,
    ensures
        text_region(title, artists).wf(),
        text_region(title, artists).at(x, y) == if x < 2 {
            None
        } else if y < 14 {
            title.at(x - 2, y)
        } else {
            artists.at(x - 2, y - 14)
        },
{
    let upper = title.cropped(0, 0, 126, 14).placed_at(2, 0);
    let lower = artists.cropped(0, 0, 126, 13).placed_at(2, 14);
    let blank = SurfaceView::blank(124, 27);
    lemma_cropped_at(title, 0, 0, 126, 14, x - 2, y);
    lemma_cropped_at(artists, 0, 0, 126, 13, x - 2, y - 14);
    lemma_overlaid_at(blank, upper, x, y);
    lemma_overlaid_at(blank.overlaid(upper), lower, x, y);
    lemma_cell_index(124, x, y);
    lemma_cell_in_range(124, 27, x, y);
}

proof fn lemma_joined_push(names: Seq<Seq<char>>, last: Seq<char>)
    ensures
        joined(names.push(last)) == if names.len() == 0 {
            last
        } else {
            joined(names) + seq![',', ' '] + last
        },
{
    assert(names.push(last).drop_last() =~= names);
    assert(names.push(last).last() == last);
    if names.len() == 0 {
        assert(names.push(last).len() == 1);
        assert(names.push(last)[0] == last);
    }
}

proof fn lemma_joined_length_push(artists: Seq<SimpleArtist>, last: SimpleArtist)
    ensures
        joined_length(artists.push(last)) == if artists.len() == 0 {
            last.name@.len()
        } else {
            joined_length(artists) + 2 + last.name@.len()
        },
{
    assert(artists.push(last).drop_last() =~= artists);
    assert(artists.push(last).last() == last);
    if artists.len() == 0 {
        assert(artists.push(last)[0] == last);
    }
}

/// The line of the artists: their names in half-width katakana, with a
/// comma and a blank between neighbours.
pub fn artists_line(artists: &Vec<SimpleArtist>) -> (line: String)
    ensures
        line@ == joined(artist_names(artists@)),
        line@.len() == joined_length(artists@),
{
    let mut line = String::new();
    let mut i: usize = 0;
    proof {
        reveal_strlit(", ");
        assert(artists@.take(0) =~= Seq::<SimpleArtist>::empty());
        assert(artist_names(artists@.take(0)) =~= Seq::<Seq<char>>::empty());
    }
    while i < artists.len()
        invariant
            i <= artists.len(),
            ", "@ == seq![',', ' '],
            line@ == joined(artist_names(artists@.take(i as int))),
            line@.len() == joined_length(artists@.take(i as int)),
        decreases artists.len() - i,
    {
        let name = full_katakana_to_half_katakana(artists[i].name.as_str());
        proof {
            let before = artists@.take(i as int);
            assert(artists@.take(i + 1) =~= before.push(artists@[i as int]));
            assert(artist_names(before.push(artists@[i as int])) =~= artist_names(before).push(
                name@,
            ));
            lemma_joined_push(artist_names(before), name@);
            lemma_joined_length_push(before, artists@[i as int]);
        }
        if i > 0 {
            line.append(", ");
        }
        line.append(name.as_str());
        i += 1;
    }
    proof {
        assert(artists@.take(i as int) =~= artists@);
    }
    line
}

/// Whether the title and the artists of a track are short enough to be
/// drawn.
pub fn is_drawable(playing: &Playing) -> (fits: bool)
    ensures
        fits == drawable(*playing),
{
    if playing.playing.name.as_str().unicode_len() > MAX_TEXT_CHARS - 2 {
        return false;
    }
    let artists = &playing.playing.artists;
    let mut total: usize = 0;
    let mut i: usize = 0;
    proof {
        assert(artists@.take(0) =~= Seq::<SimpleArtist>::empty());
    }
    while i < artists.len()
        invariant
            i <= artists.len(),
            artists@ == playing.playing.artists@,
            playing.playing.name@.len() + 2 <= MAX_TEXT_CHARS,
            total == joined_length(artists@.take(i as int)),
            total <= MAX_TEXT_CHARS - 2,
        decreases artists.len() - i,
    {
        let length: usize = artists[i].name.as_str().unicode_len();
        let gap: usize = if i > 0 {
            2
        } else {
            0
        };
        proof {
            let before = artists@.take(i as int);
            assert(artists@.take(i + 1) =~= before.push(artists@[i as int]));
            lemma_joined_length_push(before, artists@[i as int]);
            lemma_joined_length_grows(artists@, i + 1);
            assert(joined_length(artists@.take(i + 1)) == total + gap + length);
        }
        if length > MAX_TEXT_CHARS - 2 - gap || total > MAX_TEXT_CHARS - 2 - gap - length {
            return false;
        }
        total = total + gap + length;
        i += 1;
    }
    proof {
        assert(artists@.take(i as int) =~= artists@);
    }
    true
}

/// The line of the artists is at least as long as any beginning of it.
proof fn lemma_joined_length_grows(artists: Seq<SimpleArtist>, n: int)
    requires
        0 <= n <= artists.len(),
    ensures
        joined_length(artists.take(n)) <= joined_length(artists),
    decreases artists.len() - n,
{
    if n == artists.len() {
        assert(artists.take(n) =~= artists);
    } else {
        lemma_joined_length_grows(artists, n + 1);
        assert(artists.take(n + 1) =~= artists.take(n).push(artists[n]));
        lemma_joined_length_push(artists.take(n), artists[n]);
    }
}

/// Whether a text is too wide for its line.
pub fn needs_scroll(font: Font, text: &str) -> (wide: bool)
    requires
        text@.len() <= MAX_TEXT_CHARS,
    ensures
        wide == overflows(font, text@),
{
    text_size(font, text).0 > SCREEN_WIDTH - 4
}

/// Turns a rendered line by a shift and says what shift it keeps: a shift
/// that has reached the width of the line has come round and is cleared.
pub fn scroll_field(rendered: Surface, shift: u32) -> (out: (Surface, u32))
    ensures
        out.0@ == scrolled(rendered@, shift as nat),
        out.1 == wrapped_shift(rendered@.width, shift as nat),
        out.1 < u32::MAX,
{
    if shift < rendered.width() {
        if shift != 0 {
            (rendered.wrapped(shift), shift)
        } else {
            (rendered, shift)
        }
    } else {
        (rendered, 0)
    }
}

/// Draws one line of text at a shift and says what shift it keeps. A text
/// that fits is drawn as it is and keeps no shift. A text that is too wide
/// gets two blanks behind it and is turned by the shift.
pub fn render_field(font: Font, text: String, shift: u32) -> (out: (Surface, u32))
    requires
        text@.len() + 2 <= MAX_TEXT_CHARS,
    ensures
        out.0@ == field(font, text@, shift as nat),
        out.1 == settled(font, text@, shift as nat),
        out.1 < u32::MAX,
{
    let plain = render_text(font, text.as_str(), WHITE);
    if plain.width() > SCREEN_WIDTH - 4 {
        proof {
            reveal_strlit("  ");
            assert("  "@ =~= seq![' ', ' ']);
        }
        let wide = text.concat("  ");
        scroll_field(render_text(font, wide.as_str(), WHITE), shift)
    } else {
        (plain, 0)
    }
}

/// Puts the line of the title and the line of the artists together into
/// the region of the text.
pub fn compose_text_region(title: &Surface, artists: &Surface) -> (blit: Blit)
    ensures
        blit@ == text_region(title@, artists@).composite(BLACK),
        blit@.fills(0, 114, 124, 27),
{
    let mut canvas = Surface::new(SCREEN_WIDTH - 4, TEXT_HEIGHT);
    let title_line = title.crop(0, 0, SCREEN_WIDTH - 2, TITLE_HEIGHT).unwrap().place_at(2, 0);
    canvas.draw(&title_line);
    let artist_line = artists.crop(0, 0, SCREEN_WIDTH - 2, ARTIST_HEIGHT).unwrap().place_at(
        2,
        TITLE_HEIGHT as i32,
    );
    canvas.draw(&artist_line);
    let canvas = canvas.place_at(0, IMAGE_WIDTH as i32);
    draw_canvas_with_background(&canvas, BLACK)
}

/// Draws the title and the artists of a track. A line that is too wide is
/// turned by its shift; a shift that has come round, and the shift of a
/// line that fits, are cleared.
pub fn draw_current_name_and_artist(
    playing: &Playing,
    title_shift: &mut u32,
    composer_shift: &mut u32,
) -> (blit: Blit)
    requires
        drawable(*playing),
    ensures
        blit@ == name_and_artist_region(
            *playing,
            *old(title_shift) as nat,
            *old(composer_shift) as nat,
        ).composite(BLACK),
        blit@.fills(0, 114, 124, 27),
        *final(title_shift) == settled(Font::Title, title_text(*playing), *old(title_shift) as nat),
        *final(composer_shift) == settled(
            Font::Artist,
            artist_text(*playing),
            *old(composer_shift) as nat,
        ),
        *final(title_shift) < u32::MAX,
        *final(composer_shift) < u32::MAX,
{
    let name = full_katakana_to_half_katakana(playing.playing.name.as_str());
    let composer = artists_line(&playing.playing.artists);
    let (title_line, title_kept) = render_field(Font::Title, name, *title_shift);
    let (composer_line, composer_kept) = render_field(Font::Artist, composer, *composer_shift);
    *title_shift = title_kept;
    *composer_shift = composer_kept;
    compose_text_region(&title_line, &composer_line)
}

} // verus!
