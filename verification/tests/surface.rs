use embedded_canvas::Canvas;
use embedded_graphics::draw_target::DrawTarget;
use embedded_graphics::geometry::{Point, Size};
use embedded_graphics::pixelcolor::raw::RawU16;
use embedded_graphics::pixelcolor::{IntoStorage, Rgb565};
use embedded_graphics::primitives::Rectangle;
use embedded_graphics::Drawable;
use now_playing::surface::{draw_canvas_with_background, point_to_index, Surface};

fn numbered(width: u32, height: u32) -> Surface {
    let cells = (0..width * height).map(|i| Some(i as u16 + 1)).collect();
    Surface::from_cells(width, height, cells).unwrap()
}

#[test]
fn new_surface_is_empty_and_at_the_origin() {
    let surface = Surface::new(4, 3);
    assert_eq!((surface.width(), surface.height(), surface.left(), surface.top()), (4, 3, 0, 0));
    assert_eq!(surface.cells(), &vec![None; 12]);
    let nothing = Surface::new(0, 5);
    assert_eq!(nothing.cells().len(), 0);
}

#[test]
fn from_cells_wants_one_cell_for_each_place() {
    assert!(Surface::from_cells(2, 2, vec![None; 4]).is_some());
    assert!(Surface::from_cells(2, 2, vec![None; 3]).is_none());
    assert!(Surface::from_cells(2, 2, vec![None; 5]).is_none());
    assert!(Surface::from_cells(0, 7, Vec::new()).is_some());
}

#[test]
fn point_to_index_counts_from_the_corner() {
    assert_eq!(point_to_index(4, 3, 0, 0, 0, 0), Some(0));
    assert_eq!(point_to_index(4, 3, 0, 0, 3, 2), Some(11));
    assert_eq!(point_to_index(4, 3, 0, 0, 4, 0), None);
    assert_eq!(point_to_index(4, 3, 0, 0, 0, 3), None);
    assert_eq!(point_to_index(4, 3, 0, 0, -1, 0), None);
    assert_eq!(point_to_index(4, 3, 10, 20, 11, 21), Some(5));
    assert_eq!(point_to_index(4, 3, 10, 20, 9, 21), None);
    assert_eq!(point_to_index(4, 3, -2, -2, -1, -1), Some(5));
    assert_eq!(point_to_index(4, 3, i32::MIN, 0, i32::MAX, 0), None);
    assert_eq!(point_to_index(0, 0, 0, 0, 0, 0), None);
}

#[test]
fn get_pixel_reads_through_the_origin() {
    let surface = numbered(3, 2).place_at(5, -1);
    assert_eq!(surface.get_pixel(5, -1), Some(1));
    assert_eq!(surface.get_pixel(7, 0), Some(6));
    assert_eq!(surface.get_pixel(4, -1), None);
    assert_eq!(surface.get_pixel(8, 0), None);
    assert_eq!(surface.get_pixel(0, 0), None);
    assert_eq!(Surface::new(2, 2).get_pixel(1, 1), None);
}

#[test]
fn clear_fills_every_cell() {
    let mut surface = Surface::new(3, 2).place_at(4, 4);
    surface.clear(7);
    assert_eq!(surface.cells(), &vec![Some(7); 6]);
    assert_eq!((surface.left(), surface.top()), (4, 4));
}

#[test]
fn place_at_keeps_the_cells() {
    let surface = numbered(2, 2).place_at(-3, 9);
    assert_eq!((surface.left(), surface.top(), surface.width(), surface.height()), (-3, 9, 2, 2));
    assert_eq!(surface.cells(), &vec![Some(1), Some(2), Some(3), Some(4)]);
}

#[test]
fn crop_takes_the_cells_inside_the_rectangle() {
    let surface = numbered(4, 3);
    let part = surface.crop(1, 1, 2, 2).unwrap();
    assert_eq!((part.width(), part.height(), part.left(), part.top()), (2, 2, 0, 0));
    assert_eq!(part.cells(), &vec![Some(6), Some(7), Some(10), Some(11)]);
}

#[test]
fn crop_beyond_the_grid_leaves_empty_cells() {
    let surface = numbered(2, 2);
    let wide = surface.crop(0, 0, 3, 3).unwrap();
    assert_eq!(
        wide.cells(),
        &vec![Some(1), Some(2), None, Some(3), Some(4), None, None, None, None]
    );
    let outside = surface.crop(-1, -1, 2, 2).unwrap();
    assert_eq!(outside.cells(), &vec![None, None, None, Some(1)]);
    let far = surface.crop(10, 10, 2, 1).unwrap();
    assert_eq!(far.cells(), &vec![None, None]);
}

#[test]
fn crop_without_width_or_height_gives_nothing() {
    let surface = numbered(2, 2);
    assert!(surface.crop(0, 0, 0, 2).is_none());
    assert!(surface.crop(0, 0, 2, 0).is_none());
}

#[test]
fn crop_ignores_the_origin_of_the_surface() {
    let surface = numbered(3, 1).place_at(100, 100);
    let part = surface.crop(1, 0, 2, 1).unwrap();
    assert_eq!(part.cells(), &vec![Some(2), Some(3)]);
}

#[test]
fn draw_writes_only_filled_cells() {
    let mut canvas = Surface::new(4, 2);
    canvas.clear(9);
    let stamp = Surface::from_cells(2, 2, vec![Some(1), None, None, Some(4)]).unwrap();
    canvas.draw(&stamp.place_at(1, 0));
    assert_eq!(
        canvas.cells(),
        &vec![Some(9), Some(1), Some(9), Some(9), Some(9), Some(9), Some(4), Some(9)]
    );
}

#[test]
fn draw_drops_what_falls_outside() {
    let mut canvas = Surface::new(2, 2);
    canvas.draw(&numbered(3, 3).place_at(1, 1));
    assert_eq!(canvas.cells(), &vec![None, None, None, Some(1)]);
    let mut canvas = Surface::new(2, 2);
    canvas.draw(&numbered(3, 3).place_at(-2, -2));
    assert_eq!(canvas.cells(), &vec![Some(9), None, None, None]);
    let mut canvas = Surface::new(2, 2);
    canvas.draw(&numbered(3, 3).place_at(5, 0));
    assert_eq!(canvas.cells(), &vec![None; 4]);
}

#[test]
fn wrapped_turns_the_columns_round() {
    let surface = numbered(4, 2);
    let turned = surface.wrapped(1);
    assert_eq!(
        turned.cells(),
        &vec![Some(2), Some(3), Some(4), Some(1), Some(6), Some(7), Some(8), Some(5)]
    );
    let turned = surface.wrapped(3);
    assert_eq!(
        turned.cells(),
        &vec![Some(4), Some(1), Some(2), Some(3), Some(8), Some(5), Some(6), Some(7)]
    );
}

#[test]
fn wrapped_by_the_width_is_the_surface_itself() {
    let surface = numbered(4, 2);
    assert_eq!(surface.wrapped(0).cells(), surface.cells());
    assert_eq!(surface.wrapped(4).cells(), surface.cells());
    assert_eq!(surface.wrapped(9).cells(), surface.wrapped(1).cells());
    assert_eq!(surface.wrapped(u32::MAX).cells(), surface.wrapped(3).cells());
    assert_eq!(Surface::new(0, 3).wrapped(5).cells().len(), 0);
}

#[test]
fn wrapped_loses_no_cell() {
    let surface = numbered(5, 3);
    for shift in 0..12 {
        let mut cells: Vec<u16> =
            surface.wrapped(shift).cells().iter().map(|cell| cell.unwrap()).collect();
        cells.sort();
        assert_eq!(cells, (1..=15).collect::<Vec<u16>>());
    }
}

#[test]
fn wrapped_keeps_the_origin() {
    let turned = numbered(2, 1).place_at(3, 4).wrapped(1);
    assert_eq!((turned.left(), turned.top()), (3, 4));
}

#[test]
fn batch_shows_the_background_in_empty_cells() {
    let surface =
        Surface::from_cells(2, 2, vec![Some(5), None, None, Some(0)]).unwrap().place_at(7, 9);
    let blit = draw_canvas_with_background(&surface, 0xABCD);
    assert_eq!((blit.x, blit.y, blit.width, blit.height), (7, 9, 2, 2));
    assert_eq!(blit.colors, vec![5, 0xABCD, 0xABCD, 0]);
}

#[test]
fn batch_of_an_empty_surface_has_no_colours() {
    let blit = draw_canvas_with_background(&Surface::new(0, 0), 1);
    assert_eq!((blit.width, blit.height), (0, 0));
    assert!(blit.colors.is_empty());
}

/// A surface and a canvas of the canvas crate with the same cells: some
/// empty, the others numbered.
fn twins(width: u32, height: u32, seed: u32) -> (Surface, Canvas<Rgb565>) {
    let cells: Vec<Option<u16>> = (0..width * height)
        .map(|i| if (i + seed) % 3 == 0 { None } else { Some((i * 7 + seed) as u16) })
        .collect();
    let mut canvas = Canvas::<Rgb565>::new(Size::new(width, height));
    for (place, cell) in canvas.pixels.iter_mut().zip(cells.iter()) {
        *place = cell.map(|word| Rgb565::from(RawU16::new(word)));
    }
    (Surface::from_cells(width, height, cells).unwrap(), canvas)
}

fn words(canvas: &Canvas<Rgb565>) -> Vec<Option<u16>> {
    canvas.pixels.iter().map(|cell| cell.map(|color| color.into_storage())).collect()
}

#[test]
fn crop_agrees_with_the_canvas_crate() {
    let (surface, canvas) = twins(9, 6, 1);
    for (x, y, width, height) in [
        (0, 0, 9, 6), (2, 1, 4, 3), (0, 0, 20, 2), (5, 4, 10, 10), (-3, -2, 8, 5),
        (8, 5, 1, 1), (9, 0, 3, 3), (0, 6, 3, 3), (-5, -5, 4, 4), (3, 0, 1, 6), (0, 0, 0, 4), (0, 0, 4, 0),
    ] {
        let area = Rectangle::new(Point::new(x, y), Size::new(width, height));
        let expected = canvas.crop(&area);
        let cropped = surface.crop(x, y, width, height);
        assert_eq!(cropped.is_some(), expected.is_some(), "crop at {x},{y} of {width}x{height}");
        if let (Some(cropped), Some(expected)) = (cropped, expected) {
            assert_eq!((cropped.width(), cropped.height()), (width, height));
            assert_eq!(cropped.cells(), &words(&expected), "crop at {x},{y} of {width}x{height}");
        }
    }
}

#[test]
fn draw_agrees_with_the_canvas_crate() {
    for (x, y) in [(0, 0), (2, 1), (-2, -1), (7, 4), (8, 5), (9, 0), (0, -4), (-10, 0), (3, -3)] {
        let (mut surface, mut canvas) = twins(9, 6, 1);
        let (other, other_canvas) = twins(5, 4, 2);
        other_canvas.place_at(Point::new(x, y)).draw(&mut canvas).unwrap();
        surface.draw(&other.place_at(x, y));
        assert_eq!(surface.cells(), &words(&canvas), "drawn at {x},{y}");
    }
}

#[test]
fn clear_and_get_pixel_agree_with_the_canvas_crate() {
    let (mut surface, mut canvas) = twins(7, 5, 0);
    let placed = canvas.place_at(Point::new(3, -2));
    let moved = twins(7, 5, 0).0.place_at(3, -2);
    for y in -4..8 {
        for x in -2..12 {
            let expected = placed.get_pixel(Point::new(x, y)).map(|color| color.into_storage());
            assert_eq!(moved.get_pixel(x, y), expected, "at {x},{y}");
        }
    }
    canvas.clear(Rgb565::from(RawU16::new(0x1234))).unwrap();
    surface.clear(0x1234);
    assert_eq!(surface.cells(), &words(&canvas));
}
