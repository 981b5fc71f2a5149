use tattoy::plugin_protocol::Pixel;
use tattoy::surface::{Cell, Glyph, PixelSurface, SurfaceError};

/// A colour attribute: `None` is the terminal's default colour.
type Attr = Option<(f32, f32, f32, f32)>;

const WHITE: (f32, f32, f32, f32) = (1.0, 1.0, 1.0, 1.0);
const RED: (f32, f32, f32, f32) = (1.0, 0.0, 0.0, 1.0);
const GREY: (f32, f32, f32, f32) = (0.5, 0.5, 0.5, 1.0);

fn surface(width: usize, height: usize) -> PixelSurface<Attr> {
    PixelSurface::new(width, height, None)
}

fn cell(surface: &PixelSurface<Attr>, col: usize, row: usize) -> Cell<Attr> {
    surface.get_cell_at(col, row).unwrap()
}

fn message(error: SurfaceError) -> String {
    error.message().into_iter().collect()
}

#[test]
fn add_new_pixels() {
    let mut surface = surface(2, 2);

    let first = cell(&surface, 0, 0);
    assert_eq!(first.glyph, Glyph::Other);
    assert_eq!(first.fg, None);
    assert_eq!(first.bg, None);

    surface.add_pixel(0, 0, Some(WHITE)).unwrap();
    let first = cell(&surface, 0, 0);
    assert_eq!(first.glyph, Glyph::UpperHalf);
    assert_eq!(first.fg, Some(WHITE));
    assert_eq!(first.bg, None);

    surface.add_pixel(1, 0, Some(WHITE)).unwrap();
    assert_eq!(cell(&surface, 1, 0).glyph, Glyph::UpperHalf);

    surface.add_pixel(1, 2, Some(WHITE)).unwrap();
    assert_eq!(cell(&surface, 1, 1).glyph, Glyph::UpperHalf);

    surface.add_pixel(1, 3, Some(WHITE)).unwrap();
    assert_eq!(cell(&surface, 1, 1).glyph, Glyph::UpperHalf);

    let result = surface.add_pixel(1, 4, Some(WHITE)).unwrap_err();
    assert_eq!(message(result), "Tried to add pixel to row: 2");
}

#[test]
fn add_pixel_at_bottom_of_empty_cell() {
    let mut surface = surface(1, 1);

    surface.add_pixel(0, 1, Some(WHITE)).unwrap();
    let only = cell(&surface, 0, 0);
    assert_eq!(only.glyph, Glyph::LowerHalf);
    assert_eq!(only.fg, Some(WHITE));
    assert_eq!(only.bg, None);
}

#[test]
fn overwrite_pixel_at_bottom_of_empty_cell() {
    let mut surface = surface(1, 1);

    surface.add_pixel(0, 1, Some(RED)).unwrap();
    surface.add_pixel(0, 1, Some(WHITE)).unwrap();
    let only = cell(&surface, 0, 0);
    assert_eq!(only.glyph, Glyph::LowerHalf);
    assert_eq!(only.fg, Some(WHITE));
    assert_eq!(only.bg, None);
}

#[test]
fn convert_cell_from_bottom_to_full() {
    let mut surface = surface(1, 1);

    surface.add_pixel(0, 1, Some(WHITE)).unwrap();
    surface.add_pixel(0, 0, Some(RED)).unwrap();
    let only = cell(&surface, 0, 0);
    assert_eq!(only.glyph, Glyph::UpperHalf);
    assert_eq!(only.fg, Some(RED));
    assert_eq!(only.bg, Some(WHITE));
}

#[test]
fn add_pixels_on_or_near_other_pixels() {
    let mut surface = surface(2, 1);
    surface.add_pixel(0, 0, Some(WHITE)).unwrap();

    surface.add_pixel(0, 1, Some(GREY)).unwrap();
    let first = cell(&surface, 0, 0);
    assert_eq!(first.glyph, Glyph::UpperHalf);
    assert_eq!(first.fg, Some(WHITE));
    assert_eq!(first.bg, Some(GREY));

    surface.add_pixel(0, 0, Some(RED)).unwrap();
    let first = cell(&surface, 0, 0);
    assert_eq!(first.fg, Some(RED));
    assert_eq!(first.bg, Some(GREY));
}

#[test]
fn pixel_outside_the_columns_is_refused() {
    let mut surface = surface(2, 2);
    let error = surface.add_pixel(5, 0, Some(WHITE)).unwrap_err();
    assert_eq!(error, SurfaceError::Column(5));
    assert_eq!(message(error), "Tried to add pixel to column: 5");
    assert_eq!(cell(&surface, 0, 0).glyph, Glyph::Other);
}

#[test]
fn coordinates_of_pixels_are_cells() {
    let surface = surface(3, 2);
    assert_eq!(surface.coords_to_tty(2, 3), Ok((2, 1)));
    assert_eq!(surface.coords_to_tty(3, 0), Err(SurfaceError::Column(3)));
    assert_eq!(surface.coords_to_tty(0, 4), Err(SurfaceError::Row(2)));
    assert_eq!(surface.width(), 3);
    assert_eq!(surface.height(), 2);
    assert!(surface.get_cell_at(3, 0).is_none());
}

#[test]
fn upper_and_lower_pixels_keep_each_other() {
    let mut surface = surface(1, 1);
    surface.add_pixel(0, 0, Some(RED)).unwrap();
    surface.add_pixel(0, 1, Some(GREY)).unwrap();
    surface.add_pixel(0, 0, Some(WHITE)).unwrap();
    let only = cell(&surface, 0, 0);
    assert_eq!(only.glyph, Glyph::UpperHalf);
    assert_eq!(only.fg, Some(WHITE));
    assert_eq!(only.bg, Some(GREY));
}

#[test]
fn adding_a_pixel_twice_is_adding_it_once() {
    let mut once = surface(1, 1);
    once.add_pixel(0, 1, Some(RED)).unwrap();
    let mut twice = surface(1, 1);
    twice.add_pixel(0, 1, Some(RED)).unwrap();
    twice.add_pixel(0, 1, Some(RED)).unwrap();
    assert_eq!(cell(&once, 0, 0), cell(&twice, 0, 0));
}

#[test]
fn plugin_pixels_stop_at_the_first_one_outside() {
    let mut surface = surface(2, 1);
    let pixels = vec![
        Pixel { coordinates: (0, 0), color: Some(Some(RED)) },
        Pixel { coordinates: (1, 1), color: None },
        Pixel { coordinates: (0, 2), color: Some(Some(GREY)) },
        Pixel { coordinates: (1, 0), color: Some(Some(GREY)) },
    ];
    let result = surface.add_pixels(&pixels, Some(WHITE));
    assert_eq!(result, Err(SurfaceError::Row(1)));
    assert_eq!(cell(&surface, 0, 0).fg, Some(RED));
    let second = cell(&surface, 1, 0);
    assert_eq!(second.glyph, Glyph::LowerHalf);
    assert_eq!(second.fg, Some(WHITE));
}
