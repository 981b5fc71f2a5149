//! Learning the true colour values of the terminal's palette.
//!
//! The terminal's default colours are only known by their palette index, which gives no colour
//! value to do colour maths with. So Tattoy prints its palette in a QR Code-like grid, takes a
//! screenshot and parses the grid back into true colour values.
//!
//! The screenshot reaches this module as its pixels in row-major order.
use crate::ansi::{decimal, push_chars, push_decimal};
use crate::util::string_chars;
use vstd::prelude::*;

pub mod parser;
pub mod saved;
pub mod state_machine;

verus! {

/// A single RGBA pixel of a screenshot.
pub type Pixel = (u8, u8, u8, u8);

/// A single true colour value of the palette.
pub type PaletteColour = (u8, u8, u8);

/// The number of palette colours in each row of the printed grid.
pub const PALETTE_ROW_SIZE: u8 = 16;

/// The number of colours in a terminal palette.
pub const PALETTE_SIZE: usize = 256;

/// A pure blue that follows every row start marker, to avoid false positives.
pub open spec fn pure_blue() -> Pixel {
    (0u8, 0u8, 255u8, 255u8)
}

/// The pure(ish) red that marks the start of palette row `row`: its green channel is the row.
pub open spec fn redish(row: int) -> Pixel {
    (255u8, row as u8, 0u8, 255u8)
}

/// The colour part of a pixel.
pub open spec fn rgb(p: Pixel) -> PaletteColour {
    (p.0, p.1, p.2)
}

/// The pixel that shows a palette colour in a screenshot.
pub open spec fn colour_pixel(c: PaletteColour) -> Pixel {
    (c.0, c.1, c.2, 255u8)
}

/// A block of `w` pixels of the same colour: one printed cell, `w` pixels wide.
pub open spec fn block(p: Pixel, w: nat) -> Seq<Pixel> {
    Seq::new(w, |i: int| p)
}

/// The blocks of `count` consecutive palette colours, starting at palette index `start`.
pub open spec fn colour_blocks(colours: Seq<PaletteColour>, start: int, count: nat, w: nat) -> Seq<Pixel>
    decreases count,
{
    if count == 0 {
        Seq::empty()
    } else {
        colour_blocks(colours, start, (count - 1) as nat, w) + block(
            colour_pixel(colours[start + count - 1]),
            w,
        )
    }
}

/// One pixel row of the printed palette grid for palette row `row`: its red marker, the pure
/// blue, its 16 colours, then a cell of the border `sep`.
pub open spec fn row_pixels(colours: Seq<PaletteColour>, row: int, w: nat, sep: Pixel) -> Seq<Pixel> {
    block(redish(row), w) + block(pure_blue(), w) + colour_blocks(colours, 16 * row, 16, w) + block(
        sep,
        w,
    )
}

/// The pixel rows of the first `rows` palette rows of the grid, top to bottom.
pub open spec fn grid_pixels(colours: Seq<PaletteColour>, rows: nat, w: nat, sep: Pixel) -> Seq<Pixel>
    decreases rows,
{
    if rows == 0 {
        Seq::empty()
    } else {
        grid_pixels(colours, (rows - 1) as nat, w, sep) + row_pixels(colours, rows - 1, w, sep)
    }
}

/// A screenshot of the whole printed palette grid, each cell `w` pixels wide.
pub open spec fn screenshot_of(colours: Seq<PaletteColour>, w: nat, sep: Pixel) -> Seq<Pixel> {
    grid_pixels(colours, 16, w, sep)
}

/// Why a screenshot could not be parsed into a palette.
#[derive(Debug, Clone, Copy, PartialEq, Eq)]
pub enum PaletteParseError {
    /// The pixels ran out before all colours of the palette were found.
    Incomplete {
        /// How many palette colours were found.
        found: u8,
    },
}

/// The text of a parse error.
pub open spec fn parse_error_message(e: PaletteParseError) -> Seq<char> {
    match e {
        PaletteParseError::Incomplete { found } => "Couldn't find all colours in palette, only found: "@
            + decimal(found as nat) + "."@,
    }
}

impl PaletteParseError {
    /// The text of the error.
    pub fn message(&self) -> (res: Vec<char>)
        ensures
            res@ == parse_error_message(*self),
    {
        match self {
            PaletteParseError::Incomplete { found } => {
                let mut out = string_chars(&"Couldn't find all colours in palette, only found: ".to_owned());
                push_decimal(&mut out, *found as u64);
                let stop = string_chars(&".".to_owned());
                push_chars(&mut out, stop.as_slice());
                out
            },
        }
    }
}

/// Pixel equality.
pub fn pixel_eq(a: Pixel, b: Pixel) -> (res: bool)
    ensures
        res == (a == b),
{
    a.0 == b.0 && a.1 == b.1 && a.2 == b.2 && a.3 == b.3
}

/// The colour part of a pixel.
pub fn pixel_rgb(p: Pixel) -> (res: PaletteColour)
    ensures
        res == rgb(p),
{
    (p.0, p.1, p.2)
}

/// The pure blue signal pixel.
pub fn pure_blue_pixel() -> (res: Pixel)
    ensures
        res == pure_blue(),
{
    (0, 0, 255, 255)
}

/// The row start marker of palette row `row`.
pub fn redish_pixel(row: u8) -> (res: Pixel)
    ensures
        res == redish(row as int),
{
    (255, row, 0, 255)
}

} // verus!
