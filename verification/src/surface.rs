//! Pixels on a surface of terminal cells.
//!
//! The y-axis of pixels is twice as long as the number of rows, because 2 "pixels" fit in a
//! single cell with the UTF-8 half blocks `▀` and `▄`: the upper block shows its foreground
//! colour above its background colour, the lower block the other way round.
//!
//! The rule is that any pair of colours is rendered with the upper half block. There is one
//! exception: a cell with a pixel only in its lower half uses the lower half block, so that its
//! upper half keeps the cell's background, which may be the terminal's default background.
//!
//! Colour attributes are opaque here (`A`): pixels only move them between the foreground and
//! background of cells.
use crate::ansi::{decimal, push_chars, push_decimal};
use crate::plugin_protocol::Pixel;
use vstd::prelude::*;

verus! {

/// What a cell shows, as far as pixels care.
#[derive(Clone, Copy, Debug, PartialEq, Eq, Structural)]
pub enum Glyph {
    /// The upper half block `▀`.
    UpperHalf,
    /// The lower half block `▄`.
    LowerHalf,
    /// Anything else: a blank or text.
    Other,
}

/// A terminal cell: its glyph and its colour attributes.
#[derive(Clone, Copy, Debug, PartialEq, Eq)]
pub struct Cell<A> {
    /// What the cell shows.
    pub glyph: Glyph,
    /// The foreground colour attribute.
    pub fg: A,
    /// The background colour attribute.
    pub bg: A,
}

/// The colour shown in the upper half of a cell.
pub open spec fn upper_colour<A>(cell: Cell<A>) -> A {
    match cell.glyph {
        Glyph::UpperHalf => cell.fg,
        _ => cell.bg,
    }
}

/// The colour shown in the lower half of a cell.
pub open spec fn lower_colour<A>(cell: Cell<A>) -> A {
    match cell.glyph {
        Glyph::LowerHalf => cell.fg,
        _ => cell.bg,
    }
}

/// The cell after adding a pixel of colour `colour` to its upper or lower half.
pub open spec fn spec_pixel_cell<A>(cell: Cell<A>, is_upper_half: bool, colour: A) -> Cell<A> {
    if is_upper_half {
        if cell.glyph == Glyph::LowerHalf {
            Cell { glyph: Glyph::UpperHalf, fg: colour, bg: cell.fg }
        } else {
            Cell { glyph: Glyph::UpperHalf, fg: colour, bg: cell.bg }
        }
    } else if cell.glyph == Glyph::UpperHalf {
        Cell { glyph: Glyph::UpperHalf, fg: cell.fg, bg: colour }
    } else {
        Cell { glyph: Glyph::LowerHalf, fg: colour, bg: cell.bg }
    }
}

/// Add a pixel to a cell. The upper pixel is the cell's foreground and the lower pixel its
/// background, except in a cell with only a lower pixel.
pub fn pixel_cell<A: Copy>(cell: Cell<A>, is_upper_half: bool, colour: A) -> (res: Cell<A>)
    ensures
        res == spec_pixel_cell(cell, is_upper_half, colour),
{
    let is_empty_upper = cell.glyph != Glyph::UpperHalf;
    let is_lower_half = !is_upper_half;
    let is_adding_to_bottom_of_empty_upper = is_empty_upper && is_lower_half;
    let mut fg = if is_upper_half {
        colour
    } else {
        cell.fg
    };
    let mut bg = if is_upper_half {
        cell.bg
    } else {
        colour
    };
    if is_adding_to_bottom_of_empty_upper {
        fg = colour;
        bg = cell.bg;
    }
    let is_converting_lower_to_full = is_upper_half && cell.glyph == Glyph::LowerHalf;
    if is_converting_lower_to_full {
        fg = colour;
        bg = cell.fg;
    }
    let glyph = if is_adding_to_bottom_of_empty_upper {
        Glyph::LowerHalf
    } else {
        Glyph::UpperHalf
    };
    Cell { glyph, fg, bg }
}

/// A pixel sets the half of the cell it lands in, keeps the other half, and leaves a half
/// block in the cell. So upper and lower pixels in the same cell never mix, in either order.
pub proof fn lemma_pixel_sets_its_half_only<A>(cell: Cell<A>, is_upper_half: bool, colour: A)
    ensures
        is_upper_half ==> upper_colour(spec_pixel_cell(cell, is_upper_half, colour)) == colour
            && lower_colour(spec_pixel_cell(cell, is_upper_half, colour)) == lower_colour(cell),
        !is_upper_half ==> lower_colour(spec_pixel_cell(cell, is_upper_half, colour)) == colour
            && upper_colour(spec_pixel_cell(cell, is_upper_half, colour)) == upper_colour(cell),
        spec_pixel_cell(cell, is_upper_half, colour).glyph != Glyph::Other,
{
}

/// Adding the same pixel twice is adding it once.
pub proof fn lemma_pixel_idempotent<A>(cell: Cell<A>, is_upper_half: bool, colour: A)
    ensures
        spec_pixel_cell(spec_pixel_cell(cell, is_upper_half, colour), is_upper_half, colour)
            == spec_pixel_cell(cell, is_upper_half, colour),
{
}

/// A blank cell with the given colour attribute.
pub open spec fn blank_cell<A>(blank: A) -> Cell<A> {
    Cell { glyph: Glyph::Other, fg: blank, bg: blank }
}

/// Why a pixel could not be added.
#[derive(Clone, Copy, Debug, PartialEq, Eq)]
pub enum SurfaceError {
    /// The pixel's column is outside the surface.
    Column(usize),
    /// The pixel's cell row is outside the surface.
    Row(usize),
}

/// The text of an error.
pub open spec fn error_message(e: SurfaceError) -> Seq<char> {
    match e {
        SurfaceError::Column(col) => seq!['T', 'r', 'i', 'e', 'd', ' ', 't', 'o', ' ', 'a', 'd', 'd', ' ', 'p', 'i', 'x', 'e', 'l', ' ', 't', 'o', ' ', 'c', 'o', 'l', 'u', 'm', 'n', ':', ' '] + decimal(col as nat),
        SurfaceError::Row(row) => seq!['T', 'r', 'i', 'e', 'd', ' ', 't', 'o', ' ', 'a', 'd', 'd', ' ', 'p', 'i', 'x', 'e', 'l', ' ', 't', 'o', ' ', 'r', 'o', 'w', ':', ' '] + decimal(row as nat),
    }
}

impl SurfaceError {
    /// The text of the error.
    pub fn message(&self) -> (res: Vec<char>)
        ensures
            res@ == error_message(*self),
    {
        let mut out: Vec<char> = Vec::new();
        match self {
            SurfaceError::Column(col) => {
                push_chars(&mut out, &['T', 'r', 'i', 'e', 'd', ' ', 't', 'o', ' ', 'a', 'd', 'd', ' ', 'p', 'i', 'x', 'e', 'l', ' ', 't', 'o', ' ', 'c', 'o', 'l', 'u', 'm', 'n', ':', ' ']);
                push_decimal(&mut out, *col as u64);
            },
            SurfaceError::Row(row) => {
                push_chars(&mut out, &['T', 'r', 'i', 'e', 'd', ' ', 't', 'o', ' ', 'a', 'd', 'd', ' ', 'p', 'i', 'x', 'e', 'l', ' ', 't', 'o', ' ', 'r', 'o', 'w', ':', ' ']);
                push_decimal(&mut out, *row as u64);
            },
        }
        assert(out@ =~= error_message(*self));
        out
    }
}

/// A surface of terminal cells that pixels are added to.
pub struct PixelSurface<A> {
    /// The terminal's width.
    width: usize,
    /// The terminal's height.
    height: usize,
    /// The cells, row by row.
    cells: Vec<Vec<Cell<A>>>,
}

/// Convert pixel coordinates to the column and row of their cell.
pub open spec fn spec_coords_to_tty(width: usize, height: usize, x: usize, y: usize) -> Result<(usize, usize), SurfaceError> {
    if x >= width {
        Err(SurfaceError::Column(x))
    } else if y / 2 >= height {
        Err(SurfaceError::Row(y / 2))
    } else {
        Ok((x, y / 2))
    }
}

/// The cells after adding a pixel, or why it could not be added.
pub open spec fn spec_add_pixel<A>(
    cells: Seq<Seq<Cell<A>>>,
    width: usize,
    height: usize,
    x: usize,
    y: usize,
    colour: A,
) -> Result<Seq<Seq<Cell<A>>>, SurfaceError> {
    match spec_coords_to_tty(width, height, x, y) {
        Ok((col, row)) => Ok(
            cells.update(
                row as int,
                cells[row as int].update(col as int, spec_pixel_cell(cells[row as int][col as int], y % 2 == 0, colour)),
            ),
        ),
        Err(e) => Err(e),
    }
}

/// The cells after adding pixels one after the other, with the given colour for pixels that
/// have none, and the first pixel that could not be added, if any: the pixels before it stay
/// added and the ones after it are not tried.
pub open spec fn spec_add_pixels<A>(
    cells: Seq<Seq<Cell<A>>>,
    width: usize,
    height: usize,
    pixels: Seq<Pixel<A>>,
    default: A,
) -> (Seq<Seq<Cell<A>>>, Result<(), SurfaceError>)
    decreases pixels.len(),
{
    if pixels.len() == 0 {
        (cells, Ok(()))
    } else {
        let p = pixels[0];
        let colour = match p.color {
            Some(c) => c,
            None => default,
        };
        match spec_add_pixel(cells, width, height, p.coordinates.0 as usize, p.coordinates.1 as usize, colour) {
            Ok(next) => spec_add_pixels(next, width, height, pixels.drop_first(), default),
            Err(e) => (cells, Err(e)),
        }
    }
}

impl<A: Copy> PixelSurface<A> {
    /// The cells, row by row.
    pub closed spec fn view(&self) -> Seq<Seq<Cell<A>>> {
        self.cells@.map_values(|row: Vec<Cell<A>>| row@)
    }

    /// The number of columns.
    pub closed spec fn spec_width(&self) -> usize {
        self.width
    }

    /// The number of rows.
    pub closed spec fn spec_height(&self) -> usize {
        self.height
    }

    /// The grid has its dimensions.
    pub closed spec fn wf(&self) -> bool {
        &&& self.cells@.len() == self.height
        &&& forall|r: int| 0 <= r < self.height ==> #[trigger] self.cells@[r]@.len() == self.width
    }

    /// A well-formed surface has its number of rows, each with its number of columns.
    pub proof fn lemma_view_dimensions(&self)
        requires
            self.wf(),
        ensures
            self.view().len() == self.spec_height(),
            forall|r: int| 0 <= r < self.spec_height() ==> #[trigger] self.view()[r].len() == self.spec_width(),
    {
    }

    /// A surface of blank cells, all with the given colour attribute.
    pub fn new(width: usize, height: usize, blank: A) -> (res: Self)
        ensures
            res.wf(),
            res.spec_width() == width,
            res.spec_height() == height,
            forall|r: int, c: int|
                0 <= r < height && 0 <= c < width ==> #[trigger] res.view()[r][c] == blank_cell(blank),
    {
        let mut cells: Vec<Vec<Cell<A>>> = Vec::new();
        let mut r: usize = 0;
        while r < height
            invariant
                0 <= r <= height,
                cells@.len() == r,
                forall|i: int| 0 <= i < r ==> #[trigger] cells@[i]@.len() == width,
                forall|i: int, c: int|
                    0 <= i < r && 0 <= c < width ==> #[trigger] cells@[i]@[c] == blank_cell(blank),
            decreases height - r,
        {
            let mut row: Vec<Cell<A>> = Vec::new();
            let mut c: usize = 0;
            while c < width
                invariant
                    0 <= c <= width,
                    row@.len() == c,
                    forall|j: int| 0 <= j < c ==> #[trigger] row@[j] == blank_cell(blank),
                decreases width - c,
            {
                row.push(Cell { glyph: Glyph::Other, fg: blank, bg: blank });
                c = c + 1;
            }
            cells.push(row);
            r = r + 1;
        }
        PixelSurface { width, height, cells }
    }

    /// The number of columns.
    pub fn width(&self) -> (res: usize)
        ensures
            res == self.spec_width(),
    {
        self.width
    }

    /// The number of rows.
    pub fn height(&self) -> (res: usize)
        ensures
            res == self.spec_height(),
    {
        self.height
    }

    /// Safely convert pixel coordinates to the column and row of their cell.
    pub fn coords_to_tty(&self, x: usize, y: usize) -> (res: Result<(usize, usize), SurfaceError>)
        ensures
            res == spec_coords_to_tty(self.spec_width(), self.spec_height(), x, y),
    {
        let col = x;
        let row = y / 2;
        if col >= self.width {
            return Err(SurfaceError::Column(col));
        }
        if row >= self.height {
            return Err(SurfaceError::Row(row));
        }
        Ok((col, row))
    }

    /// The cell at the given column and row.
    pub fn get_cell_at(&self, col: usize, row: usize) -> (res: Option<Cell<A>>)
        requires
            self.wf(),
        ensures
            col < self.spec_width() && row < self.spec_height() ==> res == Some(self.view()[row as int][col as int]),
            !(col < self.spec_width() && row < self.spec_height()) ==> res is None,
    {
        if row < self.cells.len() && col < self.cells[row].len() {
            Some(self.cells[row][col])
        } else {
            None
        }
    }

    /// Add a pixel (`▀` or `▄`) of the given colour. Pixel row `y` lands in the upper half of
    /// cell row `y / 2` when it is even, in the lower half when it is odd.
    pub fn add_pixel(&mut self, x: usize, y: usize, colour: A) -> (res: Result<(), SurfaceError>)
        requires
            old(self).wf(),
        ensures
            final(self).wf(),
            final(self).spec_width() == old(self).spec_width(),
            final(self).spec_height() == old(self).spec_height(),
            res == match spec_coords_to_tty(old(self).spec_width(), old(self).spec_height(), x, y) {
                Ok(_) => Ok::<(), SurfaceError>(()),
                Err(e) => Err(e),
            },
            res is Err ==> final(self).view() == old(self).view(),
            res is Ok ==> final(self).view() == old(self).view().update(
                (y / 2) as int,
                old(self).view()[(y / 2) as int].update(
                    x as int,
                    spec_pixel_cell(old(self).view()[(y / 2) as int][x as int], y % 2 == 0, colour),
                ),
            ),
    {
        let (col, row) = match self.coords_to_tty(x, y) {
            Ok(coords) => coords,
            Err(e) => return Err(e),
        };
        let cell = self.cells[row][col];
        let is_upper_half = y % 2 == 0;
        let new_cell = pixel_cell(cell, is_upper_half, colour);
        self.cells[row].set(col, new_cell);
        proof {
            assert(self.view() =~= old(self).view().update(
                row as int,
                old(self).view()[row as int].update(col as int, new_cell),
            ));
        }
        Ok(())
    }

    /// Add pixels from a plugin one after the other, with the given colour for pixels that
    /// have none, stopping at the first pixel outside the surface.
    pub fn add_pixels(&mut self, pixels: &Vec<Pixel<A>>, default: A) -> (res: Result<(), SurfaceError>)
        requires
            old(self).wf(),
        ensures
            final(self).wf(),
            final(self).spec_width() == old(self).spec_width(),
            final(self).spec_height() == old(self).spec_height(),
            (final(self).view(), res) == spec_add_pixels(
                old(self).view(),
                old(self).spec_width(),
                old(self).spec_height(),
                pixels@,
                default,
            ),
    {
        let mut i: usize = 0;
        assert(pixels@.skip(0) =~= pixels@);
        while i < pixels.len()
            invariant
                self.wf(),
                self.spec_width() == old(self).spec_width(),
                self.spec_height() == old(self).spec_height(),
                0 <= i <= pixels@.len(),
                spec_add_pixels(old(self).view(), old(self).spec_width(), old(self).spec_height(), pixels@, default)
                    == spec_add_pixels(self.view(), self.spec_width(), self.spec_height(), pixels@.skip(i as int), default),
            decreases pixels@.len() - i,
        {
            let pixel = pixels[i];
            let colour = match pixel.color {
                Some(c) => c,
                None => default,
            };
            proof {
                assert(pixels@.skip(i as int)[0] == pixel);
                assert(pixels@.skip(i as int).drop_first() =~= pixels@.skip(i + 1));
            }
            let added = self.add_pixel(pixel.coordinates.0 as usize, pixel.coordinates.1 as usize, colour);
            match added {
                Ok(()) => {},
                Err(e) => {
                    return Err(e);
                },
            }
            i = i + 1;
        }
        assert(pixels@.skip(i as int) =~= Seq::<Pixel<A>>::empty());
        Ok(())
    }
}

} // verus!
