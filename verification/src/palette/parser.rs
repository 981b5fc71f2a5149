//! The text that prints the terminal's palette as a QR Code-like grid, both with the
//! terminal's own palette indexes and with the parsed true colours. Printing the grid, taking
//! the screenshot and saving the result happen around this, in the application.
//!
//! The grid has 8 text rows. Each cell uses the half block trick: its background is the upper
//! pixel and its foreground the lower pixel. Text row `y` starts with the red row markers of
//! palette rows `2y` (upper) and `2y + 1` (lower), then a pure blue cell, then the 16 palette
//! colours of those two palette rows.
use super::{PaletteColour, PALETTE_ROW_SIZE, PALETTE_SIZE};
use crate::ansi::{decimal, push_chars, push_decimal};
use vstd::prelude::*;

verus! {

/// Builds the text of the printed palette grid.
pub struct Parser;

/// The escape code that resets colours.
pub open spec fn reset_colour() -> Seq<char> {
    seq!['\u{1b}', '[', 'm']
}

/// The escape code that sets a true colour: `'4'` for the background, `'3'` for the
/// foreground.
pub open spec fn true_colour_code(layer: char, c: PaletteColour) -> Seq<char> {
    seq!['\u{1b}', '[', layer, '8', ';', '2', ';'] + decimal(c.0 as nat) + seq![';'] + decimal(
        c.1 as nat,
    ) + seq![';'] + decimal(c.2 as nat) + seq!['m']
}

/// The text that shows 2 true colours in 1 cell: `top` as background of the lower half block,
/// `bottom` as its foreground.
pub open spec fn two_true_colours_text(top: PaletteColour, bottom: PaletteColour) -> Seq<char> {
    true_colour_code('4', top) + true_colour_code('3', bottom) + seq!['▄'] + reset_colour()
}

/// The text of a grid cell in the terminal's own palette: palette index `index` above and
/// `index + 16` below.
pub open spec fn native_cell_text(index: int) -> Seq<char> {
    seq!['\u{1b}', '[', '4', '8', ';', '5', ';'] + decimal(index as nat) + seq![
        'm',
        '\u{1b}',
        '[',
        '3',
        '8',
        ';',
        '5',
        ';',
    ] + decimal((index + 16) as nat) + seq!['m', '▄'] + reset_colour()
}

/// The grid cells in the terminal's own palette.
pub open spec fn native_cell() -> spec_fn(int) -> Seq<char> {
    |index: int| native_cell_text(index)
}

/// The grid cells in true colours: palette index `index` above and `index + 16` below.
pub open spec fn true_colour_cell(palette: Seq<PaletteColour>) -> spec_fn(int) -> Seq<char> {
    |index: int| two_true_colours_text(palette[index], palette[index + 16])
}

/// The first `count` palette cells of text row `y`.
pub open spec fn row_cells_text(y: int, count: nat, cell: spec_fn(int) -> Seq<char>) -> Seq<char>
    decreases count,
{
    if count == 0 {
        Seq::empty()
    } else {
        row_cells_text(y, (count - 1) as nat, cell) + cell(32 * y + count - 1)
    }
}

/// Text row `y` of the grid: the border, the red row markers, the pure blue, the 16 palette
/// cells, the border.
pub open spec fn row_text(y: int, cell: spec_fn(int) -> Seq<char>) -> Seq<char> {
    seq!['│'] + two_true_colours_text((255u8, (2 * y) as u8, 0u8), (255u8, (2 * y + 1) as u8, 0u8))
        + two_true_colours_text((0u8, 0u8, 255u8), (0u8, 0u8, 255u8)) + row_cells_text(y, 16, cell)
        + seq!['│', '\n']
}

/// The first `rows` text rows of the grid.
pub open spec fn rows_text(rows: nat, cell: spec_fn(int) -> Seq<char>) -> Seq<char>
    decreases rows,
{
    if rows == 0 {
        Seq::empty()
    } else {
        rows_text((rows - 1) as nat, cell) + row_text(rows - 1, cell)
    }
}

/// The top border of the grid.
pub open spec fn top_border() -> Seq<char> {
    seq!['╭'] + Seq::new(18, |i: int| '─') + seq!['╮', '\n']
}

/// The bottom border of the grid.
pub open spec fn bottom_border() -> Seq<char> {
    seq!['╰'] + Seq::new(18, |i: int| '─') + seq!['╯', '\n']
}

/// The whole grid with the given cells.
pub open spec fn generic_palette_text(cell: spec_fn(int) -> Seq<char>) -> Seq<char> {
    top_border() + rows_text(8, cell) + bottom_border()
}

/// Append the characters of a border.
fn push_border(out: &mut Vec<char>, left: char, right: char)
    ensures
        final(out)@ == old(out)@ + (seq![left] + Seq::new(18, |i: int| '─') + seq![right, '\n']),
{
    let ghost start = out@;
    out.push(left);
    let mut i: usize = 0;
    while i < 18
        invariant
            0 <= i <= 18,
            out@ == start + seq![left] + Seq::new(i as nat, |j: int| '─'),
        decreases 18 - i,
    {
        out.push('─');
        assert(Seq::new((i + 1) as nat, |j: int| '─') =~= Seq::new(i as nat, |j: int| '─').push(
            '─',
        ));
        i = i + 1;
    }
    out.push(right);
    out.push('\n');
    assert(out@ =~= start + (seq![left] + Seq::new(18, |j: int| '─') + seq![right, '\n']));
}

impl Parser {
    /// Append the escape code that sets a true colour.
    fn push_true_colour_code(out: &mut Vec<char>, layer: char, c: PaletteColour)
        ensures
            final(out)@ == old(out)@ + true_colour_code(layer, c),
    {
        let ghost start = out@;
        push_chars(out, &['\u{1b}', '[', layer, '8', ';', '2', ';']);
        push_decimal(out, c.0 as u64);
        out.push(';');
        push_decimal(out, c.1 as u64);
        out.push(';');
        push_decimal(out, c.2 as u64);
        out.push('m');
        assert(out@ =~= start + true_colour_code(layer, c));
    }

    /// Append the text that shows 2 true colours in 1 cell, using the UTF-8 half block trick.
    pub fn push_2_true_colours_in_1(out: &mut Vec<char>, top: PaletteColour, bottom: PaletteColour)
        ensures
            final(out)@ == old(out)@ + two_true_colours_text(top, bottom),
    {
        let ghost start = out@;
        Self::push_true_colour_code(out, '4', top);
        Self::push_true_colour_code(out, '3', bottom);
        push_chars(out, &['▄', '\u{1b}', '[', 'm']);
        assert(out@ =~= start + two_true_colours_text(top, bottom));
    }

    /// The text that shows 2 true colours in 1 cell, using the UTF-8 half block trick.
    pub fn two_true_colours_in_1(top: PaletteColour, bottom: PaletteColour) -> (res: Vec<char>)
        ensures
            res@ == two_true_colours_text(top, bottom),
    {
        let mut out: Vec<char> = Vec::new();
        Self::push_2_true_colours_in_1(&mut out, top, bottom);
        assert(out@ =~= two_true_colours_text(top, bottom));
        out
    }

    /// Append a grid cell in the terminal's own palette.
    fn push_native_cell(out: &mut Vec<char>, index: u8)
        requires
            index + 16 <= 255,
        ensures
            final(out)@ == old(out)@ + native_cell_text(index as int),
    {
        let ghost start = out@;
        push_chars(out, &['\u{1b}', '[', '4', '8', ';', '5', ';']);
        push_decimal(out, index as u64);
        push_chars(out, &['m', '\u{1b}', '[', '3', '8', ';', '5', ';']);
        push_decimal(out, (index + PALETTE_ROW_SIZE) as u64);
        push_chars(out, &['m', '▄', '\u{1b}', '[', 'm']);
        assert(out@ =~= start + native_cell_text(index as int));
    }

    /// Append text row `y` of the grid.
    fn push_row(out: &mut Vec<char>, y: u8, palette: Option<&Vec<PaletteColour>>)
        requires
            y < 8,
            palette matches Some(p) ==> p@.len() >= 256,
        ensures
            final(out)@ == old(out)@ + row_text(
                y as int,
                match palette {
                    Some(p) => true_colour_cell(p@),
                    None => native_cell(),
                },
            ),
    {
        let ghost cell = match palette {
            Some(p) => true_colour_cell(p@),
            None => native_cell(),
        };
        let ghost start = out@;
        out.push('│');
        Self::push_2_true_colours_in_1(out, (255, y * 2, 0), (255, (y * 2) + 1, 0));
        Self::push_2_true_colours_in_1(out, (0, 0, 255), (0, 0, 255));
        let ghost before_cells = out@;
        let mut x: u8 = 0;
        while x < PALETTE_ROW_SIZE
            invariant
                y < 8,
                0 <= x <= 16,
                palette matches Some(p) ==> p@.len() >= 256,
                cell == match palette {
                    Some(p) => true_colour_cell(p@),
                    None => native_cell(),
                },
                out@ == before_cells + row_cells_text(y as int, x as nat, cell),
            decreases 16 - x,
        {
            let palette_index = (y * PALETTE_ROW_SIZE * 2) + x;
            match palette {
                Some(p) => {
                    let top = p[palette_index as usize];
                    let bottom = p[(palette_index + PALETTE_ROW_SIZE) as usize];
                    Self::push_2_true_colours_in_1(out, top, bottom);
                },
                None => {
                    Self::push_native_cell(out, palette_index);
                },
            }
            assert(row_cells_text(y as int, (x + 1) as nat, cell) =~= row_cells_text(
                y as int,
                x as nat,
                cell,
            ) + cell(32 * y + x));
            x = x + 1;
        }
        out.push('│');
        out.push('\n');
        assert(out@ =~= start + row_text(y as int, cell));
    }

    /// Append the whole grid.
    fn push_generic_palette(out: &mut Vec<char>, palette: Option<&Vec<PaletteColour>>)
        requires
            palette matches Some(p) ==> p@.len() >= 256,
        ensures
            final(out)@ == old(out)@ + generic_palette_text(
                match palette {
                    Some(p) => true_colour_cell(p@),
                    None => native_cell(),
                },
            ),
    {
        let ghost cell = match palette {
            Some(p) => true_colour_cell(p@),
            None => native_cell(),
        };
        let ghost start = out@;
        push_border(out, '╭', '╮');
        let ghost before_rows = out@;
        let mut y: u8 = 0;
        while y < 8
            invariant
                0 <= y <= 8,
                palette matches Some(p) ==> p@.len() >= 256,
                cell == match palette {
                    Some(p) => true_colour_cell(p@),
                    None => native_cell(),
                },
                out@ == before_rows + rows_text(y as nat, cell),
            decreases 8 - y,
        {
            Self::push_row(out, y, palette);
            assert(rows_text((y + 1) as nat, cell) =~= rows_text(y as nat, cell) + row_text(
                y as int,
                cell,
            ));
            y = y + 1;
        }
        push_border(out, '╰', '╯');
        assert(out@ =~= start + generic_palette_text(cell));
    }

    /// The grid printed with the terminal's own palette indexes, for the screenshot.
    pub fn native_palette_text() -> (res: Vec<char>)
        ensures
            res@ == generic_palette_text(native_cell()),
    {
        let mut out: Vec<char> = Vec::new();
        Self::push_generic_palette(&mut out, None);
        assert(out@ =~= generic_palette_text(native_cell()));
        out
    }

    /// The grid printed with the parsed true colours, to compare with the native one. `None`
    /// when the palette lacks a colour.
    pub fn true_colour_palette_text(palette: &Vec<PaletteColour>) -> (res: Option<Vec<char>>)
        ensures
            palette@.len() < PALETTE_SIZE ==> res is None,
            palette@.len() >= PALETTE_SIZE ==> (res matches Some(text) && text@
                == generic_palette_text(true_colour_cell(palette@))),
    {
        if palette.len() < PALETTE_SIZE {
            return None;
        }
        let mut out: Vec<char> = Vec::new();
        Self::push_generic_palette(&mut out, Some(palette));
        assert(out@ =~= generic_palette_text(true_colour_cell(palette@)));
        Some(out)
    }
}

} // verus!
