//! The exact palette parser: it reads a screenshot of the printed palette grid whose colours
//! arrive unaltered, and collects one palette colour per change of colour.
use crate::palette::{
    block, colour_blocks, colour_pixel, grid_pixels, row_pixels, screenshot_of, pixel_eq, pixel_rgb, pure_blue, pure_blue_pixel, redish, redish_pixel, rgb, PaletteColour,
    PaletteParseError, Pixel, PALETTE_ROW_SIZE,
};
use vstd::prelude::*;

verus! {

/// A parser for converting default terminal palette colours to true colours.
pub struct PaletteParser;

/// The states of the parser.
pub enum ParserState {
    /// Looking for the pure(ish) red that starts a palette row. The green channel of the red is
    /// the index of the row, held here.
    LookingForRedish(u8),
    /// Looking for the pure blue that follows the red, to avoid false positives.
    LookingForBlue,
    /// The next change of colour is the first palette colour of the row.
    LookingForFirstColourInRow,
    /// Collecting the colours of a row. There are 16 per row, the `u8` is the column.
    CollectingRow(u8),
}

/// The mathematical state of the parser between two pixels.
pub struct ParserView {
    pub state: ParserState,
    pub palette: Seq<PaletteColour>,
    pub current_colour: Pixel,
    pub palette_index: int,
    pub row_index: int,
}

/// The parser before any pixel.
pub open spec fn initial() -> ParserView {
    ParserView {
        state: ParserState::LookingForRedish(0),
        palette: Seq::empty(),
        current_colour: (0u8, 0u8, 0u8, 0u8),
        palette_index: 0,
        row_index: 0,
    }
}

/// One pixel through the parser. The flag says whether the palette is complete. Inside the
/// palette grid, a pixel of the same colour as the previous one changes nothing.
pub open spec fn step(m: ParserView, p: Pixel) -> (ParserView, bool) {
    let previous = m.current_colour;
    let m1 = ParserView { current_colour: p, ..m };
    let is_in_palette = !(m.state is LookingForRedish);
    if is_in_palette && p == previous {
        (m1, false)
    } else {
        match m.state {
            ParserState::LookingForRedish(marker) => {
                if p == redish(marker as int) {
                    (ParserView { state: ParserState::LookingForBlue, ..m1 }, false)
                } else {
                    (m1, false)
                }
            },
            ParserState::LookingForBlue => {
                if p == pure_blue() {
                    (ParserView { state: ParserState::LookingForFirstColourInRow, ..m1 }, false)
                } else {
                    (
                        ParserView {
                            state: ParserState::LookingForRedish(m.row_index as u8),
                            ..m1
                        },
                        false,
                    )
                }
            },
            ParserState::LookingForFirstColourInRow => (
                ParserView {
                    state: ParserState::CollectingRow(0),
                    palette: m.palette.push(rgb(p)),
                    palette_index: m.palette_index + 1,
                    ..m1
                },
                false,
            ),
            ParserState::CollectingRow(column) => {
                if column + 1 >= PALETTE_ROW_SIZE {
                    (
                        ParserView {
                            state: ParserState::LookingForRedish((m.row_index + 1) as u8),
                            row_index: m.row_index + 1,
                            ..m1
                        },
                        false,
                    )
                } else {
                    let m2 = ParserView { palette: m.palette.push(rgb(p)), ..m1 };
                    if m.palette_index == 255 {
                        (m2, true)
                    } else {
                        (
                            ParserView {
                                state: ParserState::CollectingRow((column + 1) as u8),
                                palette_index: m.palette_index + 1,
                                ..m2
                            },
                            false,
                        )
                    }
                }
            },
        }
    }
}

/// The parser after the pixels, in order. The flag says whether the palette was completed, at
/// which point the remaining pixels are ignored.
pub open spec fn run(m: ParserView, pixels: Seq<Pixel>) -> (ParserView, bool)
    decreases pixels.len(),
{
    if pixels.len() == 0 {
        (m, false)
    } else {
        let (prev, done) = run(m, pixels.drop_last());
        if done {
            (prev, true)
        } else {
            step(prev, pixels.last())
        }
    }
}

/// The bookkeeping of the parser holds together.
pub open spec fn wf(m: ParserView) -> bool {
    &&& 0 <= m.row_index <= 15
    &&& 0 <= m.palette_index <= 255
    &&& m.palette.len() == m.palette_index
    &&& match m.state {
        ParserState::LookingForRedish(marker) => marker == m.row_index && m.palette_index == 16
            * m.row_index,
        ParserState::CollectingRow(column) => column < PALETTE_ROW_SIZE && m.palette_index == 16
            * m.row_index + column + 1,
        _ => m.palette_index == 16 * m.row_index,
    }
}

/// The parse of a whole screenshot: `Ok` with the palette once all 256 colours are found.
pub open spec fn parse_result(pixels: Seq<Pixel>) -> Result<Seq<PaletteColour>, PaletteParseError> {
    let (m, done) = run(initial(), pixels);
    if done {
        Ok(m.palette)
    } else {
        Err(PaletteParseError::Incomplete { found: m.palette_index as u8 })
    }
}

/// A transition keeps the bookkeeping together, and completes only with a full palette.
pub proof fn lemma_step_wf(m: ParserView, p: Pixel)
    requires
        wf(m),
    ensures
        !step(m, p).1 ==> wf(step(m, p).0),
        step(m, p).1 ==> step(m, p).0.palette.len() == 256,
{
}

/// A transition only appends to the palette, whose entry `i` is the colour of palette index
/// `i`: the colours found so far never change, at most one colour is added, the index of the
/// next colour grows by at most one, the palette holds exactly the indices below it, and the
/// palette is complete, with all 256 indices, only when this transition found the colour of
/// index 255.
pub proof fn lemma_step_appends_only(m: ParserView, p: Pixel)
    requires
        wf(m),
    ensures
        step(m, p).0.palette.len() <= m.palette.len() + 1,
        step(m, p).0.palette.subrange(0, m.palette.len() as int) == m.palette,
        m.palette_index <= step(m, p).0.palette_index <= m.palette_index + 1,
        !step(m, p).1 ==> step(m, p).0.palette.len() == step(m, p).0.palette_index,
        step(m, p).1 ==> m.palette_index == 255 && m.palette.len() == 255 && step(m, p).0.palette.len()
            == 256,
{
    assert(m.palette.push(rgb(p)).subrange(0, m.palette.len() as int) =~= m.palette);
    assert(m.palette.subrange(0, m.palette.len() as int) =~= m.palette);
    lemma_step_wf(m, p);
}

/// Over any pixels, the palette only grows at its end: the colours found before stay as they
/// were, and the palette holds exactly the indices below the next one, or all 256 once
/// complete.
pub proof fn lemma_run_appends_only(m: ParserView, pixels: Seq<Pixel>)
    requires
        wf(m),
    ensures
        run(m, pixels).0.palette.len() >= m.palette.len(),
        run(m, pixels).0.palette.subrange(0, m.palette.len() as int) == m.palette,
        !run(m, pixels).1 ==> run(m, pixels).0.palette.len() == run(m, pixels).0.palette_index,
        run(m, pixels).1 ==> run(m, pixels).0.palette.len() == 256,
    decreases pixels.len(),
{
    if pixels.len() == 0 {
        assert(m.palette.subrange(0, m.palette.len() as int) =~= m.palette);
    } else {
        lemma_run_appends_only(m, pixels.drop_last());
        lemma_run_wf(m, pixels.drop_last());
        let (prev, done) = run(m, pixels.drop_last());
        if !done {
            lemma_step_appends_only(prev, pixels.last());
            let next = step(prev, pixels.last()).0;
            assert(next.palette.subrange(0, m.palette.len() as int) =~= next.palette.subrange(
                0,
                prev.palette.len() as int,
            ).subrange(0, m.palette.len() as int));
        }
    }
}

/// Every run keeps the bookkeeping together, and completes only with a full palette.
pub proof fn lemma_run_wf(m: ParserView, pixels: Seq<Pixel>)
    requires
        wf(m),
    ensures
        !run(m, pixels).1 ==> wf(run(m, pixels).0),
        run(m, pixels).1 ==> run(m, pixels).0.palette.len() == 256,
    decreases pixels.len(),
{
    if pixels.len() > 0 {
        lemma_run_wf(m, pixels.drop_last());
        let (prev, done) = run(m, pixels.drop_last());
        if !done {
            lemma_step_wf(prev, pixels.last());
        }
    }
}

/// Once complete, later pixels change nothing.
pub proof fn lemma_run_done_prefix(m: ParserView, pixels: Seq<Pixel>, i: int)
    requires
        0 <= i <= pixels.len(),
        run(m, pixels.take(i)).1,
    ensures
        run(m, pixels) == run(m, pixels.take(i)),
    decreases pixels.len() - i,
{
    if i < pixels.len() {
        assert(pixels.take(i + 1).drop_last() =~= pixels.take(i));
        lemma_run_done_prefix(m, pixels, i + 1);
    } else {
        assert(pixels.take(i) =~= pixels);
    }
}

/// Running over two pieces is running over the first, then over the second unless the first
/// completed the palette.
pub proof fn lemma_run_append(m: ParserView, s1: Seq<Pixel>, s2: Seq<Pixel>)
    ensures
        run(m, s1 + s2) == (if run(m, s1).1 {
            run(m, s1)
        } else {
            run(run(m, s1).0, s2)
        }),
    decreases s2.len(),
{
    if s2.len() == 0 {
        assert(s1 + s2 =~= s1);
    } else {
        lemma_run_append(m, s1, s2.drop_last());
        assert((s1 + s2).drop_last() =~= s1 + s2.drop_last());
        assert((s1 + s2).last() == s2.last());
    }
}

/// Running over a single pixel is one step.
pub proof fn lemma_run_single(m: ParserView, p: Pixel)
    ensures
        run(m, seq![p]) == step(m, p),
{
    let rest = seq![p].drop_last();
    assert(rest =~= Seq::<Pixel>::empty());
    assert(run(m, rest) == (m, false));
    assert(seq![p].last() == p);
}

/// Inside the grid, more pixels of the current colour change nothing.
pub proof fn lemma_block_skip(m: ParserView, p: Pixel, w: nat)
    requires
        !(m.state is LookingForRedish),
        m.current_colour == p,
    ensures
        run(m, block(p, w)) == (m, false),
    decreases w,
{
    if w > 0 {
        assert(block(p, w).drop_last() =~= block(p, (w - 1) as nat));
        lemma_block_skip(m, p, (w - 1) as nat);
    }
}

/// Outside the grid, pixels that are not the awaited row marker change only the current colour.
pub proof fn lemma_block_ignored(m: ParserView, p: Pixel, w: nat)
    requires
        m.state matches ParserState::LookingForRedish(marker) && p != redish(marker as int),
        w >= 1,
    ensures
        run(m, block(p, w)) == (ParserView { current_colour: p, ..m }, false),
    decreases w,
{
    assert(block(p, w).drop_last() =~= block(p, (w - 1) as nat));
    assert(block(p, w).last() == p);
    if w > 1 {
        lemma_block_ignored(m, p, (w - 1) as nat);
    } else {
        assert(block(p, 0) =~= Seq::<Pixel>::empty());
        assert(run(m, block(p, 0)) == (m, false));
    }
}

/// A block whose first pixel moves the parser into the grid, or completes the palette, acts as
/// that single step.
pub proof fn lemma_block_enter(m: ParserView, p: Pixel, w: nat)
    requires
        w >= 1,
        step(m, p).1 || (!(step(m, p).0.state is LookingForRedish) && step(m, p).0.current_colour
            == p),
    ensures
        run(m, block(p, w)) == step(m, p),
{
    assert(block(p, w) =~= seq![p] + block(p, (w - 1) as nat));
    lemma_run_append(m, seq![p], block(p, (w - 1) as nat));
    lemma_run_single(m, p);
    if !step(m, p).1 {
        lemma_block_skip(step(m, p).0, p, (w - 1) as nat);
    }
}

/// The colours of the grid are told apart by exact comparison: neighbours in a row differ and
/// the first colour of a row differs from the pure blue before it.
pub open spec fn exactly_distinguishable(colours: Seq<PaletteColour>) -> bool {
    &&& forall|r: int| 0 <= r < 16 ==> #[trigger] colour_pixel(colours[16 * r]) != pure_blue()
    &&& forall|i: int|
        0 <= i < 255 && #[trigger] (i % 16) != 15 ==> colour_pixel(colours[i]) != colour_pixel(
            colours[i + 1],
        )
}

/// The parser waiting for the red marker of palette row `row`.
pub open spec fn row_start(colours: Seq<PaletteColour>, row: int, current: Pixel) -> ParserView {
    ParserView {
        state: ParserState::LookingForRedish(row as u8),
        palette: colours.take(16 * row),
        current_colour: current,
        palette_index: 16 * row,
        row_index: row,
    }
}

/// The parser right after the pure blue of palette row `row`.
pub open spec fn first_colour(colours: Seq<PaletteColour>, row: int) -> ParserView {
    ParserView {
        state: ParserState::LookingForFirstColourInRow,
        palette: colours.take(16 * row),
        current_colour: pure_blue(),
        palette_index: 16 * row,
        row_index: row,
    }
}

/// The parser after the first `k` colours of palette row `row`.
pub open spec fn collected(colours: Seq<PaletteColour>, row: int, k: int) -> ParserView {
    ParserView {
        state: ParserState::CollectingRow((k - 1) as u8),
        palette: colours.take(16 * row + k),
        current_colour: colour_pixel(colours[16 * row + k - 1]),
        palette_index: 16 * row + k,
        row_index: row,
    }
}

/// The colour blocks of a row are collected one by one.
pub proof fn lemma_colour_blocks(colours: Seq<PaletteColour>, row: int, k: nat, w: nat)
    requires
        colours.len() == 256,
        exactly_distinguishable(colours),
        0 <= row < 16,
        1 <= k <= 16,
        w >= 1,
    ensures
        16 * row + k - 1 < 255 ==> run(first_colour(colours, row), colour_blocks(colours, 16 * row, k, w)) == (collected(colours, row, k as int), false),
        16 * row + k - 1 == 255 ==> run(first_colour(colours, row), colour_blocks(colours, 16 * row, k, w)).1
            && run(first_colour(colours, row), colour_blocks(colours, 16 * row, k, w)).0.palette =~= colours,
    decreases k,
{
    let m0 = first_colour(colours, row);
    let p = colour_pixel(colours[16 * row + k - 1]);
    if k == 1 {
        assert(colour_blocks(colours, 16 * row, 1, w) =~= block(p, w)) by {
            assert(colour_blocks(colours, 16 * row, 0, w) =~= Seq::<Pixel>::empty());
        }
        assert(colour_pixel(colours[16 * row]) != pure_blue());
        assert(colours.take(16 * row).push(colours[16 * row]) =~= colours.take(16 * row + 1));
        lemma_block_enter(m0, p, w);
    } else {
        let prev_k = (k - 1) as nat;
        lemma_colour_blocks(colours, row, prev_k, w);
        let mk = collected(colours, row, prev_k as int);
        lemma_run_append(m0, colour_blocks(colours, 16 * row, prev_k, w), block(p, w));
        let i = 16 * row + k - 2;
        assert(i % 16 == k - 2) by (nonlinear_arith)
            requires i == 16 * row + k - 2, 2 <= k <= 16;
        assert(colour_pixel(colours[i]) != colour_pixel(colours[i + 1]));
        assert(colours.take(16 * row + k - 1).push(colours[16 * row + k - 1]) =~= colours.take(
            16 * row + k,
        ));
        lemma_block_enter(mk, p, w);
        if 16 * row + k - 1 == 255 {
            assert(colours.take(256) =~= colours);
        }
    }
}

/// A whole pixel row of the grid collects the 16 colours of its palette row.
pub proof fn lemma_row(colours: Seq<PaletteColour>, row: int, current: Pixel, w: nat, sep: Pixel)
    requires
        colours.len() == 256,
        exactly_distinguishable(colours),
        0 <= row < 16,
        w >= 1,
        sep.3 != 255,
    ensures
        row < 15 ==> run(row_start(colours, row, current), row_pixels(colours, row, w, sep)) == (
        row_start(colours, row + 1, sep), false),
        row == 15 ==> run(row_start(colours, row, current), row_pixels(colours, row, w, sep)).1
            && run(row_start(colours, row, current), row_pixels(colours, row, w, sep)).0.palette
            =~= colours,
{
    let m0 = row_start(colours, row, current);
    let reds = block(redish(row), w);
    let blues = block(pure_blue(), w);
    let cols = colour_blocks(colours, 16 * row, 16, w);
    let seps = block(sep, w);
    assert(row_pixels(colours, row, w, sep) =~= reds + (blues + (cols + seps)));
    // The red marker opens the row.
    lemma_block_enter(m0, redish(row), w);
    let m1 = step(m0, redish(row)).0;
    lemma_run_append(m0, reds, blues + (cols + seps));
    // The pure blue confirms it.
    lemma_block_enter(m1, pure_blue(), w);
    let m2 = step(m1, pure_blue()).0;
    assert(m2 == first_colour(colours, row));
    lemma_run_append(m1, blues, cols + seps);
    // The 16 colours.
    lemma_colour_blocks(colours, row, 16, w);
    lemma_run_append(m2, cols, seps);
    if row < 15 {
        // The border ends the row.
        let m3 = collected(colours, row, 16);
        assert(m3.state == ParserState::CollectingRow(15));
        let m4 = step(m3, sep).0;
        assert(m4 == ParserView {
            state: ParserState::LookingForRedish((row + 1) as u8),
            row_index: row + 1,
            current_colour: sep,
            ..m3
        });
        assert(seps =~= seq![sep] + block(sep, (w - 1) as nat));
        lemma_run_append(m3, seq![sep], block(sep, (w - 1) as nat));
        lemma_run_single(m3, sep);
        if w > 1 {
            lemma_block_ignored(m4, sep, (w - 1) as nat);
        } else {
            assert(block(sep, 0) =~= Seq::<Pixel>::empty());
        }
        assert(colours.take(16 * row + 16) =~= colours.take(16 * (row + 1)));
    }
}

/// The first rows of the grid collect the first palette rows.
pub proof fn lemma_grid(colours: Seq<PaletteColour>, rows: nat, w: nat, sep: Pixel)
    requires
        colours.len() == 256,
        exactly_distinguishable(colours),
        rows <= 16,
        w >= 1,
        sep.3 != 255,
    ensures
        rows < 16 ==> run(initial(), grid_pixels(colours, rows, w, sep)) == (row_start(
            colours,
            rows as int,
            if rows == 0 {
                (0u8, 0u8, 0u8, 0u8)
            } else {
                sep
            },
        ), false),
        rows == 16 ==> run(initial(), grid_pixels(colours, rows, w, sep)).1 && run(
            initial(),
            grid_pixels(colours, rows, w, sep),
        ).0.palette =~= colours,
    decreases rows,
{
    if rows == 0 {
        assert(colours.take(0) =~= Seq::<PaletteColour>::empty());
        assert(initial() == row_start(colours, 0, (0u8, 0u8, 0u8, 0u8)));
    } else {
        let r = (rows - 1) as nat;
        lemma_grid(colours, r, w, sep);
        let current = if r == 0 {
            (0u8, 0u8, 0u8, 0u8)
        } else {
            sep
        };
        lemma_run_append(initial(), grid_pixels(colours, r, w, sep), row_pixels(colours, r as int, w, sep));
        lemma_row(colours, r as int, current, w, sep);
    }
}

/// A screenshot of the printed palette grid parses back into the palette it shows, whatever the
/// width of its cells, as long as neighbouring colours can be told apart.
pub proof fn lemma_parse_screenshot_of_grid(colours: Seq<PaletteColour>, w: nat, sep: Pixel)
    requires
        colours.len() == 256,
        exactly_distinguishable(colours),
        w >= 1,
        sep.3 != 255,
    ensures
        parse_result(screenshot_of(colours, w, sep)) == Ok::<Seq<PaletteColour>, PaletteParseError>(colours),
{
    lemma_grid(colours, 16, w, sep);
}

impl PaletteParser {
    /// Parse the raw pixels of a screenshot, in row-major order, looking for the QR Code-like
    /// print out of all the colours from the current terminal's palette.
    pub fn parse_screenshot(image: &Vec<Pixel>) -> (res: Result<Vec<PaletteColour>, PaletteParseError>)
        ensures
            match res {
                Ok(palette) => parse_result(image@) == Ok::<Seq<PaletteColour>, PaletteParseError>(palette@),
                Err(e) => parse_result(image@) == Err::<Seq<PaletteColour>, PaletteParseError>(e),
            },
    {
        let mut palette: Vec<PaletteColour> = Vec::new();
        let mut state = ParserState::LookingForRedish(0);
        let mut palette_index: u8 = 0;
        let mut row_index: u8 = 0;
        let mut current_colour: Pixel = (0, 0, 0, 0);
        let n = image.len();
        let mut i: usize = 0;
        assert(image@.take(0) =~= Seq::<Pixel>::empty());
        while i < n
            invariant
                n == image@.len(),
                0 <= i <= n,
                ({
                    let m = ParserView {
                        state,
                        palette: palette@,
                        current_colour,
                        palette_index: palette_index as int,
                        row_index: row_index as int,
                    };
                    &&& wf(m)
                    &&& run(initial(), image@.take(i as int)) == (m, false)
                }),
            decreases n - i,
        {
            let ghost before = ParserView {
                state,
                palette: palette@,
                current_colour,
                palette_index: palette_index as int,
                row_index: row_index as int,
            };
            assert(image@.take(i + 1).drop_last() =~= image@.take(i as int));
            let previous_colour = current_colour;
            current_colour = image[i];
            assert(image@.take(i + 1).last() == current_colour);
            proof {
                lemma_step_wf(before, current_colour);
            }
            i = i + 1;
            let is_in_palette = match state {
                ParserState::LookingForRedish(_) => false,
                _ => true,
            };
            if is_in_palette && pixel_eq(current_colour, previous_colour) {
                continue;
            }
            match state {
                ParserState::LookingForRedish(row_marker) => {
                    if pixel_eq(current_colour, redish_pixel(row_marker)) {
                        state = ParserState::LookingForBlue;
                    }
                },
                ParserState::LookingForBlue => {
                    if pixel_eq(current_colour, pure_blue_pixel()) {
                        state = ParserState::LookingForFirstColourInRow;
                    } else {
                        state = ParserState::LookingForRedish(row_index);
                    }
                },
                ParserState::LookingForFirstColourInRow => {
                    state = ParserState::CollectingRow(0);
                    palette.push(pixel_rgb(current_colour));
                    palette_index = palette_index + 1;
                },
                ParserState::CollectingRow(column_index) => {
                    let new_column = column_index + 1;
                    if new_column >= PALETTE_ROW_SIZE {
                        row_index = row_index + 1;
                        state = ParserState::LookingForRedish(row_index);
                    } else {
                        palette.push(pixel_rgb(current_colour));
                        if palette_index == 255 {
                            proof {
                                lemma_run_done_prefix(initial(), image@, i as int);
                            }
                            return Ok(palette);
                        }
                        palette_index = palette_index + 1;
                        state = ParserState::CollectingRow(new_column);
                    }
                },
            }
        }
        assert(image@.take(n as int) =~= image@);
        Err(PaletteParseError::Incomplete { found: palette_index })
    }
}

} // verus!
