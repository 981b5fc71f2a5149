//! A state machine for parsing a QR Code-like screenshot of the user's terminal colours. It
//! tolerates lossy screenshots: colours only need to be close, and blocks must be seen a few
//! pixels in a row before they count.
use super::{
    block, colour_blocks, colour_pixel, grid_pixels, row_pixels, screenshot_of, pixel_eq, pixel_rgb, pure_blue, pure_blue_pixel, redish, redish_pixel, rgb, PaletteColour,
    PaletteParseError, Pixel, PALETTE_ROW_SIZE,
};
use vstd::prelude::*;

verus! {

/// The number of times a pixel must occur one after the other to be considered as defining a
/// new palette block.
pub const COLOUR_CONFIDENCE: u8 = 3;

/// The maximum level of lossy noise that allows 2 colours to be considered the same.
pub const MAX_LOSSY_NOISE_LEVEL: u16 = 4;

/// The states of the parser.
pub enum State {
    /// Looking for the pure(ish) red that starts a palette row. The green channel of the red
    /// is the index of the row.
    LookingForRedish,
    /// Looking for the pure blue that follows the red, to avoid false positives.
    LookingForBlue,
    /// The next colour block is the first palette colour of the row.
    LookingForFirstColourInRow,
    /// Collecting the colours of a row. There are 16 per row, the `u8` is the column.
    CollectingRow(u8),
}

/// The state machine for parsing true colour palettes.
pub struct Machine {
    /// The state of the parser.
    state: State,
    /// The palette found so far: entry `i` is the colour of palette index `i`.
    palette: Vec<PaletteColour>,
    /// The current colour being parsed from the screenshot.
    current_colour: Pixel,
    /// The palette index of the next colour to be found.
    palette_index: u8,
    /// The current row in the palette print out being parsed.
    row_index: u8,
    /// The accumulated confidence that the parser is in a new palette block.
    block_confidence: u8,
    /// The accumulated confidence that the parser is in a new row of the palette.
    row_confidence: u8,
}

/// The mathematical state of the parser.
pub struct MachineView {
    pub state: State,
    pub palette: Seq<PaletteColour>,
    pub current_colour: Pixel,
    pub palette_index: int,
    pub row_index: int,
    pub block_confidence: int,
    pub row_confidence: int,
}

impl View for Machine {
    type V = MachineView;

    closed spec fn view(&self) -> MachineView {
        MachineView {
            state: self.state,
            palette: self.palette@,
            current_colour: self.current_colour,
            palette_index: self.palette_index as int,
            row_index: self.row_index as int,
            block_confidence: self.block_confidence as int,
            row_confidence: self.row_confidence as int,
        }
    }
}

/// The distance between two numbers.
pub open spec fn abs_diff(a: u8, b: u8) -> int {
    if a >= b {
        a - b
    } else {
        b - a
    }
}

/// A crude difference metric for 2 colours: the sum of the channel differences, alpha aside.
pub open spec fn colour_distance(a: Pixel, b: Pixel) -> int {
    abs_diff(a.0, b.0) + abs_diff(a.1, b.1) + abs_diff(a.2, b.2)
}

/// Within the noise level, are 2 colours the same?
pub open spec fn same_colour(a: Pixel, b: Pixel) -> bool {
    colour_distance(a, b) < MAX_LOSSY_NOISE_LEVEL
}

/// The parser before any pixel.
pub open spec fn initial() -> MachineView {
    MachineView {
        state: State::LookingForRedish,
        palette: Seq::empty(),
        current_colour: (0u8, 0u8, 0u8, 0u8),
        palette_index: 0,
        row_index: 0,
        block_confidence: 0,
        row_confidence: 0,
    }
}

/// The parser with both confidences reset.
pub open spec fn reset(m: MachineView) -> MachineView {
    MachineView { block_confidence: 0, row_confidence: 0, ..m }
}

/// Take in a pixel: it becomes the current colour, the confidences grow, and the result says
/// whether the parser stands at a state boundary.
pub open spec fn detect(m: MachineView, p: Pixel) -> (MachineView, bool) {
    let prev = m.current_colour;
    let m1 = MachineView { current_colour: p, ..m };
    if m.state is LookingForRedish {
        if prev == redish(m.row_index) && p == redish(m.row_index) {
            let rc = m.row_confidence + 1;
            (MachineView { row_confidence: rc, ..m1 }, rc > COLOUR_CONFIDENCE)
        } else {
            (m1, false)
        }
    } else if m.block_confidence == 0 {
        if !same_colour(p, prev) {
            (MachineView { block_confidence: 1, ..m1 }, false)
        } else {
            (m1, false)
        }
    } else {
        let bc = if same_colour(p, prev) {
            m.block_confidence + 1
        } else {
            m.block_confidence
        };
        (MachineView { block_confidence: bc, ..m1 }, bc > COLOUR_CONFIDENCE)
    }
}

/// One transition of the parser on a pixel. The flag says whether the palette is complete.
pub open spec fn step(m: MachineView, p: Pixel) -> (MachineView, bool) {
    let (m1, is_transition) = detect(m, p);
    if !is_transition {
        (m1, false)
    } else {
        match m1.state {
            State::LookingForRedish => (reset(MachineView { state: State::LookingForBlue, ..m1 }), false),
            State::LookingForBlue => {
                let next = if p == pure_blue() {
                    State::LookingForFirstColourInRow
                } else {
                    State::LookingForRedish
                };
                (reset(MachineView { state: next, ..m1 }), false)
            },
            State::LookingForFirstColourInRow => (
                reset(
                    MachineView {
                        state: State::CollectingRow(0),
                        palette: m1.palette.push(rgb(p)),
                        palette_index: m1.palette_index + 1,
                        ..m1
                    },
                ),
                false,
            ),
            State::CollectingRow(column) => {
                if column + 1 >= PALETTE_ROW_SIZE {
                    (
                        reset(
                            MachineView {
                                state: State::LookingForRedish,
                                row_index: m1.row_index + 1,
                                ..m1
                            },
                        ),
                        false,
                    )
                } else {
                    let m2 = MachineView { palette: m1.palette.push(rgb(p)), ..m1 };
                    if m1.palette_index == 255 {
                        (m2, true)
                    } else {
                        (
                            reset(
                                MachineView {
                                    state: State::CollectingRow((column + 1) as u8),
                                    palette_index: m1.palette_index + 1,
                                    ..m2
                                },
                            ),
                            false,
                        )
                    }
                }
            },
        }
    }
}

/// The parser after the pixels, in order. The flag says whether the palette was completed, at
/// which point the remaining pixels are ignored.
pub open spec fn run(m: MachineView, pixels: Seq<Pixel>) -> (MachineView, bool)
    decreases pixels.len(),
{
    if pixels.len() == 0 {
        (m, false)
    } else {
        let (prev, done) = run(m, pixels.drop_last());
        if done {
            (prev, true)
        } else {
            step(prev, pixels.last())
        }
    }
}

/// The bookkeeping of the parser holds together.
pub open spec fn wf(m: MachineView) -> bool {
    &&& 0 <= m.row_confidence <= COLOUR_CONFIDENCE
    &&& 0 <= m.block_confidence <= COLOUR_CONFIDENCE
    &&& 0 <= m.row_index <= 15
    &&& 0 <= m.palette_index <= 255
    &&& m.palette.len() == m.palette_index
    &&& match m.state {
        State::CollectingRow(column) => column < PALETTE_ROW_SIZE && m.palette_index == 16
            * m.row_index + column + 1,
        _ => m.palette_index == 16 * m.row_index,
    }
}

/// The parse of a whole screenshot: `Some` palette once all 256 colours are found.
pub open spec fn parse_result(pixels: Seq<Pixel>) -> Result<Seq<PaletteColour>, PaletteParseError> {
    let (m, done) = run(initial(), pixels);
    if done {
        Ok(m.palette)
    } else {
        Err(PaletteParseError::Incomplete { found: m.palette_index as u8 })
    }
}

/// A transition keeps the bookkeeping together, and completes only with a full palette.
pub proof fn lemma_step_wf(m: MachineView, p: Pixel)
    requires
        wf(m),
    ensures
        !step(m, p).1 ==> wf(step(m, p).0),
        step(m, p).1 ==> step(m, p).0.palette.len() == 256,
{
}

/// A transition only appends to the palette, whose entry `i` is the colour of palette index
/// `i`: the colours found so far never change, at most one colour is added, the index of the
/// next colour grows by at most one, the palette holds exactly the indices below it, and the
/// palette is complete, with all 256 indices, only when this transition found the colour of
/// index 255.
pub proof fn lemma_step_appends_only(m: MachineView, p: Pixel)
    requires
        wf(m),
    ensures
        step(m, p).0.palette.len() <= m.palette.len() + 1,
        step(m, p).0.palette.subrange(0, m.palette.len() as int) == m.palette,
        m.palette_index <= step(m, p).0.palette_index <= m.palette_index + 1,
        !step(m, p).1 ==> step(m, p).0.palette.len() == step(m, p).0.palette_index,
        step(m, p).1 ==> m.palette_index == 255 && m.palette.len() == 255 && step(m, p).0.palette.len()
            == 256,
{
    assert(m.palette.push(rgb(p)).subrange(0, m.palette.len() as int) =~= m.palette);
    assert(m.palette.subrange(0, m.palette.len() as int) =~= m.palette);
    lemma_step_wf(m, p);
}

/// Over any pixels, the palette only grows at its end: the colours found before stay as they
/// were, and the palette holds exactly the indices below the next one, or all 256 once
/// complete.
pub proof fn lemma_run_appends_only(m: MachineView, pixels: Seq<Pixel>)
    requires
        wf(m),
    ensures
        run(m, pixels).0.palette.len() >= m.palette.len(),
        run(m, pixels).0.palette.subrange(0, m.palette.len() as int) == m.palette,
        !run(m, pixels).1 ==> run(m, pixels).0.palette.len() == run(m, pixels).0.palette_index,
        run(m, pixels).1 ==> run(m, pixels).0.palette.len() == 256,
    decreases pixels.len(),
{
    if pixels.len() == 0 {
        assert(m.palette.subrange(0, m.palette.len() as int) =~= m.palette);
    } else {
        lemma_run_appends_only(m, pixels.drop_last());
        lemma_run_wf(m, pixels.drop_last());
        let (prev, done) = run(m, pixels.drop_last());
        if !done {
            lemma_step_appends_only(prev, pixels.last());
            let next = step(prev, pixels.last()).0;
            assert(next.palette.subrange(0, m.palette.len() as int) =~= next.palette.subrange(
                0,
                prev.palette.len() as int,
            ).subrange(0, m.palette.len() as int));
        }
    }
}

/// Every run keeps the bookkeeping together, and completes only with a full palette.
pub proof fn lemma_run_wf(m: MachineView, pixels: Seq<Pixel>)
    requires
        wf(m),
    ensures
        !run(m, pixels).1 ==> wf(run(m, pixels).0),
        run(m, pixels).1 ==> run(m, pixels).0.palette.len() == 256,
    decreases pixels.len(),
{
    if pixels.len() > 0 {
        lemma_run_wf(m, pixels.drop_last());
        let (prev, done) = run(m, pixels.drop_last());
        if !done {
            lemma_step_wf(prev, pixels.last());
        }
    }
}

/// Once complete, later pixels change nothing.
pub proof fn lemma_run_done_prefix(m: MachineView, pixels: Seq<Pixel>, i: int)
    requires
        0 <= i <= pixels.len(),
        run(m, pixels.take(i)).1,
    ensures
        run(m, pixels) == run(m, pixels.take(i)),
    decreases pixels.len() - i,
{
    if i < pixels.len() {
        assert(pixels.take(i + 1).drop_last() =~= pixels.take(i));
        lemma_run_done_prefix(m, pixels, i + 1);
    } else {
        assert(pixels.take(i) =~= pixels);
    }
}

/// Running over two pieces is running over the first, then over the second unless the first
/// completed the palette.
pub proof fn lemma_run_append(m: MachineView, s1: Seq<Pixel>, s2: Seq<Pixel>)
    ensures
        run(m, s1 + s2) == (if run(m, s1).1 {
            run(m, s1)
        } else {
            run(run(m, s1).0, s2)
        }),
    decreases s2.len(),
{
    if s2.len() == 0 {
        assert(s1 + s2 =~= s1);
    } else {
        lemma_run_append(m, s1, s2.drop_last());
        assert((s1 + s2).drop_last() =~= s1 + s2.drop_last());
        assert((s1 + s2).last() == s2.last());
    }
}

/// One more pixel of a block is one more step.
pub proof fn lemma_block_unfold(m: MachineView, p: Pixel, k: nat)
    ensures
        run(m, block(p, k + 1)) == (if run(m, block(p, k)).1 {
            run(m, block(p, k))
        } else {
            step(run(m, block(p, k)).0, p)
        }),
{
    assert(block(p, k + 1).drop_last() =~= block(p, k));
    assert(block(p, k + 1).last() == p);
}

/// A block splits into two blocks.
pub proof fn lemma_block_split(m: MachineView, p: Pixel, a: nat, b: nat)
    ensures
        run(m, block(p, a + b)) == (if run(m, block(p, a)).1 {
            run(m, block(p, a))
        } else {
            run(run(m, block(p, a)).0, block(p, b))
        }),
{
    assert(block(p, a + b) =~= block(p, a) + block(p, b));
    lemma_run_append(m, block(p, a), block(p, b));
}

/// More pixels of the current colour change nothing, once the confidences are settled.
pub proof fn lemma_block_skip(m: MachineView, p: Pixel, k: nat)
    requires
        m.current_colour == p,
        m.state is LookingForRedish ==> p != redish(m.row_index),
        !(m.state is LookingForRedish) ==> m.block_confidence == 0,
    ensures
        run(m, block(p, k)) == (m, false),
    decreases k,
{
    if k > 0 {
        lemma_block_skip(m, p, (k - 1) as nat);
        lemma_block_unfold(m, p, (k - 1) as nat);
        assert(colour_distance(p, p) == 0);
    } else {
        assert(block(p, 0) =~= Seq::<Pixel>::empty());
    }
}

/// Inside the grid, a block of a new colour makes its transition on its fourth pixel.
pub proof fn lemma_block_lossy(m: MachineView, p: Pixel, w: nat)
    requires
        w >= 4,
        !(m.state is LookingForRedish),
        m.block_confidence == 0,
        !same_colour(p, m.current_colour),
        ({
            let t = step(MachineView { current_colour: p, block_confidence: 3, ..m }, p);
            t.1 || (t.0.current_colour == p && t.0.block_confidence == 0 && (t.0.state is LookingForRedish ==> p != redish(t.0.row_index)))
        }),
    ensures
        run(m, block(p, w)) == step(MachineView { current_colour: p, block_confidence: 3, ..m }, p),
{
    assert(colour_distance(p, p) == 0);
    assert(block(p, 0) =~= Seq::<Pixel>::empty());
    lemma_block_unfold(m, p, 0);
    lemma_block_unfold(m, p, 1);
    lemma_block_unfold(m, p, 2);
    lemma_block_unfold(m, p, 3);
    let t = step(MachineView { current_colour: p, block_confidence: 3, ..m }, p);
    assert(run(m, block(p, 4)) == t);
    lemma_block_split(m, p, 4, (w - 4) as nat);
    if !t.1 {
        lemma_block_skip(t.0, p, (w - 4) as nat);
    }
    assert(4 + (w - 4) as nat == w);
}

/// Outside the grid, a block of the awaited row marker is recognised on its fifth pixel.
pub proof fn lemma_block_marker(m: MachineView, w: nat)
    requires
        w >= 5,
        m.state is LookingForRedish,
        m.row_confidence == 0,
        m.block_confidence == 0,
        m.current_colour != redish(m.row_index),
    ensures
        run(m, block(redish(m.row_index), w)) == (MachineView {
            state: State::LookingForBlue,
            current_colour: redish(m.row_index),
            ..m
        }, false),
{
    let p = redish(m.row_index);
    assert(colour_distance(p, p) == 0);
    assert(block(p, 0) =~= Seq::<Pixel>::empty());
    lemma_block_unfold(m, p, 0);
    lemma_block_unfold(m, p, 1);
    lemma_block_unfold(m, p, 2);
    lemma_block_unfold(m, p, 3);
    lemma_block_unfold(m, p, 4);
    let t = MachineView { state: State::LookingForBlue, current_colour: p, ..m };
    assert(run(m, block(p, 5)) == (t, false));
    lemma_block_split(m, p, 5, (w - 5) as nat);
    lemma_block_skip(t, p, (w - 5) as nat);
    assert(5 + (w - 5) as nat == w);
}

/// The colours of the grid are told apart within the noise level: neighbours in a row differ,
/// the first colour of a row differs from the pure blue before it, and the last colour of a row
/// differs from the border after it.
pub open spec fn lossily_distinguishable(colours: Seq<PaletteColour>, sep: Pixel) -> bool {
    &&& forall|r: int| 0 <= r < 16 ==> !same_colour(#[trigger] colour_pixel(colours[16 * r]), pure_blue())
    &&& forall|r: int| 0 <= r < 15 ==> !same_colour(sep, #[trigger] colour_pixel(colours[16 * r + 15]))
    &&& forall|i: int|
        0 <= i < 255 && #[trigger] (i % 16) != 15 ==> !same_colour(
            colour_pixel(colours[i + 1]),
            colour_pixel(colours[i]),
        )
}

/// The parser waiting for the red marker of palette row `row`.
pub open spec fn row_start(colours: Seq<PaletteColour>, row: int, current: Pixel) -> MachineView {
    MachineView {
        state: State::LookingForRedish,
        palette: colours.take(16 * row),
        current_colour: current,
        palette_index: 16 * row,
        row_index: row,
        block_confidence: 0,
        row_confidence: 0,
    }
}

/// The parser right after the pure blue of palette row `row`.
pub open spec fn first_colour(colours: Seq<PaletteColour>, row: int) -> MachineView {
    MachineView {
        state: State::LookingForFirstColourInRow,
        palette: colours.take(16 * row),
        current_colour: pure_blue(),
        palette_index: 16 * row,
        row_index: row,
        block_confidence: 0,
        row_confidence: 0,
    }
}

/// The parser after the first `k` colours of palette row `row`.
pub open spec fn collected(colours: Seq<PaletteColour>, row: int, k: int) -> MachineView {
    MachineView {
        state: State::CollectingRow((k - 1) as u8),
        palette: colours.take(16 * row + k),
        current_colour: colour_pixel(colours[16 * row + k - 1]),
        palette_index: 16 * row + k,
        row_index: row,
        block_confidence: 0,
        row_confidence: 0,
    }
}

/// The colour blocks of a row are collected one by one.
pub proof fn lemma_colour_blocks(colours: Seq<PaletteColour>, sep: Pixel, row: int, k: nat, w: nat)
    requires
        colours.len() == 256,
        lossily_distinguishable(colours, sep),
        0 <= row < 16,
        1 <= k <= 16,
        w >= 5,
    ensures
        16 * row + k - 1 < 255 ==> run(first_colour(colours, row), colour_blocks(colours, 16 * row, k, w)) == (collected(colours, row, k as int), false),
        16 * row + k - 1 == 255 ==> run(first_colour(colours, row), colour_blocks(colours, 16 * row, k, w)).1
            && run(first_colour(colours, row), colour_blocks(colours, 16 * row, k, w)).0.palette =~= colours,
    decreases k,
{
    let m0 = first_colour(colours, row);
    let p = colour_pixel(colours[16 * row + k - 1]);
    if k == 1 {
        assert(colour_blocks(colours, 16 * row, 1, w) =~= block(p, w)) by {
            assert(colour_blocks(colours, 16 * row, 0, w) =~= Seq::<Pixel>::empty());
        }
        assert(!same_colour(colour_pixel(colours[16 * row]), pure_blue()));
        assert(colours.take(16 * row).push(colours[16 * row]) =~= colours.take(16 * row + 1));
        lemma_block_lossy(m0, p, w);
    } else {
        let prev_k = (k - 1) as nat;
        lemma_colour_blocks(colours, sep, row, prev_k, w);
        let mk = collected(colours, row, prev_k as int);
        lemma_run_append(m0, colour_blocks(colours, 16 * row, prev_k, w), block(p, w));
        let i = 16 * row + k - 2;
        assert(i % 16 == k - 2) by (nonlinear_arith)
            requires i == 16 * row + k - 2, 2 <= k <= 16;
        assert(!same_colour(colour_pixel(colours[i + 1]), colour_pixel(colours[i])));
        assert(colours.take(16 * row + k - 1).push(colours[16 * row + k - 1]) =~= colours.take(
            16 * row + k,
        ));
        lemma_block_lossy(mk, p, w);
        if 16 * row + k - 1 == 255 {
            assert(colours.take(256) =~= colours);
        }
    }
}

/// A whole pixel row of the grid collects the 16 colours of its palette row.
pub proof fn lemma_row(colours: Seq<PaletteColour>, row: int, current: Pixel, w: nat, sep: Pixel)
    requires
        colours.len() == 256,
        lossily_distinguishable(colours, sep),
        0 <= row < 16,
        w >= 5,
        sep.3 != 255,
        current.3 != 255,
    ensures
        row < 15 ==> run(row_start(colours, row, current), row_pixels(colours, row, w, sep)) == (
        row_start(colours, row + 1, sep), false),
        row == 15 ==> run(row_start(colours, row, current), row_pixels(colours, row, w, sep)).1
            && run(row_start(colours, row, current), row_pixels(colours, row, w, sep)).0.palette
            =~= colours,
{
    let m0 = row_start(colours, row, current);
    let reds = block(redish(row), w);
    let blues = block(pure_blue(), w);
    let cols = colour_blocks(colours, 16 * row, 16, w);
    let seps = block(sep, w);
    assert(row_pixels(colours, row, w, sep) =~= reds + (blues + (cols + seps)));
    // The red marker opens the row.
    lemma_block_marker(m0, w);
    let m1 = MachineView { state: State::LookingForBlue, current_colour: redish(row), ..m0 };
    lemma_run_append(m0, reds, blues + (cols + seps));
    // The pure blue confirms it.
    assert(colour_distance(pure_blue(), redish(row)) >= 4);
    lemma_block_lossy(m1, pure_blue(), w);
    assert(run(m1, blues) == (first_colour(colours, row), false));
    lemma_run_append(m1, blues, cols + seps);
    // The 16 colours.
    lemma_colour_blocks(colours, sep, row, 16, w);
    lemma_run_append(first_colour(colours, row), cols, seps);
    if row < 15 {
        // The border ends the row.
        let m3 = collected(colours, row, 16);
        assert(!same_colour(sep, colour_pixel(colours[16 * row + 15])));
        lemma_block_lossy(m3, sep, w);
        assert(colours.take(16 * row + 16) =~= colours.take(16 * (row + 1)));
    }
}

/// The first rows of the grid collect the first palette rows.
pub proof fn lemma_grid(colours: Seq<PaletteColour>, rows: nat, w: nat, sep: Pixel)
    requires
        colours.len() == 256,
        lossily_distinguishable(colours, sep),
        rows <= 16,
        w >= 5,
        sep.3 != 255,
    ensures
        rows < 16 ==> run(initial(), grid_pixels(colours, rows, w, sep)) == (row_start(
            colours,
            rows as int,
            if rows == 0 {
                (0u8, 0u8, 0u8, 0u8)
            } else {
                sep
            },
        ), false),
        rows == 16 ==> run(initial(), grid_pixels(colours, rows, w, sep)).1 && run(
            initial(),
            grid_pixels(colours, rows, w, sep),
        ).0.palette =~= colours,
    decreases rows,
{
    if rows == 0 {
        assert(colours.take(0) =~= Seq::<PaletteColour>::empty());
        assert(initial() == row_start(colours, 0, (0u8, 0u8, 0u8, 0u8)));
    } else {
        let r = (rows - 1) as nat;
        lemma_grid(colours, r, w, sep);
        let current = if r == 0 {
            (0u8, 0u8, 0u8, 0u8)
        } else {
            sep
        };
        lemma_run_append(initial(), grid_pixels(colours, r, w, sep), row_pixels(colours, r as int, w, sep));
        lemma_row(colours, r as int, current, w, sep);
    }
}

/// A screenshot of the printed palette grid parses back into the palette it shows, whatever the
/// width of its cells (from 5 pixels), as long as neighbouring colours are further apart than
/// the noise level.
pub proof fn lemma_parse_screenshot_of_grid(colours: Seq<PaletteColour>, w: nat, sep: Pixel)
    requires
        colours.len() == 256,
        lossily_distinguishable(colours, sep),
        w >= 5,
        sep.3 != 255,
    ensures
        parse_result(screenshot_of(colours, w, sep)) == Ok::<Seq<PaletteColour>, PaletteParseError>(colours),
{
    lemma_grid(colours, 16, w, sep);
}

impl Machine {
    /// Parse the raw pixels of a screenshot, in row-major order, looking for the QR Code-like
    /// print out of all the colours from the current terminal's palette.
    pub fn parse_screenshot(image: &Vec<Pixel>) -> (res: Result<Vec<PaletteColour>, PaletteParseError>)
        ensures
            match res {
                Ok(palette) => parse_result(image@) == Ok::<Seq<PaletteColour>, PaletteParseError>(palette@),
                Err(e) => parse_result(image@) == Err::<Seq<PaletteColour>, PaletteParseError>(e),
            },
    {
        let mut machine = Machine {
            state: State::LookingForRedish,
            palette: Vec::new(),
            current_colour: (0, 0, 0, 0),
            palette_index: 0,
            row_index: 0,
            block_confidence: 0,
            row_confidence: 0,
        };
        let n = image.len();
        let mut i: usize = 0;
        assert(image@.take(0) =~= Seq::<Pixel>::empty());
        while i < n
            invariant
                n == image@.len(),
                0 <= i <= n,
                wf(machine@),
                run(initial(), image@.take(i as int)) == (machine@, false),
            decreases n - i,
        {
            let pixel = image[i];
            assert(image@.take(i + 1).drop_last() =~= image@.take(i as int));
            assert(image@.take(i + 1).last() == pixel);
            let is_finished = machine.state_transition(pixel);
            if is_finished {
                proof {
                    lemma_run_done_prefix(initial(), image@, i + 1);
                }
                return Ok(machine.palette);
            }
            i = i + 1;
        }
        assert(image@.take(n as int) =~= image@);
        Err(PaletteParseError::Incomplete { found: machine.palette_index })
    }

    /// Is the parser in a known pure red block at the start of a palette row?
    fn is_row_start_redish(&mut self, previous_colour: Pixel) -> (res: bool)
        requires
            old(self)@.row_confidence <= COLOUR_CONFIDENCE,
        ensures
            ({
                let rc_up = previous_colour == redish(old(self)@.row_index) && old(
                    self,
                )@.current_colour == redish(old(self)@.row_index);
                &&& final(self)@ == MachineView {
                    row_confidence: if rc_up {
                        old(self)@.row_confidence + 1
                    } else {
                        old(self)@.row_confidence
                    },
                    ..old(self)@
                }
                &&& res == (rc_up && old(self)@.row_confidence + 1 > COLOUR_CONFIDENCE)
            }),
    {
        let redish_row_start = redish_pixel(self.row_index);
        if !(pixel_eq(previous_colour, redish_row_start) && pixel_eq(
            self.current_colour,
            redish_row_start,
        )) {
            return false;
        }
        self.row_confidence = self.row_confidence + 1;
        self.row_confidence > COLOUR_CONFIDENCE
    }

    /// Have we moved into a new palette block?
    fn is_new_palette_block(&mut self, previous_colour: Pixel) -> (res: bool)
        requires
            old(self)@.block_confidence <= COLOUR_CONFIDENCE,
        ensures
            ({
                let same = same_colour(old(self)@.current_colour, previous_colour);
                let bc = old(self)@.block_confidence;
                let new_bc = if bc == 0 {
                    if !same {
                        1
                    } else {
                        0
                    }
                } else if same {
                    bc + 1
                } else {
                    bc
                };
                &&& final(self)@ == MachineView { block_confidence: new_bc, ..old(self)@ }
                &&& res == (bc != 0 && new_bc > COLOUR_CONFIDENCE)
            }),
    {
        if self.block_confidence == 0 {
            if !self.is_same_colour(previous_colour) {
                self.block_confidence = self.block_confidence + 1;
            }
            return false;
        }
        if self.is_same_colour(previous_colour) {
            self.block_confidence = self.block_confidence + 1;
        }
        self.block_confidence > COLOUR_CONFIDENCE
    }

    /// Calculate a crude difference metric for 2 colours.
    fn colour_difference(&self, colour: Pixel) -> (res: u16)
        ensures
            res == colour_distance(self.current_colour, colour),
    {
        let mut difference: u16 = 0;
        difference = difference + Self::channel_difference(self.current_colour, colour, 0);
        difference = difference + Self::channel_difference(self.current_colour, colour, 1);
        difference = difference + Self::channel_difference(self.current_colour, colour, 2);
        difference
    }

    /// The difference between a single channel of 2 colours.
    fn channel_difference(left: Pixel, right: Pixel, channel: usize) -> (res: u16)
        requires
            channel < 3,
        ensures
            channel == 0 ==> res == abs_diff(left.0, right.0),
            channel == 1 ==> res == abs_diff(left.1, right.1),
            channel == 2 ==> res == abs_diff(left.2, right.2),
    {
        let (a, b) = if channel == 0 {
            (left.0, right.0)
        } else if channel == 1 {
            (left.1, right.1)
        } else {
            (left.2, right.2)
        };
        if a >= b {
            (a - b) as u16
        } else {
            (b - a) as u16
        }
    }

    /// Within our defined noise levels, is the new colour the same as the current colour?
    fn is_same_colour(&self, colour: Pixel) -> (res: bool)
        ensures
            res == same_colour(self.current_colour, colour),
    {
        let difference = self.colour_difference(colour);
        difference < MAX_LOSSY_NOISE_LEVEL
    }

    /// Is the new pixel at the boundary of a state change? Like entering/exiting the palette
    /// grid, starting a new palette block etc.
    fn is_transition(&mut self, pixel_colour: Pixel) -> (res: bool)
        requires
            wf(old(self)@),
        ensures
            (final(self)@, res) == detect(old(self)@, pixel_colour),
    {
        let previous_colour = self.current_colour;
        self.current_colour = pixel_colour;
        let is_redish_state = match self.state {
            State::LookingForRedish => true,
            _ => false,
        };
        if is_redish_state {
            if !self.is_row_start_redish(previous_colour) {
                return false;
            }
        } else {
            if !self.is_new_palette_block(previous_colour) {
                return false;
            }
        }
        true
    }

    /// Transition the state machine. Returns whether the palette is complete.
    fn state_transition(&mut self, pixel_colour: Pixel) -> (res: bool)
        requires
            wf(old(self)@),
        ensures
            (final(self)@, res) == step(old(self)@, pixel_colour),
            !res ==> wf(final(self)@),
    {
        proof {
            lemma_step_wf(self@, pixel_colour);
        }
        let ghost start = self@;
        if !self.is_transition(pixel_colour) {
            return false;
        }
        match self.state {
            State::LookingForRedish => {
                self.state = State::LookingForBlue;
            },
            State::LookingForBlue => {
                if pixel_eq(self.current_colour, pure_blue_pixel()) {
                    self.state = State::LookingForFirstColourInRow;
                } else {
                    self.state = State::LookingForRedish;
                }
            },
            State::LookingForFirstColourInRow => {
                self.state = State::CollectingRow(0);
                self.palette.push(pixel_rgb(self.current_colour));
                self.palette_index = self.palette_index + 1;
            },
            State::CollectingRow(column_index) => {
                let new_column = column_index + 1;
                if new_column >= PALETTE_ROW_SIZE {
                    self.row_index = self.row_index + 1;
                    self.state = State::LookingForRedish;
                } else {
                    self.palette.push(pixel_rgb(self.current_colour));
                    if self.palette_index == 255 {
                        return true;
                    }
                    self.palette_index = self.palette_index + 1;
                    self.state = State::CollectingRow(new_column);
                }
            },
        }
        self.block_confidence = 0;
        self.row_confidence = 0;
        false
    }
}

} // verus!
