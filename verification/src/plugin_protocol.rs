//! The types that a plugin needs to function, and what the bundled plugins do with them.
//!
//! Colours are a type parameter: the application fills them with RGBA tuples and serialises
//! the messages as JSON lines.
use crate::util::spec_is_whitespace;
use vstd::prelude::*;

verus! {

/// A single cell in the terminal.
#[derive(Copy, Debug, PartialEq, Eq)]
pub struct Cell<C> {
    /// The character in the cell.
    pub character: char,
    /// The column and row of the cell.
    pub coordinates: (u32, u32),
    /// The background colour, if any.
    pub bg: Option<C>,
    /// The foreground colour, if any.
    pub fg: Option<C>,
}

/// A single pixel: half a cell.
#[derive(Copy, Debug, PartialEq, Eq)]
pub struct Pixel<C> {
    /// The column and the pixel row (twice the cell rows).
    pub coordinates: (u32, u32),
    /// The colour, if any.
    pub color: Option<C>,
}

/// Messages that Tattoy sends to plugins.
#[derive(Debug)]
pub enum PluginInputMessages<C> {
    /// The contents of the user's terminal.
    PTYUpdate { size: (u16, u16), cells: Vec<Cell<C>>, cursor: (u16, u16) },
    /// The user's terminal was resized.
    TTYResize { width: u16, height: u16 },
}

/// Messages that plugins send to Tattoy.
#[derive(Debug)]
pub enum PluginOutputMessages<C> {
    /// Text at the given coordinates.
    OutputText { text: String, coordinates: (u32, u32), bg: Option<C>, fg: Option<C> },
    /// Individual cells.
    OutputCells(Vec<Cell<C>>),
    /// Individual pixels.
    OutputPixels(Vec<Pixel<C>>),
}

impl<C: Copy> Clone for Cell<C> {
    fn clone(&self) -> (res: Self)
        ensures
            res == *self,
    {
        *self
    }
}

impl<C: Copy> Clone for Pixel<C> {
    fn clone(&self) -> (res: Self)
        ensures
            res == *self,
    {
        *self
    }
}

/// A cell turned upside down and back to front on a terminal of the given size.
pub open spec fn inverted<C>(size: (u16, u16), cell: Cell<C>) -> Cell<C> {
    Cell {
        coordinates: (
            (size.0 - cell.coordinates.0 - 1) as u32,
            (size.1 - cell.coordinates.1 - 1) as u32,
        ),
        ..cell
    }
}

/// The cell lies on a terminal of the given size.
pub open spec fn on_terminal<C>(size: (u16, u16), cell: Cell<C>) -> bool {
    cell.coordinates.0 < size.0 && cell.coordinates.1 < size.1
}

/// The inverter plugin: invert the user's terminal left-to-right, top-to-bottom. An empty
/// terminal gives nothing to send.
pub fn invert_cells<C: Copy>(size: (u16, u16), cells: &Vec<Cell<C>>) -> (res: Option<Vec<Cell<C>>>)
    requires
        forall|i: int| 0 <= i < cells@.len() ==> on_terminal(size, #[trigger] cells@[i]),
    ensures
        size.0 == 0 || size.1 == 0 <==> res is None,
        res matches Some(out) ==> out@ == cells@.map_values(|cell: Cell<C>| inverted(size, cell)),
{
    if size.0 == 0 || size.1 == 0 {
        return None;
    }
    let tty_width: u32 = size.0 as u32;
    let tty_height: u32 = size.1 as u32;
    let mut out: Vec<Cell<C>> = Vec::new();
    let mut i: usize = 0;
    while i < cells.len()
        invariant
            forall|j: int| 0 <= j < cells@.len() ==> on_terminal(size, #[trigger] cells@[j]),
            tty_width == size.0,
            tty_height == size.1,
            0 <= i <= cells@.len(),
            out@ == cells@.take(i as int).map_values(|cell: Cell<C>| inverted(size, cell)),
        decreases cells@.len() - i,
    {
        let incoming = cells[i];
        assert(on_terminal(size, cells@[i as int]));
        let outgoing = Cell {
            character: incoming.character,
            coordinates: (
                tty_width - incoming.coordinates.0 - 1,
                tty_height - incoming.coordinates.1 - 1,
            ),
            bg: incoming.bg,
            fg: incoming.fg,
        };
        out.push(outgoing);
        i = i + 1;
        assert(out@ =~= cells@.take(i as int).map_values(|cell: Cell<C>| inverted(size, cell)));
    }
    assert(cells@.take(i as int) =~= cells@);
    Some(out)
}

/// Inverting twice gives back the terminal as it was.
pub proof fn lemma_invert_twice<C>(size: (u16, u16), cell: Cell<C>)
    requires
        on_terminal(size, cell),
    ensures
        on_terminal(size, inverted(size, cell)),
        inverted(size, inverted(size, cell)) == cell,
{
}

/// The cells of a row of the terminal that a plugin is told about: those with text that is
/// not a single space, each with the first character of its text.
pub open spec fn visible_cells<C>(screen: Seq<Seq<(Seq<char>, C, C)>>) -> Seq<Cell<C>>
    decreases screen.len(),
{
    if screen.len() == 0 {
        Seq::empty()
    } else {
        let y = screen.len() - 1;
        visible_cells(screen.drop_last()) + visible_row(screen.last(), y)
    }
}

/// The cells of one row that a plugin is told about.
#[verifier::opaque]
pub open spec fn visible_row<C>(row: Seq<(Seq<char>, C, C)>, y: int) -> Seq<Cell<C>>
    decreases row.len(),
{
    if row.len() == 0 {
        Seq::empty()
    } else {
        let x = row.len() - 1;
        let (text, bg, fg) = row.last();
        visible_row(row.drop_last(), y) + if text.len() == 0 || text == seq![' '] {
            Seq::empty()
        } else {
            seq![Cell { character: text[0], coordinates: (x as u32, y as u32), bg: Some(bg), fg: Some(fg) }]
        }
    }
}

/// The cell that a plugin is told about for a cell's text, if any.
pub open spec fn visible_cell<C>(cell: (Seq<char>, C, C), x: int, y: int) -> Seq<Cell<C>> {
    let (text, bg, fg) = cell;
    if text.len() == 0 || text == seq![' '] {
        Seq::empty()
    } else {
        seq![Cell { character: text[0], coordinates: (x as u32, y as u32), bg: Some(bg), fg: Some(fg) }]
    }
}

/// A row's visible cells grow cell by cell.
proof fn lemma_visible_row_step<C>(cells: Seq<(Seq<char>, C, C)>, x: int, y: int)
    requires
        0 <= x < cells.len(),
    ensures
        visible_row(cells.take(x + 1), y) == visible_row(cells.take(x), y) + visible_cell(cells[x], x, y),
        visible_row(Seq::<(Seq<char>, C, C)>::empty(), y) == Seq::<Cell<C>>::empty(),
{
    reveal(visible_row);
    assert(cells.take(x + 1).drop_last() =~= cells.take(x));
    assert(cells.take(x + 1).last() == cells[x]);
}

/// Append one cell.
fn push_one<C: Copy>(out: &mut Vec<Cell<C>>, c: Cell<C>)
    ensures
        final(out)@ == old(out)@ + seq![c],
{
    out.push(c);
    assert(out@ =~= old(out)@ + seq![c]);
}

/// The cells of one row that a plugin is told about, appended to `out`.
fn push_visible_row<C: Copy>(out: &mut Vec<Cell<C>>, row: &Vec<(Vec<char>, C, C)>, y: usize)
    requires
        row@.len() <= u32::MAX + 1,
        y <= u32::MAX,
    ensures
        final(out)@ == old(out)@ + visible_row(
            row@.map_values(|cell: (Vec<char>, C, C)| (cell.0@, cell.1, cell.2)),
            y as int,
        ),
{
    let ghost cells = row@.map_values(|cell: (Vec<char>, C, C)| (cell.0@, cell.1, cell.2));
    let mut x: usize = 0;
    proof {
        reveal(visible_row);
        assert(cells.take(0) =~= Seq::<(Seq<char>, C, C)>::empty());
        assert(old(out)@ + Seq::<Cell<C>>::empty() =~= old(out)@);
    }
    while x < row.len()
        invariant
            cells == row@.map_values(|cell: (Vec<char>, C, C)| (cell.0@, cell.1, cell.2)),
            row@.len() <= u32::MAX + 1,
            y <= u32::MAX,
            0 <= x <= row@.len(),
            out@ == old(out)@ + visible_row(cells.take(x as int), y as int),
        decreases row@.len() - x,
    {
        let text = &row[x].0;
        let bg = row[x].1;
        let fg = row[x].2;
        let is_blank = text.len() == 0 || (text.len() == 1 && text[0] == ' ');
        proof {
            if text@.len() == 1 && text@[0] == ' ' {
                assert(text@ =~= seq![' ']);
            }
            if text@.len() == 1 && text@[0] != ' ' {
                assert(text@[0] != seq![' '][0]);
            }
            if text@.len() > 1 {
                assert(text@.len() != seq![' '].len());
            }
        }
        let ghost prev = out@;
        proof {
            lemma_visible_row_step(cells, x as int, y as int);
        }
        let ghost added = visible_cell(cells[x as int], x as int, y as int);
        assert(cells[x as int] == (text@, bg, fg));
        if !is_blank {
            let cx: u32 = x as u32;
            let cy: u32 = y as u32;
            let c = Cell { character: text[0], coordinates: (cx, cy), bg: Some(bg), fg: Some(fg) };
            assert(added == seq![c]);
            push_one(out, c);
        } else {
            assert(added == Seq::<Cell<C>>::empty());
            assert(prev + added =~= prev);
        }
        x = x + 1;
        assert(out@ =~= old(out)@ + visible_row(cells.take(x as int), y as int));
    }
    assert(cells.take(x as int) =~= cells);
}

/// The terminal's cells that a plugin is told about, from the text and the true colour
/// background and foreground of each cell, row by row.
pub fn pty_update_cells<C: Copy>(screen: &Vec<Vec<(Vec<char>, C, C)>>) -> (res: Vec<Cell<C>>)
    requires
        screen@.len() <= u32::MAX + 1,
        forall|y: int| 0 <= y < screen@.len() ==> #[trigger] screen@[y]@.len() <= u32::MAX + 1,
    ensures
        res@ == visible_cells(
            screen@.map_values(
                |row: Vec<(Vec<char>, C, C)>|
                    row@.map_values(|cell: (Vec<char>, C, C)| (cell.0@, cell.1, cell.2)),
            ),
        ),
{
    let ghost rows = screen@.map_values(
        |row: Vec<(Vec<char>, C, C)>| row@.map_values(|cell: (Vec<char>, C, C)| (cell.0@, cell.1, cell.2)),
    );
    let mut out: Vec<Cell<C>> = Vec::new();
    let mut y: usize = 0;
    while y < screen.len()
        invariant
            rows == screen@.map_values(
                |row: Vec<(Vec<char>, C, C)>|
                    row@.map_values(|cell: (Vec<char>, C, C)| (cell.0@, cell.1, cell.2)),
            ),
            screen@.len() <= u32::MAX + 1,
            forall|r: int| 0 <= r < screen@.len() ==> #[trigger] screen@[r]@.len() <= u32::MAX + 1,
            0 <= y <= screen@.len(),
            out@ == visible_cells(rows.take(y as int)),
        decreases screen@.len() - y,
    {
        push_visible_row(&mut out, &screen[y], y);
        assert(rows.take(y + 1).drop_last() =~= rows.take(y as int));
        y = y + 1;
    }
    assert(rows.take(y as int) =~= rows);
    out
}

} // verus!
