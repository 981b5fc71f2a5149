//! Reading text off the screen of a steppable terminal: a headless terminal that tests and
//! tools drive step by step.
//!
//! The terminal itself runs in the application. Here its screen is a grid of visible cells,
//! each with its text, where a cell may be missing; the size it reports; and how far its
//! history is scrolled.
use crate::util::{spec_is_whitespace, is_whitespace};
use vstd::prelude::*;

verus! {

/// A snapshot of a terminal's screen.
pub struct ScreenSnapshot {
    /// The number of rows the terminal reports.
    pub rows: usize,
    /// The number of columns the terminal reports.
    pub cols: usize,
    /// The scrollback position: the first row of the screen that is read.
    pub scrollback: usize,
    /// The visible cells, row by row: each cell's text; a row may have fewer cells.
    pub cells: Vec<Vec<Vec<char>>>,
}

/// The text of the cell at column `x` of row `y`, if the screen has that cell.
pub open spec fn cell_at(cells: Seq<Seq<Seq<char>>>, x: int, y: int) -> Option<Seq<char>> {
    if 0 <= y < cells.len() && 0 <= x < cells[y].len() {
        Some(cells[y][x])
    } else {
        None
    }
}

/// The text of the first `x` cells of a row.
pub open spec fn row_text(cells: Seq<Seq<Seq<char>>>, y: int, x: int) -> Seq<char>
    decreases x,
{
    if x <= 0 {
        Seq::empty()
    } else {
        row_text(cells, y, x - 1) + match cell_at(cells, x - 1, y) {
            Some(t) => t,
            None => Seq::empty(),
        }
    }
}

/// The text of rows `from` up to `to`, each followed by a newline.
pub open spec fn rows_text(cells: Seq<Seq<Seq<char>>>, from: int, to: int, cols: int) -> Seq<char>
    decreases to - from,
{
    if to <= from {
        Seq::empty()
    } else {
        rows_text(cells, from, to - 1, cols) + row_text(cells, to - 1, cols) + seq!['\n']
    }
}

/// The first place, row by row, among the first `n` places of the screen where a cell holds
/// exactly the given text.
pub open spec fn find_in_places(cells: Seq<Seq<Seq<char>>>, cols: int, content: Seq<char>, n: int) -> Option<(usize, usize)>
    decreases n,
{
    if n <= 0 {
        None
    } else {
        match find_in_places(cells, cols, content, n - 1) {
            Some(p) => Some(p),
            None => {
                let y = (n - 1) / cols;
                let x = (n - 1) % cols;
                if cell_at(cells, x, y) == Some(content) {
                    Some((x as usize, y as usize))
                } else {
                    None
                }
            },
        }
    }
}

/// The cells' texts as values.
pub open spec fn cells_view(cells: Seq<Vec<Vec<char>>>) -> Seq<Seq<Seq<char>>> {
    cells.map_values(|row: Vec<Vec<char>>| row@.map_values(|cell: Vec<char>| cell@))
}

/// The text of the cells at columns `x` up to `x + n` of screen row `y`, skipping missing ones.
pub open spec fn string_at(s: ScreenSnapshot, x: int, y: int, n: int) -> Seq<char>
    decreases n,
{
    if n <= 0 {
        Seq::empty()
    } else {
        string_at(s, x, y, n - 1) + match shown_cell(s, x + n - 1, y) {
            Some(t) => t,
            None => Seq::empty(),
        }
    }
}

/// The cell at column `x` of row `y` counted from the scrollback position, when it lies on
/// the screen.
pub open spec fn shown_cell(s: ScreenSnapshot, x: int, y: int) -> Option<Seq<char>> {
    let row = y + s.scrollback;
    if 0 <= x < s.cols && 0 <= y && row < s.rows {
        cell_at(cells_view(s.cells@), x, row)
    } else {
        None
    }
}

/// The characters of a text that are not white space.
pub open spec fn without_whitespace(s: Seq<char>) -> Seq<char>
    decreases s.len(),
{
    if s.len() == 0 {
        Seq::empty()
    } else if spec_is_whitespace(s.last()) {
        without_whitespace(s.drop_last())
    } else {
        without_whitespace(s.drop_last()).push(s.last())
    }
}

/// Append a text.
fn push_text(out: &mut Vec<char>, text: &Vec<char>)
    ensures
        final(out)@ == old(out)@ + text@,
{
    let mut i: usize = 0;
    while i < text.len()
        invariant
            0 <= i <= text@.len(),
            out@ == old(out)@ + text@.take(i as int),
        decreases text@.len() - i,
    {
        out.push(text[i]);
        i = i + 1;
        assert(out@ =~= old(out)@ + text@.take(i as int));
    }
    assert(text@.take(i as int) =~= text@);
}

/// Whether two texts are equal.
fn same_text(a: &Vec<char>, b: &[char]) -> (res: bool)
    ensures
        res == (a@ == b@),
{
    if a.len() != b.len() {
        return false;
    }
    let mut i: usize = 0;
    while i < a.len()
        invariant
            a@.len() == b@.len(),
            0 <= i <= a@.len(),
            forall|j: int| 0 <= j < i ==> a@[j] == b@[j],
        decreases a@.len() - i,
    {
        if a[i] != b[i] {
            return false;
        }
        i = i + 1;
    }
    assert(a@ =~= b@);
    true
}

/// The places of a grid, row by row.
proof fn lemma_place(y: int, x: int, cols: int)
    requires
        0 <= y,
        0 <= x < cols,
    ensures
        (y * cols + x) / cols == y,
        (y * cols + x) % cols == x,
        (y + 1) * cols == y * cols + cols,
{
    assert((y * cols + x) / cols == y) by (nonlinear_arith)
        requires
            0 <= y,
            0 <= x < cols,
    ;
    assert((y * cols + x) % cols == x) by (nonlinear_arith)
        requires
            0 <= y,
            0 <= x < cols,
    ;
    assert((y + 1) * cols == y * cols + cols) by (nonlinear_arith);
}

impl ScreenSnapshot {
    /// The cell at a column and row of the grid, if the screen has it.
    fn get_cell(&self, x: usize, y: usize) -> (res: Option<&Vec<char>>)
        ensures
            match res {
                Some(t) => cell_at(cells_view(self.cells@), x as int, y as int) == Some(t@),
                None => cell_at(cells_view(self.cells@), x as int, y as int) is None,
            },
    {
        if y < self.cells.len() && x < self.cells[y].len() {
            Some(&self.cells[y][x])
        } else {
            None
        }
    }

    /// The screen as text: the rows from the scrollback position on, each with the text of
    /// its cells and a newline.
    pub fn screen_as_string(&self) -> (res: Vec<char>)
        ensures
            res@ == rows_text(cells_view(self.cells@), self.scrollback as int, self.rows as int, self.cols as int),
    {
        let ghost cells = cells_view(self.cells@);
        let mut output: Vec<char> = Vec::new();
        let mut y: usize = self.scrollback;
        if y > self.rows {
            return output;
        }
        while y < self.rows
            invariant
                cells == cells_view(self.cells@),
                self.scrollback <= y <= self.rows,
                output@ == rows_text(cells, self.scrollback as int, y as int, self.cols as int),
            decreases self.rows - y,
        {
            let ghost before = output@;
            let mut x: usize = 0;
            while x < self.cols
                invariant
                    cells == cells_view(self.cells@),
                    self.scrollback <= y < self.rows,
                    0 <= x <= self.cols,
                    output@ == before + row_text(cells, y as int, x as int),
                decreases self.cols - x,
            {
                match self.get_cell(x, y) {
                    Some(text) => push_text(&mut output, text),
                    None => {},
                }
                x = x + 1;
                assert(output@ =~= before + row_text(cells, y as int, x as int));
            }
            output.push('\n');
            y = y + 1;
            assert(output@ =~= rows_text(cells, self.scrollback as int, y as int, self.cols as int));
        }
        output
    }

    /// The column and row of the first cell, row by row, that holds exactly the given text.
    pub fn get_coords_of_cell_by_content(&self, content: &[char]) -> (res: Option<(usize, usize)>)
        requires
            self.rows * self.cols <= usize::MAX,
        ensures
            res == find_in_places(
                cells_view(self.cells@),
                self.cols as int,
                content@,
                self.rows * self.cols,
            ),
    {
        let ghost cells = cells_view(self.cells@);
        let ghost c = self.cols as int;
        let mut y: usize = 0;
        while y < self.rows
            invariant
                cells == cells_view(self.cells@),
                c == self.cols,
                self.rows * self.cols <= usize::MAX,
                0 <= y <= self.rows,
                find_in_places(cells, c, content@, y * c) is None,
            decreases self.rows - y,
        {
            let mut x: usize = 0;
            while x < self.cols
                invariant
                    cells == cells_view(self.cells@),
                    c == self.cols,
                    self.rows * self.cols <= usize::MAX,
                    0 <= y < self.rows,
                    0 <= x <= self.cols,
                    find_in_places(cells, c, content@, y * c + x) is None,
                decreases self.cols - x,
            {
                proof {
                    lemma_place(y as int, x as int, c);
                    assert(0 <= y * c) by (nonlinear_arith)
                        requires
                            0 <= y,
                            0 <= c,
                    ;
                }
                match self.get_cell(x, y) {
                    Some(text) => {
                        if same_text(text, content) {
                            proof {
                                assert(y * c + x + 1 <= self.rows * c) by (nonlinear_arith)
                                    requires
                                        0 <= x < c,
                                        y + 1 <= self.rows,
                                ;
                                lemma_found_stays(cells, c, content@, y * c + x + 1, self.rows * c);
                            }
                            return Some((x, y));
                        }
                    },
                    None => {},
                }
                x = x + 1;
            }
            assert((y + 1) * c == y * c + c) by (nonlinear_arith);
            y = y + 1;
        }
        None
    }

    /// The cell at column `x` of row `y`, counted from the scrollback position.
    pub fn get_cell_at(&self, x: usize, y: usize) -> (res: Option<Vec<char>>)
        ensures
            match res {
                Some(t) => shown_cell(*self, x as int, y as int) == Some(t@),
                None => shown_cell(*self, x as int, y as int) is None,
            },
    {
        if x >= self.cols || self.scrollback >= self.rows || y >= self.rows - self.scrollback {
            return None;
        }
        match self.get_cell(x, y + self.scrollback) {
            Some(text) => Some(text.clone()),
            None => None,
        }
    }

    /// The text of the cells at columns `x` up to `x + length` of row `y`, counted from the
    /// scrollback position; missing cells add nothing.
    pub fn get_string_at(&self, x: usize, y: usize, length: usize) -> (res: Vec<char>)
        requires
            x + length <= usize::MAX,
        ensures
            res@ == string_at(*self, x as int, y as int, length as int),
    {
        let mut out: Vec<char> = Vec::new();
        let mut k: usize = 0;
        while k < length
            invariant
                x + length <= usize::MAX,
                0 <= k <= length,
                out@ == string_at(*self, x as int, y as int, k as int),
            decreases length - k,
        {
            match self.get_cell_at(x + k, y) {
                Some(text) => push_text(&mut out, &text),
                None => {},
            }
            k = k + 1;
            assert(out@ =~= string_at(*self, x as int, y as int, k as int));
        }
        out
    }

    /// The prompt of a shell: the screen's text without any white space.
    pub fn get_prompt_string(&self) -> (res: Vec<char>)
        ensures
            res@ == without_whitespace(
                rows_text(cells_view(self.cells@), self.scrollback as int, self.rows as int, self.cols as int),
            ),
    {
        let text = self.screen_as_string();
        let mut out: Vec<char> = Vec::new();
        let mut i: usize = 0;
        while i < text.len()
            invariant
                0 <= i <= text@.len(),
                out@ == without_whitespace(text@.take(i as int)),
            decreases text@.len() - i,
        {
            proof {
                assert(text@.take(i + 1).drop_last() =~= text@.take(i as int));
            }
            if !is_whitespace(text[i]) {
                out.push(text[i]);
            }
            i = i + 1;
        }
        assert(text@.take(i as int) =~= text@);
        out
    }
}

/// Once a cell is found, searching more places finds the same cell.
proof fn lemma_found_stays(cells: Seq<Seq<Seq<char>>>, cols: int, content: Seq<char>, n: int, m: int)
    requires
        n <= m,
        find_in_places(cells, cols, content, n) is Some,
    ensures
        find_in_places(cells, cols, content, m) == find_in_places(cells, cols, content, n),
    decreases m - n,
{
    if n < m {
        lemma_found_stays(cells, cols, content, n, m - 1);
    }
}

} // verus!
