//! Run and output a command in the background.
//!
//! The command runs in a headless terminal in the application. Here is what happens to its
//! last known screen when it exits: the screen is dumped as text, and the user is told about
//! an exit that was not expected, or about a command that printed nothing.
use super::tattoyer::Tattoyer;
use crate::util::{
    is_whitespace, spec_is_whitespace, str_len, string_chars, text_len, trim, trim_end_len,
    trimmed, trimmed_end_len, utf8_len,
};
use vstd::prelude::*;

verus! {

/// `BGCommand`
pub struct BGCommand {
    /// The base Tattoy struct.
    pub tattoy: Tattoyer,
    /// The command to run.
    pub command: Vec<String>,
    /// The last known screen of the command: row by row, the text of each cell.
    pub screen: Vec<Vec<Vec<char>>>,
}

/// Why the exit of the command could not be reported.
#[derive(Clone, Copy, Debug, PartialEq, Eq, Structural)]
pub enum BGCommandError {
    /// The command is empty, so there is no base command to name.
    NoBaseCommand,
}

/// The texts of cells, one after the other.
pub open spec fn flatten(cells: Seq<Seq<char>>) -> Seq<char>
    decreases cells.len(),
{
    if cells.len() == 0 {
        Seq::empty()
    } else {
        flatten(cells.drop_last()) + cells.last()
    }
}

/// A row of cells as a line, cut off with an ellipsis after the cell in column `width - 4`,
/// unless the line has a newline by then.
pub open spec fn cut_line(row: Seq<Seq<char>>, width: int) -> Seq<char> {
    let k = width - 4;
    if 0 <= k < row.len() && !flatten(row.take(k + 1)).contains('\n') {
        flatten(row.take(k + 1)).push('…')
    } else {
        flatten(row)
    }
}

/// The line with each ellipsis blanked out.
pub open spec fn blank_out_ellipsis(line: Seq<char>) -> Seq<char> {
    line.map_values(|c: char| if c == '…' { ' ' } else { c })
}

/// A line loses its trailing white space and ellipsis when they are more than 3 bytes.
pub open spec fn tidy_line(line: Seq<char>) -> Seq<char> {
    let blanked = blank_out_ellipsis(line);
    let trimmed = blanked.take(trim_end_len(blanked) as int);
    if str_len(line) - str_len(trimmed) > 3 {
        trimmed
    } else {
        line
    }
}

/// The lines of the rows, each after a newline unless it has one of its own.
pub open spec fn dumped_lines(rows: Seq<Seq<Seq<char>>>, width: int) -> Seq<char>
    decreases rows.len(),
{
    if rows.len() == 0 {
        Seq::empty()
    } else {
        let line = tidy_line(cut_line(rows.last(), width));
        dumped_lines(rows.drop_last(), width) + (if line.contains('\n') {
            Seq::empty()
        } else {
            seq!['\n']
        }) + line
    }
}

/// The last known output: the dumped lines without leading and trailing white space.
pub open spec fn last_known_output(rows: Seq<Seq<Seq<char>>>, width: int) -> Seq<char> {
    trim(dumped_lines(rows, width))
}

/// The rows of a screen.
pub open spec fn screen_view(screen: Seq<Vec<Vec<char>>>) -> Seq<Seq<Seq<char>>> {
    screen.map_values(|row: Vec<Vec<char>>| row@.map_values(|cell: Vec<char>| cell@))
}

/// A byte offset of a text that lies between two characters (or at its end or beyond).
pub open spec fn is_char_boundary(s: Seq<char>, bytes: int) -> bool {
    bytes >= str_len(s) || exists|k: int| 0 <= k <= s.len() && #[trigger] str_len(s.take(k)) == bytes
}

/// `s` is `t` cut at `max` bytes: the longest prefix of `t` of at most `max` bytes.
pub open spec fn is_truncation(s: Seq<char>, t: Seq<char>, max: int) -> bool {
    exists|k: int|
        0 <= k <= t.len() && s == #[trigger] t.take(k) && str_len(t.take(k)) <= max && (k
            == t.len() || str_len(t.take(k + 1)) > max)
}

/// The text of the notification for a command without output.
pub open spec fn no_output_text(command: Seq<char>) -> Seq<char> {
    "No output, does `"@ + command + "` command exist?"@
}

/// The text of the notification for output that was cut short.
pub open spec fn sample_text(output: Seq<char>) -> Seq<char> {
    "Sample of output:\n"@ + output + "...\n"@
}

/// The notification for an exit, from the cut output: none for an expected exit with output.
pub open spec fn exit_notification_for(
    cut: Seq<char>,
    max: int,
    expect_exit: bool,
    command: Seq<String>,
) -> Result<Option<Seq<char>>, BGCommandError> {
    let is_empty = trim(cut).len() == 0;
    if expect_exit && !is_empty {
        Ok(None)
    } else if is_empty && command.len() == 0 {
        Err(BGCommandError::NoBaseCommand)
    } else {
        let text = if is_empty {
            no_output_text(command[0]@)
        } else {
            cut
        };
        if !expect_exit && str_len(text) >= max {
            Ok(Some(sample_text(text)))
        } else {
            Ok(Some(text))
        }
    }
}

/// Append the text of a cell.
fn push_cell(line: &mut Vec<char>, cell: &Vec<char>)
    ensures
        final(line)@ == old(line)@ + cell@,
{
    let mut i: usize = 0;
    while i < cell.len()
        invariant
            0 <= i <= cell@.len(),
            line@ == old(line)@ + cell@.take(i as int),
        decreases cell@.len() - i,
    {
        line.push(cell[i]);
        i = i + 1;
        assert(line@ =~= old(line)@ + cell@.take(i as int));
    }
    assert(cell@.take(i as int) =~= cell@);
}

/// Whether a text has a newline.
fn has_newline(text: &Vec<char>) -> (res: bool)
    ensures
        res == text@.contains('\n'),
{
    let mut i: usize = 0;
    while i < text.len()
        invariant
            0 <= i <= text@.len(),
            forall|j: int| 0 <= j < i ==> text@[j] != '\n',
        decreases text@.len() - i,
    {
        if text[i] == '\n' {
            assert(text@[i as int] == '\n');
            return true;
        }
        i = i + 1;
    }
    false
}

/// Append a string's characters.
fn push_str(out: &mut Vec<char>, s: &str)
    ensures
        final(out)@ == old(out)@ + s@,
{
    let chars = string_chars(&s.to_owned());
    let mut i: usize = 0;
    while i < chars.len()
        invariant
            0 <= i <= chars@.len(),
            chars@ == s@,
            out@ == old(out)@ + chars@.take(i as int),
        decreases chars@.len() - i,
    {
        out.push(chars[i]);
        i = i + 1;
        assert(out@ =~= old(out)@ + chars@.take(i as int));
    }
    assert(chars@.take(i as int) =~= chars@);
}

/// The texts of a row's first cells, one after the other.
proof fn lemma_flatten_take(row: Seq<Seq<char>>, x: int)
    requires
        0 <= x < row.len(),
    ensures
        flatten(row.take(x + 1)) == flatten(row.take(x)) + row[x],
{
    assert(row.take(x + 1).drop_last() =~= row.take(x));
}

impl BGCommand {
    /// A background command for a terminal of unknown size, with no screen yet.
    pub fn new(layer: i16, command: Vec<String>) -> (res: Self)
        ensures
            res.tattoy.id@ == "bg_command"@,
            res.tattoy.layer == layer,
            res.tattoy.width == 0,
            res.tattoy.height == 0,
            res.command@ == command@,
            res.screen@.len() == 0,
    {
        BGCommand {
            tattoy: Tattoyer::new(String::from_str("bg_command"), layer),
            command,
            screen: Vec::new(),
        }
    }

    /// A row of cells as a line, cut off with an ellipsis at column `width - 4`.
    fn cut_line(row: &Vec<Vec<char>>, width: u16) -> (res: Vec<char>)
        requires
            row@.len() > 0 ==> width >= 4,
        ensures
            res@ == cut_line(row@.map_values(|cell: Vec<char>| cell@), width as int),
    {
        let ghost cells = row@.map_values(|cell: Vec<char>| cell@);
        let mut line: Vec<char> = Vec::new();
        let mut newline = false;
        let mut x: usize = 0;
        while x < row.len()
            invariant
                cells == row@.map_values(|cell: Vec<char>| cell@),
                row@.len() > 0 ==> width >= 4,
                0 <= x <= row@.len(),
                line@ == flatten(cells.take(x as int)),
                newline == line@.contains('\n'),
                width >= 4 && x > width - 4 ==> flatten(cells.take(width - 4 + 1)).contains('\n'),
            decreases row@.len() - x,
        {
            proof {
                lemma_flatten_take(cells, x as int);
            }
            let ghost before = line@;
            push_cell(&mut line, &row[x]);
            proof {
                if !newline && row@[x as int]@.contains('\n') {
                    let j = choose|j: int| 0 <= j < row@[x as int]@.len() && row@[x as int]@[j] == '\n';
                    assert(line@[before.len() + j] == '\n');
                }
                if newline {
                    let j = choose|j: int| 0 <= j < before.len() && before[j] == '\n';
                    assert(line@[j] == '\n');
                }
                if line@.contains('\n') && !newline {
                    let j = choose|j: int| 0 <= j < line@.len() && line@[j] == '\n';
                    if j >= before.len() {
                        assert(row@[x as int]@[j - before.len()] == '\n');
                    }
                }
            }
            newline = newline || has_newline(&row[x]);
            if x == (width as usize) - 4 && !newline {
                line.push('…');
                return line;
            }
            x = x + 1;
        }
        assert(cells.take(x as int) =~= cells);
        line
    }

    /// A line without its trailing white space and ellipsis, when they are more than 3 bytes.
    fn tidy_line(line: Vec<char>) -> (res: Vec<char>)
        ensures
            res@ == tidy_line(line@),
    {
        let mut blanked: Vec<char> = Vec::new();
        let mut i: usize = 0;
        while i < line.len()
            invariant
                0 <= i <= line@.len(),
                blanked@ == blank_out_ellipsis(line@.take(i as int)),
            decreases line@.len() - i,
        {
            let c = line[i];
            blanked.push(if c == '…' {
                ' '
            } else {
                c
            });
            i = i + 1;
            assert(blanked@ =~= blank_out_ellipsis(line@.take(i as int)));
        }
        assert(line@.take(i as int) =~= line@);
        let end = trimmed_end_len(blanked.as_slice());
        let mut kept: Vec<char> = Vec::new();
        let mut j: usize = 0;
        while j < end
            invariant
                end <= blanked@.len(),
                0 <= j <= end,
                kept@ == blanked@.take(j as int),
            decreases end - j,
        {
            kept.push(blanked[j]);
            j = j + 1;
            assert(kept@ =~= blanked@.take(j as int));
        }
        let line_len = text_len(line.as_slice());
        let kept_len = text_len(kept.as_slice());
        if line_len >= kept_len && line_len - kept_len > 3 {
            kept
        } else {
            proof {
                if line_len < kept_len {
                    assert(str_len(line@) - str_len(kept@) < 0);
                }
            }
            line
        }
    }

    /// Get the last known output of the command: each row of the screen as a line, cut off
    /// with an ellipsis near the right edge and without long trailing white space, the lines
    /// joined by newlines and the whole without leading and trailing white space.
    pub fn dump_last_known_output(&self) -> (res: Vec<char>)
        requires
            self.tattoy.width >= 4 || forall|r: int|
                0 <= r < self.screen@.len() ==> #[trigger] self.screen@[r]@.len() == 0,
        ensures
            res@ == last_known_output(screen_view(self.screen@), self.tattoy.width as int),
    {
        let ghost rows = screen_view(self.screen@);
        let mut output: Vec<char> = Vec::new();
        let mut y: usize = 0;
        while y < self.screen.len()
            invariant
                rows == screen_view(self.screen@),
                self.tattoy.width >= 4 || forall|r: int|
                    0 <= r < self.screen@.len() ==> #[trigger] self.screen@[r]@.len() == 0,
                0 <= y <= self.screen@.len(),
                output@ == dumped_lines(rows.take(y as int), self.tattoy.width as int),
            decreases self.screen@.len() - y,
        {
            let line = Self::cut_line(&self.screen[y], self.tattoy.width);
            let line = Self::tidy_line(line);
            if !has_newline(&line) {
                output.push('\n');
            }
            let ghost before = output@;
            push_cell(&mut output, &line);
            proof {
                assert(rows.take(y + 1).drop_last() =~= rows.take(y as int));
                assert(rows[y as int] =~= self.screen@[y as int]@.map_values(|cell: Vec<char>| cell@));
            }
            y = y + 1;
        }
        assert(rows.take(y as int) =~= rows);
        trimmed(output.as_slice())
    }

    /// Cut a text at `max` bytes, as `String::truncate` does.
    fn truncate(text: &Vec<char>, max: usize) -> (res: Vec<char>)
        ensures
            is_truncation(res@, text@, max as int),
    {
        let mut out: Vec<char> = Vec::new();
        let mut total: usize = 0;
        let mut i: usize = 0;
        while i < text.len()
            invariant
                0 <= i <= text@.len(),
                out@ == text@.take(i as int),
                total == str_len(text@.take(i as int)),
                total <= max,
            decreases text@.len() - i,
        {
            proof {
                crate::util::lemma_str_len_take(text@, i as int);
            }
            let size = crate::util::char_utf8_len(text[i]) as usize;
            if size > max - total {
                assert(str_len(text@.take(i + 1)) > max);
                return out;
            }
            out.push(text[i]);
            total = total + size;
            i = i + 1;
            assert(out@ =~= text@.take(i as int));
        }
        assert(out@ == text@.take(i as int));
        out
    }

    /// What to tell the user when the command has exited, given its last known output: nothing
    /// for an expected exit with output; otherwise the output cut to a quarter of the
    /// terminal's cells (in bytes), a note that there was no output when there was none, and
    /// the output marked as a sample when the exit was unexpected and the output fills the cut.
    pub fn exit_notification(&self, expect_exit: bool) -> (res: Result<Option<Vec<char>>, BGCommandError>)
        requires
            self.tattoy.width >= 4 || forall|r: int|
                0 <= r < self.screen@.len() ==> #[trigger] self.screen@[r]@.len() == 0,
            self.tattoy.width * self.tattoy.height <= u16::MAX,
            is_char_boundary(
                last_known_output(screen_view(self.screen@), self.tattoy.width as int),
                self.tattoy.width * self.tattoy.height / 4,
            ),
        ensures
            exists|cut: Seq<char>|
                #[trigger] is_truncation(
                    cut,
                    last_known_output(screen_view(self.screen@), self.tattoy.width as int),
                    self.tattoy.width * self.tattoy.height / 4,
                ) && match res {
                    Ok(Some(text)) => exit_notification_for(
                        cut,
                        self.tattoy.width * self.tattoy.height / 4,
                        expect_exit,
                        self.command@,
                    ) == Ok::<Option<Seq<char>>, BGCommandError>(Some(text@)),
                    Ok(None) => exit_notification_for(
                        cut,
                        self.tattoy.width * self.tattoy.height / 4,
                        expect_exit,
                        self.command@,
                    ) == Ok::<Option<Seq<char>>, BGCommandError>(None),
                    Err(e) => exit_notification_for(
                        cut,
                        self.tattoy.width * self.tattoy.height / 4,
                        expect_exit,
                        self.command@,
                    ) == Err::<Option<Seq<char>>, BGCommandError>(e),
                },
    {
        let cells: u16 = self.tattoy.width * self.tattoy.height;
        let max_output: usize = (cells / 4) as usize;
        let dumped = self.dump_last_known_output();
        let cut = Self::truncate(&dumped, max_output);
        let is_empty_output = trimmed(cut.as_slice()).len() == 0;
        if expect_exit && !is_empty_output {
            return Ok(None);
        }
        let mut text: Vec<char> = Vec::new();
        if is_empty_output {
            if self.command.len() == 0 {
                return Err(BGCommandError::NoBaseCommand);
            }
            let base = string_chars(&self.command[0]);
            push_str(&mut text, "No output, does `");
            push_cell(&mut text, &base);
            push_str(&mut text, "` command exist?");
            assert(text@ =~= no_output_text(self.command@[0]@));
        } else {
            push_cell(&mut text, &cut);
            assert(text@ =~= cut@);
        }
        let is_large_output = text_len(text.as_slice()) >= max_output as u128;
        if !expect_exit && is_large_output {
            let mut sample: Vec<char> = Vec::new();
            push_str(&mut sample, "Sample of output:\n");
            push_cell(&mut sample, &text);
            push_str(&mut sample, "...\n");
            assert(sample@ =~= sample_text(text@));
            return Ok(Some(sample));
        }
        Ok(Some(text))
    }
}

} // verus!
