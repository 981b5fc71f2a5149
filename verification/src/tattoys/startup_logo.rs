//! Display the logo at startup, in the middle of the terminal.
//!
//! The logo's colours come from the terminal's palette and fade out over time; that is
//! floating point work in the application. Here is the logo's size, its version line, whether
//! it fits, and where each of its characters goes.
use crate::util::{lines, split_lines, str_len, text_len};
use vstd::prelude::*;

verus! {

/// `StartupLogo`
pub struct StartupLogo {
    /// The logo text itself.
    pub logo: Vec<char>,
    /// The width of the logo.
    pub width: u16,
    /// The height of the logo.
    pub height: u16,
}

/// A character of the logo and where it goes on the terminal.
#[derive(Clone, Copy, Debug, PartialEq, Eq, Structural)]
pub struct LogoCharacter {
    /// The column on the terminal.
    pub x: u16,
    /// The row on the terminal.
    pub y: u16,
    /// The column within the logo, in characters.
    pub logo_x: usize,
    /// The row within the logo.
    pub logo_y: usize,
    /// The character.
    pub character: char,
}

/// The widest of the given lines, in bytes.
pub open spec fn widest(ls: Seq<Seq<char>>) -> nat
    decreases ls.len(),
{
    if ls.len() == 0 {
        0
    } else if str_len(ls.last()) > widest(ls.drop_last()) {
        str_len(ls.last())
    } else {
        widest(ls.drop_last())
    }
}

/// The characters of the first lines, line by line, placed from column `x0` and row `y0`.
pub open spec fn placed(ls: Seq<Seq<char>>, x0: int, y0: int) -> Seq<PlacedView>
    decreases ls.len(),
{
    if ls.len() == 0 {
        Seq::empty()
    } else {
        let logo_y = ls.len() - 1;
        placed(ls.drop_last(), x0, y0) + placed_line(ls.last(), x0, y0, logo_y)
    }
}

/// The largest number of characters of the given lines.
pub open spec fn longest(ls: Seq<Seq<char>>) -> nat
    decreases ls.len(),
{
    if ls.len() == 0 {
        0
    } else if ls.last().len() > longest(ls.drop_last()) {
        ls.last().len()
    } else {
        longest(ls.drop_last())
    }
}

/// The first column of the logo on a terminal of the given width.
pub open spec fn logo_left(tty_width: int, logo_width: int) -> int {
    tty_width / 2 - 1 - logo_width / 2
}

/// The first row of the logo on a terminal of the given height.
pub open spec fn logo_top(tty_height: int, logo_height: int) -> int {
    tty_height / 2 - 1 - logo_height / 2
}

impl StartupLogo {
    /// Get the dimensions of a logo: its widest line, in bytes, and its number of lines.
    pub fn get_width_and_height(logo: &Vec<char>) -> (res: (u16, u16))
        requires
            lines(logo@).len() > 0,
            widest(lines(logo@)) <= u16::MAX,
            lines(logo@).len() <= u16::MAX,
        ensures
            res.0 == widest(lines(logo@)),
            res.1 == lines(logo@).len(),
    {
        let ls = split_lines(logo);
        let ghost views = ls@.map_values(|l: Vec<char>| l@);
        let mut width: u128 = 0;
        let mut i: usize = 0;
        while i < ls.len()
            invariant
                views == ls@.map_values(|l: Vec<char>| l@),
                views == lines(logo@),
                0 <= i <= ls@.len(),
                width == widest(views.take(i as int)),
            decreases ls@.len() - i,
        {
            let len = text_len(ls[i].as_slice());
            proof {
                assert(views.take(i + 1).drop_last() =~= views.take(i as int));
                assert(views.take(i + 1).last() == ls@[i as int]@);
            }
            if len > width {
                width = len;
            }
            i = i + 1;
        }
        assert(views.take(i as int) =~= views);
        (width as u16, ls.len() as u16)
    }

    /// The logo with its version right-aligned on a last line of the logo's width.
    pub fn make_logo(logo: &Vec<char>, width: u16, version: &Vec<char>) -> (res: Vec<char>)
        requires
            str_len(version@) <= width,
        ensures
            res@ == logo@ + Seq::new((width - str_len(version@)) as nat, |i: int| ' ') + version@,
    {
        let mut out: Vec<char> = Vec::new();
        let mut i: usize = 0;
        while i < logo.len()
            invariant
                0 <= i <= logo@.len(),
                out@ == logo@.take(i as int),
            decreases logo@.len() - i,
        {
            out.push(logo[i]);
            i = i + 1;
            assert(out@ =~= logo@.take(i as int));
        }
        assert(logo@.take(i as int) =~= logo@);
        let padding: usize = (width as usize) - (text_len(version.as_slice()) as usize);
        let mut k: usize = 0;
        while k < padding
            invariant
                0 <= k <= padding,
                out@ == logo@ + Seq::new(k as nat, |i: int| ' '),
            decreases padding - k,
        {
            out.push(' ');
            k = k + 1;
            assert(out@ =~= logo@ + Seq::new(k as nat, |i: int| ' '));
        }
        let ghost padded = out@;
        let mut j: usize = 0;
        while j < version.len()
            invariant
                0 <= j <= version@.len(),
                out@ == padded + version@.take(j as int),
            decreases version@.len() - j,
        {
            out.push(version[j]);
            j = j + 1;
            assert(out@ =~= padded + version@.take(j as int));
        }
        assert(version@.take(j as int) =~= version@);
        out
    }

    /// Whether the logo is shown at all: the terminal must be bigger than the logo both ways.
    pub fn fits(&self, tty_width: u16, tty_height: u16) -> (res: bool)
        ensures
            res == (tty_height > self.height && tty_width > self.width),
    {
        !(tty_height <= self.height || tty_width <= self.width)
    }

    /// Where each character of the logo goes: the logo is centred on the terminal, line by
    /// line, a character per column.
    pub fn layout(&self, tty_width: u16, tty_height: u16) -> (res: Vec<LogoCharacter>)
        requires
            logo_left(tty_width as int, self.width as int) >= 0,
            logo_top(tty_height as int, self.height as int) >= 0,
            logo_left(tty_width as int, self.width as int) + longest(lines(self.logo@)) <= u16::MAX,
            logo_top(tty_height as int, self.height as int) + lines(self.logo@).len() <= u16::MAX,
        ensures
            res@.map_values(|c: LogoCharacter| placed_view(c)) == placed(
                lines(self.logo@),
                logo_left(tty_width as int, self.width as int),
                logo_top(tty_height as int, self.height as int),
            ),
    {
        let tty_centre_x: u16 = tty_width / 2 - 1;
        let tty_centre_y: u16 = tty_height / 2 - 1;
        let logo_centre_x: u16 = self.width / 2;
        let logo_centre_y: u16 = self.height / 2;
        let x0: u16 = tty_centre_x - logo_centre_x;
        let y0: u16 = tty_centre_y - logo_centre_y;
        let ls = split_lines(&self.logo);
        let ghost views = ls@.map_values(|l: Vec<char>| l@);
        let mut out: Vec<LogoCharacter> = Vec::new();
        let mut logo_y: usize = 0;
        proof {
            lemma_longest(views, 0);
        }
        while logo_y < ls.len()
            invariant
                views == ls@.map_values(|l: Vec<char>| l@),
                views == lines(self.logo@),
                x0 == logo_left(tty_width as int, self.width as int),
                y0 == logo_top(tty_height as int, self.height as int),
                x0 + longest(views) <= u16::MAX,
                y0 + views.len() <= u16::MAX,
                0 <= logo_y <= ls@.len(),
                out@.map_values(|c: LogoCharacter| placed_view(c)) == placed(
                    views.take(logo_y as int),
                    x0 as int,
                    y0 as int,
                ),
            decreases ls@.len() - logo_y,
        {
            let line = &ls[logo_y];
            proof {
                lemma_longest(views, logo_y as int);
                assert(views[logo_y as int] == line@);
            }
            place_line(&mut out, line, x0, y0, logo_y);
            proof {
                assert(views.take(logo_y + 1).drop_last() =~= views.take(logo_y as int));
                assert(views.take(logo_y + 1).last() == line@);
            }
            logo_y = logo_y + 1;
        }
        assert(views.take(logo_y as int) =~= views);
        out
    }
}

/// The characters of one line, placed from column `x0` on row `y0 + logo_y`.
pub open spec fn placed_line(line: Seq<char>, x0: int, y0: int, logo_y: int) -> Seq<PlacedView>
    decreases line.len(),
{
    if line.len() == 0 {
        Seq::empty()
    } else {
        let logo_x = line.len() - 1;
        placed_line(line.drop_last(), x0, y0, logo_y).push(
            (x0 + logo_x, y0 + logo_y, logo_x, logo_y, line.last()),
        )
    }
}

/// A placed character as values: column, row, column and row within the logo, character.
pub type PlacedView = (int, int, int, int, char);

/// A placed character as values.
pub open spec fn placed_view(c: LogoCharacter) -> PlacedView {
    (c.x as int, c.y as int, c.logo_x as int, c.logo_y as int, c.character)
}

/// Append one placed character.
fn push_placed(out: &mut Vec<LogoCharacter>, c: LogoCharacter)
    ensures
        final(out)@.map_values(|c: LogoCharacter| placed_view(c)) == old(out)@.map_values(
            |c: LogoCharacter| placed_view(c),
        ).push(placed_view(c)),
{
    out.push(c);
    assert(out@.map_values(|c: LogoCharacter| placed_view(c)) =~= old(out)@.map_values(
        |c: LogoCharacter| placed_view(c),
    ).push(placed_view(c)));
}

/// Append the characters of one line.
fn place_line(out: &mut Vec<LogoCharacter>, line: &Vec<char>, x0: u16, y0: u16, logo_y: usize)
    requires
        x0 + line@.len() <= u16::MAX,
        y0 + logo_y < u16::MAX,
    ensures
        final(out)@.map_values(|c: LogoCharacter| placed_view(c)) == old(out)@.map_values(
            |c: LogoCharacter| placed_view(c),
        ) + placed_line(line@, x0 as int, y0 as int, logo_y as int),
{
    let ghost start = old(out)@.map_values(|c: LogoCharacter| placed_view(c));
    let mut logo_x: usize = 0;
    while logo_x < line.len()
        invariant
            x0 + line@.len() <= u16::MAX,
            y0 + logo_y < u16::MAX,
            0 <= logo_x <= line@.len(),
            out@.map_values(|c: LogoCharacter| placed_view(c)) == start + placed_line(
                line@.take(logo_x as int),
                x0 as int,
                y0 as int,
                logo_y as int,
            ),
        decreases line@.len() - logo_x,
    {
        let c = LogoCharacter {
            x: x0 + (logo_x as u16),
            y: y0 + (logo_y as u16),
            logo_x,
            logo_y,
            character: line[logo_x],
        };
        let ghost v = placed_view(c);
        push_placed(out, c);
        proof {
            assert(line@.take(logo_x + 1).drop_last() =~= line@.take(logo_x as int));
            assert(v == (x0 + logo_x, y0 + logo_y, logo_x as int, logo_y as int, line@[logo_x as int]));
        }
        logo_x = logo_x + 1;
        assert(out@.map_values(|c: LogoCharacter| placed_view(c)) =~= start + placed_line(
            line@.take(logo_x as int),
            x0 as int,
            y0 as int,
            logo_y as int,
        ));
    }
    assert(line@.take(logo_x as int) =~= line@);
}

/// Every line is at most as long as the longest.
proof fn lemma_longest(ls: Seq<Seq<char>>, i: int)
    ensures
        0 <= i < ls.len() ==> ls[i].len() <= longest(ls),
    decreases ls.len(),
{
    if ls.len() > 0 && 0 <= i < ls.len() - 1 {
        lemma_longest(ls.drop_last(), i);
    }
}

} // verus!
