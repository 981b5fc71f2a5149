//! Compositing cells into the final frame: which colours of a cell get blended with which
//! colours of the cell above it. The blending itself is colour maths on floating point values
//! and happens in the application, step by step in the order given here.
use crate::ansi::{decimal, push_all, push_chars, push_decimal};
use crate::util::spec_is_whitespace;
use vstd::prelude::*;

verus! {

/// Composite individual cells into the final renderable frame.
pub struct Compositor;

/// Whether a blend acts on a foreground or a background attribute.
#[derive(Clone, Copy, Debug, PartialEq, Eq)]
pub enum Kind {
    /// A foreground attribute.
    Foreground,
    /// A background attribute.
    Background,
}

/// Blend the attribute of the given kind with the colour, after the previous blends.
#[derive(Clone, Copy, Debug, PartialEq, Eq)]
pub struct BlendStep<C> {
    /// The attribute to blend.
    pub kind: Kind,
    /// The colour to blend in.
    pub colour: C,
}

/// How to composite a cell onto the cell below it.
#[derive(Clone, Debug, PartialEq, Eq)]
pub struct CompositePlan<C> {
    /// The cell below takes the character of the cell above, keeping its own colours.
    pub take_character: bool,
    /// The blends to apply to the cell below, in order.
    pub blends: Vec<BlendStep<C>>,
}

/// A cell's text is blank: empty or a single space.
pub open spec fn is_blank(text: Seq<char>) -> bool {
    text.len() == 0 || text == seq![' ']
}

/// A cell's text is a pixel half block.
pub open spec fn is_half_block(text: Seq<char>) -> bool {
    text == seq!['▀'] || text == seq!['▄']
}

/// The blend of one colour into one attribute, when there is a colour.
pub open spec fn blend_if<C>(kind: Kind, colour: Option<C>) -> Seq<BlendStep<C>> {
    match colour {
        Some(c) => seq![BlendStep { kind, colour: c }],
        None => Seq::empty(),
    }
}

/// The blends of a cell with the cell above, when the cell's own foreground is blended into its
/// background under text (the opaque compositing of tattoy layers).
pub open spec fn spec_opaque_blends<C>(
    below: Seq<char>,
    below_fg: Option<C>,
    above: Seq<char>,
    above_fg: Option<C>,
    above_bg: Option<C>,
) -> Seq<BlendStep<C>> {
    if is_blank(above) {
        match above_bg {
            Some(bg) => seq![
                BlendStep { kind: Kind::Background, colour: bg },
                BlendStep { kind: Kind::Foreground, colour: bg },
            ],
            None => Seq::empty(),
        }
    } else {
        let is_blending_2_pixels = below == seq!['▀'] && above == seq!['▀'];
        let own = if is_blending_2_pixels {
            Seq::empty()
        } else {
            blend_if(Kind::Background, below_fg)
        };
        own + blend_if(Kind::Foreground, above_fg) + blend_if(Kind::Background, above_bg)
    }
}

/// The blends of a cell with the cell above, where two different half blocks swap the
/// attributes they blend into.
pub open spec fn spec_blender_blends<C>(
    below: Seq<char>,
    above: Seq<char>,
    above_fg: Option<C>,
    above_bg: Option<C>,
) -> Seq<BlendStep<C>> {
    if is_blank(above) {
        match above_bg {
            Some(bg) => seq![
                BlendStep { kind: Kind::Background, colour: bg },
                BlendStep { kind: Kind::Foreground, colour: bg },
            ],
            None => Seq::empty(),
        }
    } else {
        let is_swapped = is_half_block(below) && is_half_block(above) && below != above;
        let fg_kind = if is_swapped {
            Kind::Background
        } else {
            Kind::Foreground
        };
        let bg_kind = if is_swapped {
            Kind::Foreground
        } else {
            Kind::Background
        };
        blend_if(fg_kind, above_fg) + blend_if(bg_kind, above_bg)
    }
}

/// The text of the error for a missing cell: `No {axis} coord ({coord}) for cell`.
pub open spec fn no_coord_message(axis: Seq<char>, coord: usize) -> Seq<char> {
    seq!['N', 'o', ' '] + axis + seq![' ', 'c', 'o', 'o', 'r', 'd', ' ', '('] + decimal(coord as nat)
        + seq![')', ' ', 'f', 'o', 'r', ' ', 'c', 'e', 'l', 'l']
}

/// Character sequence equality.
pub fn chars_eq(a: &[char], b: &[char]) -> (res: bool)
    ensures
        res == (a@ == b@),
{
    if a.len() != b.len() {
        return false;
    }
    let n = a.len();
    let mut i: usize = 0;
    while i < n
        invariant
            n == a@.len(),
            n == b@.len(),
            0 <= i <= n,
            forall|j: int| 0 <= j < i ==> a@[j] == b@[j],
        decreases n - i,
    {
        if a[i] != b[i] {
            return false;
        }
        i = i + 1;
    }
    assert(a@ =~= b@);
    true
}

/// A cell's text is blank: empty or a single space.
pub fn is_blank_text(text: &[char]) -> (res: bool)
    ensures
        res == is_blank(text@),
{
    let res = text.len() == 0 || (text.len() == 1 && text[0] == ' ');
    proof {
        if text@.len() == 1 {
            if text@[0] == ' ' {
                assert(text@ =~= seq![' ']);
            } else {
                assert(text@[0] != seq![' '][0]);
            }
        }
        if text@.len() > 1 {
            assert(text@.len() != seq![' '].len());
        }
    }
    res
}

/// A cell's text is the given single character.
fn is_single(text: &[char], c: char) -> (res: bool)
    ensures
        res == (text@ == seq![c]),
{
    let res = text.len() == 1 && text[0] == c;
    if res {
        assert(text@ =~= seq![c]);
    }
    res
}

/// The blend of one colour into one attribute, when there is a colour.
fn push_blend_if<C: Copy>(blends: &mut Vec<BlendStep<C>>, kind: Kind, colour: Option<C>)
    ensures
        final(blends)@ == old(blends)@ + blend_if(kind, colour),
{
    match colour {
        Some(c) => {
            blends.push(BlendStep { kind, colour: c });
        },
        None => {},
    }
    assert(blends@ =~= old(blends)@ + blend_if(kind, colour));
}

impl Compositor {
    /// The error message when a cell doesn't exist at the provided coordinate.
    pub fn no_coord_error_message(axis: &[char], coord: usize) -> (res: Vec<char>)
        ensures
            res@ == no_coord_message(axis@, coord),
    {
        let mut out: Vec<char> = Vec::new();
        push_chars(&mut out, &['N', 'o', ' ']);
        push_chars(&mut out, axis);
        push_chars(&mut out, &[' ', 'c', 'o', 'o', 'r', 'd', ' ', '(']);
        push_decimal(&mut out, coord as u64);
        push_chars(&mut out, &[')', ' ', 'f', 'o', 'r', ' ', 'c', 'e', 'l', 'l']);
        assert(out@ =~= no_coord_message(axis@, coord));
        out
    }

    /// Get a reference to a cell.
    pub fn get_cell<T>(cells: &Vec<Vec<T>>, x: usize, y: usize) -> (res: Result<&T, Vec<char>>)
        ensures
            y >= cells@.len() ==> (res matches Err(m) && m@ == no_coord_message(seq!['y'], y)),
            y < cells@.len() && x >= cells@[y as int]@.len() ==> (res matches Err(m) && m@
                == no_coord_message(seq!['x'], x)),
            y < cells@.len() && x < cells@[y as int]@.len() ==> (res matches Ok(c) && *c
                == cells@[y as int]@[x as int]),
    {
        let x_message = Self::no_coord_error_message(&['x'], x);
        let y_message = Self::no_coord_error_message(&['y'], y);
        if y >= cells.len() {
            return Err(y_message);
        }
        let row = &cells[y];
        if x >= row.len() {
            return Err(x_message);
        }
        Ok(&row[x])
    }

    /// Replace the cell at the given coordinates.
    pub fn set_cell<T>(cells: &mut Vec<Vec<T>>, x: usize, y: usize, cell: T) -> (res: Result<(), Vec<char>>)
        ensures
            y >= old(cells)@.len() ==> (res matches Err(m) && m@ == no_coord_message(seq!['y'], y)),
            y < old(cells)@.len() && x >= old(cells)@[y as int]@.len() ==> (res matches Err(m)
                && m@ == no_coord_message(seq!['x'], x)),
            res is Err ==> final(cells)@ == old(cells)@,
            y < old(cells)@.len() && x < old(cells)@[y as int]@.len() ==> res is Ok
                && final(cells)@.len() == old(cells)@.len()
                && (forall|r: int| 0 <= r < old(cells)@.len() && r != y ==> #[trigger] final(cells)@[r] == old(cells)@[r])
                && final(cells)@[y as int]@ == old(cells)@[y as int]@.update(x as int, cell),
    {
        let x_message = Self::no_coord_error_message(&['x'], x);
        let y_message = Self::no_coord_error_message(&['y'], y);
        if y >= cells.len() {
            return Err(y_message);
        }
        if x >= cells[y].len() {
            return Err(x_message);
        }
        cells[y].set(x, cell);
        Ok(())
    }

    /// Whether a cell takes the foreground colour of the cell above when only foreground colours
    /// are composited: not when its text is only white space and half blocks.
    pub fn fg_colour_only_applies(base: &[char]) -> (res: bool)
        ensures
            res == exists|i: int|
                0 <= i < base@.len() && !spec_is_whitespace(#[trigger] base@[i]) && base@[i] != '▀'
                    && base@[i] != '▄',
    {
        let n = base.len();
        let mut i: usize = 0;
        while i < n
            invariant
                n == base@.len(),
                0 <= i <= n,
                forall|j: int|
                    0 <= j < i ==> spec_is_whitespace(#[trigger] base@[j]) || base@[j] == '▀'
                        || base@[j] == '▄',
            decreases n - i,
        {
            let c = base[i];
            if !(crate::util::is_whitespace(c) || c == '▀' || c == '▄') {
                return true;
            }
            i = i + 1;
        }
        false
    }

    /// How to composite a cell onto the cell below it: a character above that is not blank
    /// replaces the character below, then the colours are blended as for opaque cells.
    pub fn composite_plan<C: Copy>(
        below: &[char],
        below_fg: Option<C>,
        above: &[char],
        above_fg: Option<C>,
        above_bg: Option<C>,
    ) -> (res: CompositePlan<C>)
        ensures
            res.take_character == !is_blank(above@),
            res.blends@ == spec_opaque_blends(
                if res.take_character {
                    above@
                } else {
                    below@
                },
                below_fg,
                above@,
                above_fg,
                above_bg,
            ),
    {
        let take_character = !is_blank_text(above);
        let blends = if take_character {
            Self::opaque_blends(above, below_fg, above, above_fg, above_bg)
        } else {
            Self::opaque_blends(below, below_fg, above, above_fg, above_bg)
        };
        CompositePlan { take_character, blends }
    }

    /// The blends of a cell with the cell above, when the cell's own foreground is blended into
    /// its background under text.
    pub fn opaque_blends<C: Copy>(
        below: &[char],
        below_fg: Option<C>,
        above: &[char],
        above_fg: Option<C>,
        above_bg: Option<C>,
    ) -> (res: Vec<BlendStep<C>>)
        ensures
            res@ == spec_opaque_blends(below@, below_fg, above@, above_fg, above_bg),
    {
        let mut blends: Vec<BlendStep<C>> = Vec::new();
        if is_blank_text(above) {
            match above_bg {
                Some(bg) => {
                    blends.push(BlendStep { kind: Kind::Background, colour: bg });
                    blends.push(BlendStep { kind: Kind::Foreground, colour: bg });
                },
                None => {},
            }
            assert(blends@ =~= spec_opaque_blends(below@, below_fg, above@, above_fg, above_bg));
            return blends;
        }
        let is_blending_2_pixels = is_single(below, '▀') && is_single(above, '▀');
        if !is_blending_2_pixels {
            push_blend_if(&mut blends, Kind::Background, below_fg);
        }
        push_blend_if(&mut blends, Kind::Foreground, above_fg);
        push_blend_if(&mut blends, Kind::Background, above_bg);
        assert(blends@ =~= spec_opaque_blends(below@, below_fg, above@, above_fg, above_bg));
        blends
    }

    /// The blends of a cell with the cell above, where two different half blocks swap the
    /// attributes they blend into: the upper pixel of one is the lower pixel of the other.
    pub fn blender_blends<C: Copy>(
        below: &[char],
        above: &[char],
        above_fg: Option<C>,
        above_bg: Option<C>,
    ) -> (res: Vec<BlendStep<C>>)
        ensures
            res@ == spec_blender_blends(below@, above@, above_fg, above_bg),
    {
        let mut blends: Vec<BlendStep<C>> = Vec::new();
        if is_blank_text(above) {
            match above_bg {
                Some(bg) => {
                    blends.push(BlendStep { kind: Kind::Background, colour: bg });
                    blends.push(BlendStep { kind: Kind::Foreground, colour: bg });
                },
                None => {},
            }
            assert(blends@ =~= spec_blender_blends(below@, above@, above_fg, above_bg));
            return blends;
        }
        let is_cell_below_pixel = is_single(below, '▀') || is_single(below, '▄');
        let is_cell_above_pixel = is_single(above, '▀') || is_single(above, '▄');
        let is_swapped = is_cell_below_pixel && is_cell_above_pixel && !chars_eq(below, above);
        let fg_kind = if is_swapped {
            Kind::Background
        } else {
            Kind::Foreground
        };
        let bg_kind = if is_swapped {
            Kind::Foreground
        } else {
            Kind::Background
        };
        push_blend_if(&mut blends, fg_kind, above_fg);
        push_blend_if(&mut blends, bg_kind, above_bg);
        assert(blends@ =~= spec_blender_blends(below@, above@, above_fg, above_bg));
        blends
    }
}

/// A blank cell above only tints: its background is blended into both attributes below, and
/// nothing happens when it has no background colour.
pub proof fn lemma_blank_above_tints<C>(
    below: Seq<char>,
    below_fg: Option<C>,
    above: Seq<char>,
    above_fg: Option<C>,
    above_bg: Option<C>,
)
    requires
        is_blank(above),
    ensures
        spec_opaque_blends(below, below_fg, above, above_fg, above_bg) == spec_blender_blends(
            below,
            above,
            above_fg,
            above_bg,
        ),
        above_bg is None ==> spec_opaque_blends(below, below_fg, above, above_fg, above_bg).len()
            == 0,
{
}

/// An upper and a lower half block never blend their upper pixel into each other's lower pixel:
/// the colours of the cell above land in the attributes that show the same halves below.
pub proof fn lemma_half_blocks_blend_matching_halves<C>(above_fg: C, above_bg: C)
    ensures
        spec_blender_blends(seq!['▀'], seq!['▄'], Some(above_fg), Some(above_bg)) == seq![
            BlendStep { kind: Kind::Background, colour: above_fg },
            BlendStep { kind: Kind::Foreground, colour: above_bg },
        ],
        spec_blender_blends(seq!['▀'], seq!['▀'], Some(above_fg), Some(above_bg)) == seq![
            BlendStep { kind: Kind::Foreground, colour: above_fg },
            BlendStep { kind: Kind::Background, colour: above_bg },
        ],
{
    let up = seq!['▀'];
    let down = seq!['▄'];
    assert(up != down) by {
        assert(up[0] != down[0]);
    }
    assert(!is_blank(up)) by {
        assert(up[0] != seq![' '][0]);
    }
    assert(!is_blank(down)) by {
        assert(down[0] != seq![' '][0]);
    }
    assert(is_half_block(up) && is_half_block(down));
    assert(blend_if(Kind::Background, Some(above_fg)) + blend_if(Kind::Foreground, Some(above_bg))
        =~= seq![
        BlendStep { kind: Kind::Background, colour: above_fg },
        BlendStep { kind: Kind::Foreground, colour: above_bg },
    ]);
    assert(blend_if(Kind::Foreground, Some(above_fg)) + blend_if(Kind::Background, Some(above_bg))
        =~= seq![
        BlendStep { kind: Kind::Foreground, colour: above_fg },
        BlendStep { kind: Kind::Background, colour: above_bg },
    ]);
}

/// Under text, a cell's own foreground tints its background before anything else, unless the
/// cell and the cell above are both upper half blocks (two upper pixels, whose colours must not
/// mix with the lower pixel): then the colours above are all that is blended. So when a cell
/// takes the character above, its own foreground tints it unless that character is the upper
/// half block.
pub proof fn lemma_own_foreground_tints_under_text<C>(
    below: Seq<char>,
    below_fg: C,
    above: Seq<char>,
    above_fg: Option<C>,
    above_bg: Option<C>,
)
    requires
        !is_blank(above),
    ensures
        !(below == seq!['▀'] && above == seq!['▀']) ==> spec_opaque_blends(
            below,
            Some(below_fg),
            above,
            above_fg,
            above_bg,
        ).len() >= 1 && spec_opaque_blends(below, Some(below_fg), above, above_fg, above_bg)[0]
            == (BlendStep { kind: Kind::Background, colour: below_fg }),
        below == seq!['▀'] && above == seq!['▀'] ==> forall|i: int|
            0 <= i < spec_opaque_blends(below, Some(below_fg), above, above_fg, above_bg).len()
                ==> #[trigger] spec_opaque_blends(below, Some(below_fg), above, above_fg, above_bg)[i]
                == (BlendStep { kind: Kind::Foreground, colour: above_fg->0 }) || spec_opaque_blends(
                below,
                Some(below_fg),
                above,
                above_fg,
                above_bg,
            )[i] == (BlendStep { kind: Kind::Background, colour: above_bg->0 }),
        below == seq!['▀'] && above == seq!['▀'] ==> spec_opaque_blends(
            below,
            Some(below_fg),
            above,
            above_fg,
            above_bg,
        ).len() == (if above_fg is Some { 1int } else { 0 }) + (if above_bg is Some { 1int } else { 0 }),
        above != seq!['▀'] ==> spec_opaque_blends(above, Some(below_fg), above, above_fg, above_bg)[0]
            == (BlendStep { kind: Kind::Background, colour: below_fg }),
{
    let blends = spec_opaque_blends(below, Some(below_fg), above, above_fg, above_bg);
    let fg = blend_if(Kind::Foreground, above_fg);
    let bg = blend_if(Kind::Background, above_bg);
    if below == seq!['▀'] && above == seq!['▀'] {
        assert(blends =~= Seq::<BlendStep<C>>::empty() + fg + bg);
        assert forall|i: int| 0 <= i < blends.len() implies #[trigger] blends[i] == (BlendStep {
            kind: Kind::Foreground,
            colour: above_fg->0,
        }) || blends[i] == (BlendStep { kind: Kind::Background, colour: above_bg->0 }) by {
            if i < fg.len() {
                assert(blends[i] == fg[i]);
            } else {
                assert(blends[i] == bg[i - fg.len()]);
            }
        }
    } else {
        assert(blends =~= seq![BlendStep { kind: Kind::Background, colour: below_fg }] + fg + bg);
    }
    let own_above = spec_opaque_blends(above, Some(below_fg), above, above_fg, above_bg);
    if above != seq!['▀'] {
        assert(own_above =~= seq![BlendStep { kind: Kind::Background, colour: below_fg }] + fg + bg);
    }
}

} // verus!
