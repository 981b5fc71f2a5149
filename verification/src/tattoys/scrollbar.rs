//! Display a scrollbar when scrolling.
//!
//! The bar stands in the last column. Its rows are the rows of the terminal scaled by how the
//! visible window sits in the scrollback: a window at the very bottom gives a bar at the
//! bottom, and the bar's length is the terminal's share of the history.
use super::tattoyer::{handled, ProtocolMessage, Tattoyer, TattoyerError};
use vstd::prelude::*;

verus! {

/// `Scrollbar`
pub struct Scrollbar {
    /// The base Tattoy struct.
    pub tattoy: Tattoyer,
}

/// What the scrollbar sends to the renderer.
#[derive(Clone, Copy, Debug, PartialEq, Eq, Structural)]
pub enum ScrollbarFrame {
    /// An empty frame: scrolling has just ended.
    Blank,
    /// The bar: one blank, tinted cell per row from `start` up to (not including) `end`, in
    /// the given column.
    Bar { column: usize, start: usize, end: usize },
}

/// `value * height / scrollback_height`, rounded down and kept on the terminal's last row.
pub open spec fn scaled_row(value: int, height: int, scrollback_height: int) -> int {
    let row = value * height / scrollback_height;
    if row > height - 1 {
        height - 1
    } else {
        row
    }
}

/// The first row of the bar.
pub open spec fn bar_start(t: Tattoyer) -> int {
    scaled_row(
        t.scrollback_height - t.scroll_position - t.height,
        t.height as int,
        t.scrollback_height as int,
    )
}

/// The row where the bar ends.
pub open spec fn bar_end(t: Tattoyer) -> int {
    scaled_row(t.scrollback_height - t.scroll_position, t.height as int, t.scrollback_height as int)
}

/// The visible window lies inside the scrollback.
pub open spec fn window_fits(t: Tattoyer) -> bool {
    t.height >= 1 && t.scroll_position + t.height <= t.scrollback_height
}

/// The frame sent for a tattoy state, if any: none when the tattoy is not ready or nobody
/// scrolls.
pub open spec fn frame_for(t: Tattoyer) -> Option<ScrollbarFrame> {
    if t.last_scroll_position != 0 && t.scroll_position == 0 {
        Some(ScrollbarFrame::Blank)
    } else if !(t.width > 0 && t.height > 0) || t.scroll_position == 0 {
        None
    } else {
        Some(
            ScrollbarFrame::Bar {
                column: (t.width - 1) as usize,
                start: bar_start(t) as usize,
                end: bar_end(t) as usize,
            },
        )
    }
}

/// The scaling never leaves the terminal and keeps order.
proof fn lemma_scaled_row(a: int, b: int, height: int, scrollback_height: int)
    requires
        0 <= a <= b <= scrollback_height,
        height >= 1,
        scrollback_height >= 1,
    ensures
        0 <= scaled_row(a, height, scrollback_height) <= scaled_row(b, height, scrollback_height),
        scaled_row(b, height, scrollback_height) <= height - 1,
{
    {
        assert(0 <= a * height) by (nonlinear_arith)
            requires
                0 <= a,
                height >= 1,
        ;
        assert(a * height <= b * height) by (nonlinear_arith)
            requires
                a <= b,
                height >= 1,
        ;
        assert(a * height / scrollback_height <= b * height / scrollback_height) by (
        nonlinear_arith)
            requires
                0 <= a * height <= b * height,
                scrollback_height > 0,
        ;
        assert(0 <= a * height / scrollback_height) by (nonlinear_arith)
            requires
                0 <= a * height,
                scrollback_height > 0,
        ;
    }
}

impl Scrollbar {
    /// A scrollbar for a terminal of unknown size.
    pub fn new() -> (res: Self)
        ensures
            res.tattoy.id@ == "scrollbar"@,
            res.tattoy.layer == 100,
            res.tattoy.width == 0,
            res.tattoy.height == 0,
            res.tattoy.scroll_position == 0,
            res.tattoy.last_scroll_position == 0,
    {
        Scrollbar { tattoy: Tattoyer::new(String::from_str("scrollbar"), 100) }
    }

    /// Get the start and end rows of the scrollbar: the top and the bottom of the visible
    /// window, as fractions of the scrollback's height, scaled to the terminal's height and
    /// kept on its last row.
    pub fn get_start_end(&self) -> (res: (usize, usize))
        requires
            window_fits(self.tattoy),
        ensures
            res.0 == bar_start(self.tattoy),
            res.1 == bar_end(self.tattoy),
            res.0 <= res.1 < self.tattoy.height,
    {
        let t = &self.tattoy;
        let scrollback_height = t.scrollback_height;
        let height: usize = t.height as usize;
        let top_of_terminal_position = scrollback_height - t.scroll_position - height;
        let bottom_of_terminal_position = scrollback_height - t.scroll_position;
        proof {
            lemma_scaled_row(
                top_of_terminal_position as int,
                bottom_of_terminal_position as int,
                height as int,
                scrollback_height as int,
            );
        }
        let start = Self::scale(top_of_terminal_position, height, scrollback_height);
        let end = Self::scale(bottom_of_terminal_position, height, scrollback_height);
        (start, end)
    }

    /// `value * height / scrollback_height`, rounded down and kept on the last row.
    fn scale(value: usize, height: usize, scrollback_height: usize) -> (res: usize)
        requires
            1 <= height <= u16::MAX,
            value <= scrollback_height,
            scrollback_height >= 1,
        ensures
            res == scaled_row(value as int, height as int, scrollback_height as int),
    {
        proof {
            lemma_scaled_row(value as int, value as int, height as int, scrollback_height as int);
        }
        assert((value as u128) * (height as u128) <= 0xffff_ffff_ffff_ffff_u128 * 0xffff_u128) by (
        nonlinear_arith)
            requires
                value <= 0xffff_ffff_ffff_ffff_u128,
                height <= 0xffff_u128,
        ;
        let product: u128 = (value as u128) * (height as u128);
        assert(product == value * height) by (nonlinear_arith)
            requires
                product == (value as u128) * (height as u128),
        ;
        let row = product / (scrollback_height as u128);
        if row > (height - 1) as u128 {
            height - 1
        } else {
            row as usize
        }
    }

    /// The frame to send for the current state, if any.
    pub fn render(&self) -> (res: Option<ScrollbarFrame>)
        requires
            self.tattoy.width > 0 && self.tattoy.scroll_position != 0 ==> window_fits(self.tattoy),
        ensures
            res == frame_for(self.tattoy),
    {
        if self.tattoy.is_scrolling_end() {
            return Some(ScrollbarFrame::Blank);
        }
        if !self.tattoy.is_ready() {
            return None;
        }
        if !self.tattoy.is_scrolling() {
            return None;
        }
        let (start, end) = self.get_start_end();
        Some(ScrollbarFrame::Bar { column: (self.tattoy.width - 1) as usize, start, end })
    }

    /// Handle a message from the main Tattoy app: update the shared state and, when the scroll
    /// position moved since the previous frame, render. A frame that is sent remembers the
    /// scroll position it was rendered at.
    pub fn handle_protocol_message(&mut self, message: ProtocolMessage) -> (res: Result<
        Option<ScrollbarFrame>,
        TattoyerError,
    >)
        requires
            ({
                let t = handled(old(self).tattoy, message);
                t.width > 0 && t.scroll_position != 0 ==> window_fits(t)
            }),
        ensures
            ({
                let t = handled(old(self).tattoy, message);
                match res {
                    Err(e) => final(self).tattoy == t,
                    Ok(frame) => {
                        &&& frame == (if t.last_scroll_position != t.scroll_position {
                            frame_for(t)
                        } else {
                            None
                        })
                        &&& final(self).tattoy == (if frame is Some {
                            Tattoyer { last_scroll_position: t.scroll_position, ..t }
                        } else {
                            t
                        })
                    },
                }
            }),
            res is Err <==> super::tattoyer::oversized(message) is Some,
    {
        match self.tattoy.handle_common_protocol_messages(message) {
            Ok(()) => {},
            Err(e) => return Err(e),
        }
        if self.tattoy.last_scroll_position == self.tattoy.scroll_position {
            return Ok(None);
        }
        let frame = self.render();
        if frame.is_some() {
            self.tattoy.frame_sent();
        }
        Ok(frame)
    }
}

/// The bar never starts below its end and never leaves the terminal, so the renderer's check
/// for bad dimensions never fires while the visible window lies in the scrollback.
pub proof fn lemma_bar_is_ordered_and_inside(t: Tattoyer)
    requires
        window_fits(t),
    ensures
        0 <= bar_start(t) <= bar_end(t) <= t.height - 1,
{
    lemma_scaled_row(
        t.scrollback_height - t.scroll_position - t.height,
        t.scrollback_height - t.scroll_position,
        t.height as int,
        t.scrollback_height as int,
    );
}

/// With the window at the top of the scrollback the bar starts on the first row, and with the
/// window just above the bottom the bar ends on the last row.
pub proof fn lemma_bar_follows_the_window(t: Tattoyer)
    requires
        window_fits(t),
    ensures
        t.scroll_position + t.height == t.scrollback_height ==> bar_start(t) == 0,
        t.scroll_position == 0 ==> bar_end(t) == t.height - 1,
{
    lemma_bar_is_ordered_and_inside(t);
    let h = t.height as int;
    let sh = t.scrollback_height as int;
    if t.scroll_position == 0 {
        assert(sh * h / sh == h) by (nonlinear_arith)
            requires
                sh > 0,
        ;
    }
    if t.scroll_position + t.height == t.scrollback_height {
        assert(0 * h / sh == 0) by (nonlinear_arith)
            requires
                sh > 0,
        ;
    }
}

} // verus!
