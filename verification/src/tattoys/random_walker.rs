//! Randomly move a pixel over the screen.
//!
//! The walker is a single pixel. On every frame it moves by at most one pixel in each direction
//! and never leaves the terminal's inner area. Its colour drifts in the application.
use super::tattoyer::{ProtocolMessage, Tattoyer};
use crate::surface::{blank_cell, spec_pixel_cell, PixelSurface};
use rand::Rng;
use vstd::prelude::*;

verus! {

/// A uniformly random integer in `low..high`, from the thread's random number generator
/// (`rand::Rng::gen_range` on `rand::thread_rng()`). Said of it here: it lies in the range,
/// which the source documents; the range is never empty, on which `gen_range` panics.
#[verifier::external_body]
fn random_in_range(low: i32, high: i32) -> (res: i32)
    requires
        low < high,
    ensures
        low <= res < high,
{
    rand::thread_rng().gen_range(low..high)
}

/// `RandomWalker`
pub struct RandomWalker {
    /// The base Tattoy struct.
    pub tattoy: Tattoyer,
    /// Current x,y position, in pixels.
    position: (i32, i32),
}

/// `value` kept between `low` and `high`.
pub open spec fn clamp(value: int, low: int, high: int) -> int {
    if value < low {
        low
    } else if value > high {
        high
    } else {
        value
    }
}

/// A pixel position that a terminal of 16-bit dimensions can hold.
pub open spec fn position_in_range(p: (i32, i32)) -> bool {
    0 <= p.0 <= u16::MAX && 0 <= p.1 <= 2 * u16::MAX
}

/// One step of the walk: a move by `dx` and `dy` kept inside the terminal, away from its left
/// and top edges.
pub open spec fn stepped(p: (i32, i32), dx: int, dy: int, width: int, height: int) -> (int, int) {
    (clamp(p.0 + dx, 1, width - 1), clamp(p.1 + dy, 1, 2 * height - 1))
}

impl RandomWalker {
    /// The current position.
    pub closed spec fn spec_position(&self) -> (i32, i32) {
        self.position
    }

    /// The shared tattoy state.
    pub closed spec fn spec_tattoy(&self) -> Tattoyer {
        self.tattoy
    }

    /// The position fits the terminal's coordinates.
    pub closed spec fn wf(&self) -> bool {
        position_in_range(self.position)
    }

    /// A walker in the top left corner.
    pub fn new() -> (res: Self)
        ensures
            res.wf(),
            res.spec_position() == (0i32, 0i32),
            res.spec_tattoy().id@ == "random_walker"@,
            res.spec_tattoy().layer == -10,
            res.spec_tattoy().width == 0,
            res.spec_tattoy().height == 0,
    {
        RandomWalker {
            tattoy: Tattoyer::new(String::from_str("random_walker"), -10),
            position: (0, 0),
        }
    }

    /// The current position.
    pub fn position(&self) -> (res: (i32, i32))
        ensures
            res == self.spec_position(),
    {
        self.position
    }

    /// Custom behaviour for protocol messages: a resize puts the walker somewhere random on the
    /// new terminal.
    pub fn handle_protocol_message(&mut self, message: &ProtocolMessage)
        requires
            old(self).wf(),
            *message matches ProtocolMessage::Resize { width, height } ==> width >= 1 && height >= 1,
        ensures
            final(self).wf(),
            final(self).spec_tattoy() == old(self).spec_tattoy(),
            *message matches ProtocolMessage::Resize { width, height } ==> {
                &&& 0 <= final(self).spec_position().0 < width
                &&& 0 <= final(self).spec_position().1 < 2 * height
            },
            !(*message is Resize) ==> final(self).spec_position() == old(self).spec_position(),
    {
        match message {
            ProtocolMessage::Resize { width, height } => {
                let w: i32 = *width as i32;
                let h: i32 = *height as i32;
                self.position = (random_in_range(0, w), random_in_range(0, h * 2));
            },
            _ => {},
        }
    }

    /// Move by -1, 0 or 1 pixels in each direction, staying at least one pixel away from the
    /// left and top edges and inside the terminal.
    pub fn step(&mut self)
        requires
            old(self).wf(),
            old(self).spec_tattoy().width >= 2,
            old(self).spec_tattoy().height >= 1,
        ensures
            final(self).wf(),
            final(self).spec_tattoy() == old(self).spec_tattoy(),
            exists|dx: int, dy: int|
                -1 <= dx <= 1 && -1 <= dy <= 1 && (final(self).spec_position().0 as int,
                final(self).spec_position().1 as int) == #[trigger] stepped(
                    old(self).spec_position(),
                    dx,
                    dy,
                    old(self).spec_tattoy().width as int,
                    old(self).spec_tattoy().height as int,
                ),
    {
        let dx = random_in_range(0, 3) - 1;
        let dy = random_in_range(0, 3) - 1;
        self.move_by(dx, dy);
    }

    /// Move by `dx` and `dy` pixels, each -1, 0 or 1, staying at least one pixel away from the
    /// left and top edges and inside the terminal.
    pub fn move_by(&mut self, dx: i32, dy: i32)
        requires
            old(self).wf(),
            old(self).spec_tattoy().width >= 2,
            old(self).spec_tattoy().height >= 1,
            -1 <= dx <= 1,
            -1 <= dy <= 1,
        ensures
            final(self).wf(),
            final(self).spec_tattoy() == old(self).spec_tattoy(),
            (final(self).spec_position().0 as int, final(self).spec_position().1 as int) == stepped(
                old(self).spec_position(),
                dx as int,
                dy as int,
                old(self).spec_tattoy().width as int,
                old(self).spec_tattoy().height as int,
            ),
    {
        let width: i32 = self.tattoy.width as i32;
        let height: i32 = self.tattoy.height as i32;
        let x = Self::clamp_i32(self.position.0 + dx, 1, width - 1);
        let y = Self::clamp_i32(self.position.1 + dy, 1, height * 2 - 1);
        self.position = (x, y);
    }

    /// `value` kept between `low` and `high`.
    fn clamp_i32(value: i32, low: i32, high: i32) -> (res: i32)
        requires
            low <= high,
        ensures
            res == clamp(value as int, low as int, high as int),
    {
        if value < low {
            low
        } else if value > high {
            high
        } else {
            value
        }
    }

    /// Tick the render: when the tattoy is ready, take a step and draw the walker as a single
    /// pixel on an otherwise blank frame of the terminal's size.
    pub fn render<A: Copy>(&mut self, colour: A, blank: A) -> (res: Option<PixelSurface<A>>)
        requires
            old(self).wf(),
            old(self).spec_tattoy().width > 0 && old(self).spec_tattoy().height > 0 ==> old(self).spec_tattoy().width >= 2,
        ensures
            final(self).wf(),
            final(self).spec_tattoy() == old(self).spec_tattoy(),
            !(old(self).spec_tattoy().width > 0 && old(self).spec_tattoy().height > 0) ==> res is None
                && final(self).spec_position() == old(self).spec_position(),
            old(self).spec_tattoy().width > 0 && old(self).spec_tattoy().height > 0 ==> (res matches Some(
                surface,
            ) && {
                let p = final(self).spec_position();
                let col = p.0 as int;
                let row = (p.1 / 2) as int;
                &&& surface.wf()
                &&& surface.spec_width() == old(self).spec_tattoy().width
                &&& surface.spec_height() == old(self).spec_tattoy().height
                &&& 1 <= p.0 < old(self).spec_tattoy().width
                &&& 1 <= p.1 < 2 * old(self).spec_tattoy().height
                &&& exists|dx: int, dy: int|
                    -1 <= dx <= 1 && -1 <= dy <= 1 && (p.0 as int, p.1 as int) == #[trigger] stepped(
                        old(self).spec_position(),
                        dx,
                        dy,
                        old(self).spec_tattoy().width as int,
                        old(self).spec_tattoy().height as int,
                    )
                &&& forall|r: int, c: int|
                    0 <= r < surface.spec_height() && 0 <= c < surface.spec_width()
                        ==> #[trigger] surface.view()[r][c] == if r == row && c == col {
                        spec_pixel_cell(blank_cell(blank), p.1 % 2 == 0, colour)
                    } else {
                        blank_cell(blank)
                    }
            }),
    {
        if !self.tattoy.is_ready() {
            return None;
        }
        self.step();
        let mut surface = PixelSurface::new(
            self.tattoy.width as usize,
            self.tattoy.height as usize,
            blank,
        );
        let x = self.position.0 as usize;
        let y = self.position.1 as usize;
        proof {
            surface.lemma_view_dimensions();
        }
        let ghost blank_view = surface.view();
        let drawn = surface.add_pixel(x, y, colour);
        assert(drawn is Ok);
        proof {
            surface.lemma_view_dimensions();
        }
        Some(surface)
    }
}

} // verus!
