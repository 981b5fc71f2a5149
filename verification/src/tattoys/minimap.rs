//! Display a minimap of the scrollback history.
//!
//! The minimap is a small image of the terminal's history (and of the screen, in the alternate
//! screen) at the right edge. It slides in when the mouse reaches the last columns and slides
//! out when the mouse leaves it. The images themselves, and how far the slide has come, are
//! floating point values in the application: here is when the minimap shows, and which pixel
//! of which image lands where.
use vstd::prelude::*;

verus! {

/// The various states of the minimap UI.
#[derive(Clone, Copy, Debug, PartialEq, Eq, Structural)]
pub enum AnimationPhase {
    /// The minimap is hidden.
    Hidden,
    /// The minimap is in the process of animating out.
    Showing,
    /// The minimap is completely shown.
    Shown,
    /// The minimap is in the process of animating away.
    Hiding,
}

/// Whether the minimap shows and whether its content changed.
#[derive(Clone, Copy, Debug, PartialEq, Eq, Structural)]
pub struct MinimapState {
    /// The current state of the show/hide animation.
    pub phase: AnimationPhase,
    /// If the PTY output has changed since the last render.
    pub output_changed: bool,
}

/// The image that a pixel of the minimap comes from.
#[derive(Clone, Copy, Debug, PartialEq, Eq, Structural)]
pub enum MinimapSource {
    /// The minimap of the scrollback.
    Scrollback,
    /// The minimap of the screen.
    Screen,
}

/// One thing to draw for the minimap.
#[derive(Clone, Copy, Debug, PartialEq, Eq, Structural)]
pub enum MinimapDraw {
    /// A blank, transparent cell above a minimap that is shorter than the terminal.
    Blank { x: usize, row: usize },
    /// The pixel at `image_x`, `image_y` of an image, drawn at pixel `x`, `y`.
    Pixel { x: usize, y: usize, source: MinimapSource, image_x: u32, image_y: u32 },
}

/// Why the minimap could not be drawn.
#[derive(Clone, Copy, Debug, PartialEq, Eq, Structural)]
pub enum MinimapError {
    /// The image has no pixel at these coordinates.
    MissingPixel { x: u32, y: u32 },
}

/// The dimensions that the minimap's drawing depends on.
#[derive(Clone, Copy, Debug, PartialEq, Eq, Structural)]
pub struct MinimapGeometry {
    /// The terminal's width.
    pub width: u16,
    /// The terminal's height.
    pub height: u16,
    /// The scrollback minimap image's width.
    pub scrollback_width: u32,
    /// The scrollback minimap image's height.
    pub scrollback_height: u32,
    /// The screen minimap image's width.
    pub screen_width: u32,
    /// The screen minimap image's height.
    pub screen_height: u32,
    /// How far the minimap is slid out of view, in columns.
    pub x_offset: u32,
    /// Whether the terminal shows its alternate screen.
    pub is_alternate_screen: bool,
}

impl MinimapState {
    /// A hidden minimap whose content needs rendering.
    pub fn new() -> (res: Self)
        ensures
            res == (MinimapState { phase: AnimationPhase::Hidden, output_changed: true }),
    {
        MinimapState { phase: AnimationPhase::Hidden, output_changed: true }
    }

    /// Whether the minimap is completely hidden.
    pub fn is_hidden(&self) -> (res: bool)
        ensures
            res == (self.phase == AnimationPhase::Hidden),
    {
        self.phase == AnimationPhase::Hidden
    }

    /// Whether the minimap is completely shown.
    pub fn is_shown(&self) -> (res: bool)
        ensures
            res == (self.phase == AnimationPhase::Shown),
    {
        self.phase == AnimationPhase::Shown
    }

    /// Whether the minimap needs re-rendering: its content changed, or it is not hidden.
    pub fn needs_rerendering(&self) -> (res: bool)
        ensures
            res == (self.output_changed || self.phase != AnimationPhase::Hidden),
    {
        self.output_changed || !self.is_hidden()
    }

    /// Start showing a hidden minimap.
    pub fn start_showing(&mut self)
        ensures
            final(self).output_changed == old(self).output_changed,
            final(self).phase == if old(self).phase == AnimationPhase::Hidden {
                AnimationPhase::Showing
            } else {
                old(self).phase
            },
    {
        if self.phase == AnimationPhase::Hidden {
            self.phase = AnimationPhase::Showing;
        }
    }

    /// Start hiding a shown minimap.
    pub fn start_hiding(&mut self)
        ensures
            final(self).output_changed == old(self).output_changed,
            final(self).phase == if old(self).phase == AnimationPhase::Shown {
                AnimationPhase::Hiding
            } else {
                old(self).phase
            },
    {
        if self.phase == AnimationPhase::Shown {
            self.phase = AnimationPhase::Hiding;
        }
    }

    /// Toggle the minimap on its keybinding: a hidden one starts showing, a shown one starts
    /// hiding, one that is sliding keeps sliding.
    pub fn check_for_keybind(&mut self)
        ensures
            final(self).output_changed == old(self).output_changed,
            final(self).phase == match old(self).phase {
                AnimationPhase::Hidden => AnimationPhase::Showing,
                AnimationPhase::Shown => AnimationPhase::Hiding,
                other => other,
            },
    {
        if self.is_hidden() {
            self.start_showing();
        }
        if self.is_shown() {
            self.start_hiding();
        }
    }

    /// Show the minimap when the mouse reaches the last column, hide it when the mouse leaves
    /// the columns of the minimap.
    pub fn check_if_mouse_is_over_right_columns(&mut self, mouse_x: u16, width: u16, minimap_width: u32)
        requires
            old(self).phase == AnimationPhase::Hidden ==> width >= 2,
            mouse_x >= 1,
            minimap_width <= width,
        ensures
            final(self).output_changed == old(self).output_changed,
            final(self).phase == if old(self).phase == AnimationPhase::Hidden && mouse_x > width - 2 {
                AnimationPhase::Showing
            } else if old(self).phase == AnimationPhase::Shown && mouse_x - 1 < width - minimap_width {
                AnimationPhase::Hiding
            } else {
                old(self).phase
            },
    {
        if self.is_hidden() && mouse_x > width - 2 {
            self.start_showing();
        }
        let is_mouse_outside_minimap = (mouse_x as u32) - 1 < (width as u32) - minimap_width;
        if self.is_shown() && is_mouse_outside_minimap {
            self.start_hiding();
        }
    }

    /// Advance the show/hide animation by a frame, given whether the slide has reached its end
    /// with this frame. Returns whether to render: a hidden minimap never renders, and a shown
    /// one only when its content changed.
    pub fn advance(&mut self, slide_finished: bool) -> (res: bool)
        ensures
            final(self).output_changed == old(self).output_changed,
            final(self).phase == match old(self).phase {
                AnimationPhase::Showing => if slide_finished {
                    AnimationPhase::Shown
                } else {
                    AnimationPhase::Showing
                },
                AnimationPhase::Hiding => if slide_finished {
                    AnimationPhase::Hidden
                } else {
                    AnimationPhase::Hiding
                },
                other => other,
            },
            res == match old(self).phase {
                AnimationPhase::Hidden => false,
                AnimationPhase::Shown => old(self).output_changed,
                _ => true,
            },
    {
        match self.phase {
            AnimationPhase::Hidden => false,
            AnimationPhase::Shown => self.output_changed,
            AnimationPhase::Showing => {
                if slide_finished {
                    self.phase = AnimationPhase::Shown;
                }
                true
            },
            AnimationPhase::Hiding => {
                if slide_finished {
                    self.phase = AnimationPhase::Hidden;
                }
                true
            },
        }
    }
}

/// The number of minimap columns that are drawn.
pub open spec fn drawn_columns(g: MinimapGeometry) -> int {
    g.scrollback_width - g.x_offset
}

/// What is drawn for pixel row `y` and minimap column `xm`, if anything.
pub open spec fn draw_at(g: MinimapGeometry, y: int, xm: int) -> Option<Result<MinimapDraw, MinimapError>> {
    let tty_height_in_pixels = 2 * g.height;
    let empty_height = tty_height_in_pixels - g.scrollback_height;
    let x = g.width - g.scrollback_width + xm + g.x_offset;
    let screen_offset = tty_height_in_pixels - g.screen_height;
    if y < empty_height {
        if y % 2 == 0 {
            Some(Ok(MinimapDraw::Blank { x: x as usize, row: (y / 2) as usize }))
        } else {
            None
        }
    } else if y < screen_offset || !g.is_alternate_screen {
        Some(
            Ok(
                MinimapDraw::Pixel {
                    x: x as usize,
                    y: y as usize,
                    source: MinimapSource::Scrollback,
                    image_x: xm as u32,
                    image_y: (y - empty_height) as u32,
                },
            ),
        )
    } else if xm < g.screen_width {
        Some(
            Ok(
                MinimapDraw::Pixel {
                    x: x as usize,
                    y: y as usize,
                    source: MinimapSource::Screen,
                    image_x: xm as u32,
                    image_y: (y - screen_offset) as u32,
                },
            ),
        )
    } else {
        Some(Err(MinimapError::MissingPixel { x: xm as u32, y: (y - screen_offset) as u32 }))
    }
}

/// The drawing of the first `n` places, row by row and column by column, stopping at the
/// first missing pixel.
pub open spec fn plan_upto(g: MinimapGeometry, n: nat) -> Result<Seq<MinimapDraw>, MinimapError>
    decreases n,
{
    if n == 0 {
        Ok(Seq::empty())
    } else {
        match plan_upto(g, (n - 1) as nat) {
            Err(e) => Err(e),
            Ok(draws) => {
                let cols = drawn_columns(g);
                match draw_at(g, (n - 1) / cols, (n - 1) % cols) {
                    None => Ok(draws),
                    Some(Ok(d)) => Ok(draws.push(d)),
                    Some(Err(e)) => Err(e),
                }
            },
        }
    }
}

/// The whole drawing of the minimap.
pub open spec fn render_plan_of(g: MinimapGeometry) -> Result<Seq<MinimapDraw>, MinimapError> {
    plan_upto(g, (2 * g.height * drawn_columns(g)) as nat)
}

/// The geometry that drawing needs: the images fit the terminal, and the slide does not go
/// beyond the image.
pub open spec fn geometry_fits(g: MinimapGeometry) -> bool {
    &&& g.x_offset <= g.scrollback_width
    &&& g.scrollback_height <= 2 * g.height
    &&& drawn_columns(g) > 0 && g.height > 0 ==> {
        &&& g.scrollback_width <= g.width
        &&& g.screen_height <= 2 * g.height
    }
}

/// The place of row `y`, column `xm` in the row-by-row order.
proof fn lemma_place(y: int, xm: int, cols: int)
    requires
        0 <= y,
        0 <= xm < cols,
    ensures
        (y * cols + xm) / cols == y,
        (y * cols + xm) % cols == xm,
        y * cols + xm + 1 == y * cols + (xm + 1),
        (y + 1) * cols == y * cols + cols,
{
    assert((y * cols + xm) / cols == y) by (nonlinear_arith)
        requires
            0 <= y,
            0 <= xm < cols,
    ;
    assert((y * cols + xm) % cols == xm) by (nonlinear_arith)
        requires
            0 <= y,
            0 <= xm < cols,
    ;
    assert((y + 1) * cols == y * cols + cols) by (nonlinear_arith);
}

/// Draw one place: append its drawing or report its missing pixel.
fn draw_place(draws: &mut Vec<MinimapDraw>, g: MinimapGeometry, y: u32, xm: u32) -> (res: Result<(), MinimapError>)
    requires
        geometry_fits(g),
        y < 2 * g.height,
        xm < drawn_columns(g),
    ensures
        match draw_at(g, y as int, xm as int) {
            None => res is Ok && final(draws)@ == old(draws)@,
            Some(Ok(d)) => res is Ok && final(draws)@ == old(draws)@.push(d),
            Some(Err(e)) => res == Err::<(), MinimapError>(e),
        },
{
    let tty_height_in_pixels: u32 = 2 * (g.height as u32);
    let empty_height: u32 = tty_height_in_pixels - g.scrollback_height;
    let x: usize = ((g.width as u32) - g.scrollback_width + xm + g.x_offset) as usize;
    let screen_offset: u32 = tty_height_in_pixels - g.screen_height;
    if y < empty_height {
        if y % 2 == 0 {
            draws.push(MinimapDraw::Blank { x, row: (y / 2) as usize });
        }
        Ok(())
    } else if y < screen_offset || !g.is_alternate_screen {
        draws.push(
            MinimapDraw::Pixel {
                x,
                y: y as usize,
                source: MinimapSource::Scrollback,
                image_x: xm,
                image_y: y - empty_height,
            },
        );
        Ok(())
    } else if xm < g.screen_width {
        draws.push(
            MinimapDraw::Pixel {
                x,
                y: y as usize,
                source: MinimapSource::Screen,
                image_x: xm,
                image_y: y - screen_offset,
            },
        );
        Ok(())
    } else {
        Err(MinimapError::MissingPixel { x: xm, y: y - screen_offset })
    }
}

/// Plan the drawing of the minimap: row by row from the top, and in each row the drawn
/// columns of the minimap from the left. Above a minimap that is shorter than the terminal
/// the cells stay blank; below, pixels come from the scrollback's minimap, or from the
/// screen's minimap for the rows of the screen in the alternate screen.
pub fn render_plan(g: MinimapGeometry) -> (res: Result<Vec<MinimapDraw>, MinimapError>)
    requires
        geometry_fits(g),
    ensures
        match res {
            Ok(draws) => render_plan_of(g) == Ok::<Seq<MinimapDraw>, MinimapError>(draws@),
            Err(e) => render_plan_of(g) == Err::<Seq<MinimapDraw>, MinimapError>(e),
        },
{
    let mut draws: Vec<MinimapDraw> = Vec::new();
    let tty_height_in_pixels: u32 = 2 * (g.height as u32);
    let cols: u32 = g.scrollback_width - g.x_offset;
    let ghost c = cols as int;
    let mut y: u32 = 0;
    while y < tty_height_in_pixels
        invariant
            geometry_fits(g),
            tty_height_in_pixels == 2 * g.height,
            cols == drawn_columns(g),
            c == cols,
            0 <= y <= tty_height_in_pixels,
            plan_upto(g, (y * c) as nat) == Ok::<Seq<MinimapDraw>, MinimapError>(draws@),
        decreases tty_height_in_pixels - y,
    {
        let mut xm: u32 = 0;
        while xm < cols
            invariant
                geometry_fits(g),
                tty_height_in_pixels == 2 * g.height,
                cols == drawn_columns(g),
                c == cols,
                0 <= y < tty_height_in_pixels,
                0 <= xm <= cols,
                plan_upto(g, (y * c + xm) as nat) == Ok::<Seq<MinimapDraw>, MinimapError>(draws@),
            decreases cols - xm,
        {
            proof {
                lemma_place(y as int, xm as int, c);
                assert(0 <= y * c) by (nonlinear_arith)
                    requires
                        0 <= y,
                        0 <= c,
                ;
            }
            match draw_place(&mut draws, g, y, xm) {
                Ok(()) => {},
                Err(e) => {
                    proof {
                        assert(y * c + xm + 1 <= 2 * g.height * c) by (nonlinear_arith)
                            requires
                                0 <= xm < c,
                                y + 1 <= 2 * g.height,
                        ;
                        lemma_plan_stays_failed(g, (y * c + xm + 1) as nat, (2 * g.height * c) as nat);
                    }
                    return Err(e);
                },
            }
            xm = xm + 1;
        }
        assert((y + 1) * c == y * c + c) by (nonlinear_arith);
        y = y + 1;
    }
    proof {
        assert(y * c == 2 * g.height * c);
    }
    Ok(draws)
}

/// A drawing that lies on the terminal and reads its images where they have pixels.
pub open spec fn draw_inside(g: MinimapGeometry, d: MinimapDraw) -> bool {
    match d {
        MinimapDraw::Blank { x, row } => x < g.width && row < g.height,
        MinimapDraw::Pixel { x, y, source, image_x, image_y } => {
            &&& x < g.width
            &&& y < 2 * g.height
            &&& match source {
                MinimapSource::Scrollback => image_x < g.scrollback_width && image_y < g.scrollback_height,
                MinimapSource::Screen => image_x < g.screen_width && image_y < g.screen_height,
            }
        },
    }
}

/// Everything the minimap draws lies on the terminal, and every pixel it reads is in its
/// image: adding the minimap's pixels to the terminal's surface never fails.
pub proof fn lemma_plan_inside_terminal(g: MinimapGeometry, n: nat)
    requires
        geometry_fits(g),
        n <= 2 * g.height * drawn_columns(g),
    ensures
        plan_upto(g, n) matches Ok(draws) ==> forall|k: int|
            0 <= k < draws.len() ==> draw_inside(g, #[trigger] draws[k]),
    decreases n,
{
    if n > 0 {
        lemma_plan_inside_terminal(g, (n - 1) as nat);
        let cols = drawn_columns(g);
        let m = n - 1;
        assert(cols > 0) by (nonlinear_arith)
            requires
                0 <= m < 2 * g.height * cols,
                g.height >= 0,
        ;
        assert(m / cols < 2 * g.height && 0 <= m % cols < cols && 0 <= m / cols) by (nonlinear_arith)
            requires
                0 <= m < 2 * g.height * cols,
                cols > 0,
        ;
        assert(g.height > 0) by (nonlinear_arith)
            requires
                0 <= m < 2 * g.height * cols,
                cols > 0,
                g.height >= 0,
        ;
        match plan_upto(g, (n - 1) as nat) {
            Ok(draws) => {
                match draw_at(g, m / cols, m % cols) {
                    Some(Ok(d)) => {
                        assert(draw_inside(g, d));
                        assert forall|k: int| 0 <= k < draws.push(d).len() implies draw_inside(
                            g,
                            #[trigger] draws.push(d)[k],
                        ) by {
                            if k < draws.len() {
                                assert(draws.push(d)[k] == draws[k]);
                            }
                        }
                    },
                    _ => {},
                }
            },
            Err(_) => {},
        }
    }
}

/// Once a pixel is missing, the plan stays failed with it.
proof fn lemma_plan_stays_failed(g: MinimapGeometry, n: nat, m: nat)
    requires
        n <= m,
        plan_upto(g, n) is Err,
    ensures
        plan_upto(g, m) == plan_upto(g, n),
    decreases m - n,
{
    if n < m {
        lemma_plan_stays_failed(g, n, (m - 1) as nat);
    }
}

} // verus!
