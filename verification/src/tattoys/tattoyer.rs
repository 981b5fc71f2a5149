//! Shared state and behaviour useful to all tattoys: the size of the terminal, how far the user
//! has scrolled back into the history and whether the terminal shows its alternate screen.
//!
//! The terminal's surfaces themselves live in the application. Here a tattoy keeps what its
//! decisions read from them: their dimensions, the scroll position and the screen mode.
use vstd::prelude::*;

verus! {

/// A change to one of the underlying terminal's surfaces.
#[derive(Clone, Copy, Debug, PartialEq, Eq, Structural)]
pub enum SurfaceUpdate {
    /// Changes to the scrollback: the terminal's size, the scrollback's height, the scroll
    /// position and the number of changes (there is always one, for the cursor).
    ScrollbackDiff { width: usize, height: usize, scrollback_height: usize, position: usize, changes: usize },
    /// Changes to the screen: the terminal's size and the number of changes.
    ScreenDiff { width: usize, height: usize, changes: usize },
    /// A complete scrollback: its height and scroll position.
    CompleteScrollback { scrollback_height: usize, position: usize },
    /// A complete screen: its size and whether it is the alternate screen.
    CompleteScreen { width: usize, height: usize, alternate: bool },
}

/// The messages of the application's protocol that tattoys react to.
#[derive(Clone, Copy, Debug, PartialEq, Eq, Structural)]
pub enum ProtocolMessage {
    /// The user's terminal was resized.
    Resize { width: u16, height: u16 },
    /// Output from the underlying terminal.
    Output(SurfaceUpdate),
    /// A new configuration, with its frame rate.
    Config { frame_rate: u32 },
    /// Any other message.
    Other,
}

/// Why a message could not be handled.
#[derive(Clone, Copy, Debug, PartialEq, Eq, Structural)]
pub enum TattoyerError {
    /// A dimension of the terminal does not fit in 16 bits.
    DimensionTooLarge(usize),
}

/// Shared state of a tattoy.
#[derive(Clone, Debug)]
pub struct Tattoyer {
    /// A unique identifier.
    pub id: String,
    /// The compositing layer that the tattoy is rendered to. 0 is the PTY screen itself.
    pub layer: i16,
    /// TTY width.
    pub width: u16,
    /// TTY height.
    pub height: u16,
    /// The number of rows in our copy of the scrollback.
    pub scrollback_height: usize,
    /// How many rows the user has scrolled back; 0 when not scrolling.
    pub scroll_position: usize,
    /// Whether our copy of the screen is the alternate screen.
    pub alternate_screen: bool,
    /// The target frame rate.
    pub frame_rate: u32,
    /// The scroll position when the previous frame was sent.
    pub last_scroll_position: usize,
}

/// The size a message reports for the terminal, if it reports one.
pub open spec fn reported_size(message: ProtocolMessage) -> Option<(int, int)> {
    match message {
        ProtocolMessage::Resize { width, height } => Some((width as int, height as int)),
        ProtocolMessage::Output(SurfaceUpdate::ScrollbackDiff { width, height, .. }) => Some(
            (width as int, height as int),
        ),
        ProtocolMessage::Output(SurfaceUpdate::ScreenDiff { width, height, .. }) => Some(
            (width as int, height as int),
        ),
        ProtocolMessage::Output(SurfaceUpdate::CompleteScreen { width, height, .. }) => Some(
            (width as int, height as int),
        ),
        _ => None,
    }
}

/// The first reported dimension that does not fit in 16 bits.
pub open spec fn oversized(message: ProtocolMessage) -> Option<usize> {
    match message {
        ProtocolMessage::Output(SurfaceUpdate::ScrollbackDiff { width, height, .. })
        | ProtocolMessage::Output(SurfaceUpdate::ScreenDiff { width, height, .. })
        | ProtocolMessage::Output(SurfaceUpdate::CompleteScreen { width, height, .. }) => {
            if width > u16::MAX {
                Some(width)
            } else if height > u16::MAX {
                Some(height)
            } else {
                None
            }
        },
        _ => None,
    }
}

/// The state of a tattoy after it handled a message. The scrollback of a diff is resized
/// before its size is checked, so a diff with an oversized dimension still resizes it.
pub open spec fn handled(t: Tattoyer, message: ProtocolMessage) -> Tattoyer {
    match message {
        ProtocolMessage::Resize { width, height } => Tattoyer { width, height, ..t },
        ProtocolMessage::Config { frame_rate } => Tattoyer { frame_rate, ..t },
        ProtocolMessage::Other => t,
        ProtocolMessage::Output(update) => match update {
            SurfaceUpdate::ScrollbackDiff { width, height, scrollback_height, position, .. } => {
                if oversized(message) is Some {
                    Tattoyer { scrollback_height, ..t }
                } else {
                    Tattoyer {
                        scrollback_height,
                        width: width as u16,
                        height: height as u16,
                        scroll_position: position,
                        ..t
                    }
                }
            },
            SurfaceUpdate::ScreenDiff { width, height, .. } => {
                if oversized(message) is Some {
                    t
                } else {
                    Tattoyer { width: width as u16, height: height as u16, ..t }
                }
            },
            SurfaceUpdate::CompleteScrollback { scrollback_height, position } => Tattoyer {
                scrollback_height,
                scroll_position: position,
                ..t
            },
            SurfaceUpdate::CompleteScreen { width, height, alternate } => {
                if oversized(message) is Some {
                    t
                } else {
                    Tattoyer {
                        width: width as u16,
                        height: height as u16,
                        alternate_screen: alternate,
                        ..t
                    }
                }
            },
        },
    }
}

/// Convert a dimension to 16 bits.
fn dimension(value: usize) -> (res: Result<u16, TattoyerError>)
    ensures
        value <= u16::MAX ==> res == Ok::<u16, TattoyerError>(value as u16),
        value > u16::MAX ==> res == Err::<u16, TattoyerError>(TattoyerError::DimensionTooLarge(value)),
{
    if value <= 65535 {
        Ok(value as u16)
    } else {
        Err(TattoyerError::DimensionTooLarge(value))
    }
}

impl Tattoyer {
    /// A tattoy that does not know the terminal's size yet.
    pub fn new(id: String, layer: i16) -> (res: Self)
        ensures
            res.id@ == id@,
            res.layer == layer,
            res.width == 0,
            res.height == 0,
            res.scrollback_height == 0,
            res.scroll_position == 0,
            !res.alternate_screen,
            res.frame_rate == 30,
            res.last_scroll_position == 0,
    {
        Tattoyer {
            id,
            layer,
            width: 0,
            height: 0,
            scrollback_height: 0,
            scroll_position: 0,
            alternate_screen: false,
            frame_rate: 30,
            last_scroll_position: 0,
        }
    }

    /// Is the tattoy ready to be built?
    pub fn is_ready(&self) -> (res: bool)
        ensures
            res == (self.width > 0 && self.height > 0),
    {
        self.width > 0 && self.height > 0
    }

    /// Keep track of the size of the underlying terminal.
    pub fn set_tty_size(&mut self, width: u16, height: u16)
        ensures
            *final(self) == (Tattoyer { width, height, ..*old(self) }),
    {
        self.width = width;
        self.height = height;
    }

    /// Whether the user is scrolling.
    pub fn is_scrolling(&self) -> (res: bool)
        ensures
            res == (self.scroll_position != 0),
    {
        self.scroll_position != 0
    }

    /// Has scrolling just ended? Scrolling was seen when the previous frame was sent, and
    /// has stopped since.
    pub fn is_scrolling_end(&self) -> (res: bool)
        ensures
            res == (self.last_scroll_position != 0 && self.scroll_position == 0),
    {
        self.last_scroll_position != 0 && !self.is_scrolling()
    }

    /// Is the underlying terminal in the alternate screen?
    pub fn is_alternate_screen(&self) -> (res: bool)
        ensures
            res == self.alternate_screen,
    {
        self.alternate_screen
    }

    /// Remember the scroll position at which a frame was sent.
    pub fn frame_sent(&mut self)
        ensures
            *final(self) == (Tattoyer { last_scroll_position: old(self).scroll_position, ..*old(self) }),
    {
        self.last_scroll_position = self.scroll_position;
    }

    /// Handle common protocol messages, like resizing and new output from the underlying
    /// terminal. A message that reports a dimension that does not fit in 16 bits is refused.
    pub fn handle_common_protocol_messages(&mut self, message: ProtocolMessage) -> (res: Result<
        (),
        TattoyerError,
    >)
        ensures
            *final(self) == handled(*old(self), message),
            res == match oversized(message) {
                Some(value) => Err::<(), TattoyerError>(TattoyerError::DimensionTooLarge(value)),
                None => Ok::<(), TattoyerError>(()),
            },
    {
        match message {
            ProtocolMessage::Resize { width, height } => {
                self.set_tty_size(width, height);
                Ok(())
            },
            ProtocolMessage::Output(update) => self.handle_pty_output(update),
            ProtocolMessage::Config { frame_rate } => {
                self.frame_rate = frame_rate;
                Ok(())
            },
            ProtocolMessage::Other => Ok(()),
        }
    }

    /// Handle new output from the underlying PTY.
    pub fn handle_pty_output(&mut self, update: SurfaceUpdate) -> (res: Result<(), TattoyerError>)
        ensures
            *final(self) == handled(*old(self), ProtocolMessage::Output(update)),
            res == match oversized(ProtocolMessage::Output(update)) {
                Some(value) => Err::<(), TattoyerError>(TattoyerError::DimensionTooLarge(value)),
                None => Ok::<(), TattoyerError>(()),
            },
    {
        match update {
            SurfaceUpdate::ScrollbackDiff { width, height, scrollback_height, position, .. } => {
                self.scrollback_height = scrollback_height;
                let w = match dimension(width) {
                    Ok(w) => w,
                    Err(e) => return Err(e),
                };
                let h = match dimension(height) {
                    Ok(h) => h,
                    Err(e) => return Err(e),
                };
                self.set_tty_size(w, h);
                self.scroll_position = position;
                Ok(())
            },
            SurfaceUpdate::ScreenDiff { width, height, .. } => {
                let w = match dimension(width) {
                    Ok(w) => w,
                    Err(e) => return Err(e),
                };
                let h = match dimension(height) {
                    Ok(h) => h,
                    Err(e) => return Err(e),
                };
                self.set_tty_size(w, h);
                Ok(())
            },
            SurfaceUpdate::CompleteScrollback { scrollback_height, position } => {
                self.scrollback_height = scrollback_height;
                self.scroll_position = position;
                Ok(())
            },
            SurfaceUpdate::CompleteScreen { width, height, alternate } => {
                let w = match dimension(width) {
                    Ok(w) => w,
                    Err(e) => return Err(e),
                };
                let h = match dimension(height) {
                    Ok(h) => h,
                    Err(e) => return Err(e),
                };
                self.set_tty_size(w, h);
                self.alternate_screen = alternate;
                Ok(())
            },
        }
    }

    /// Check if the scrollback output has changed: a resize, a complete scrollback, or a
    /// scrollback diff with more than the one change that always reports the cursor.
    pub fn is_scrollback_output_changed(message: &ProtocolMessage) -> (res: bool)
        ensures
            res == match *message {
                ProtocolMessage::Resize { .. } => true,
                ProtocolMessage::Output(SurfaceUpdate::ScrollbackDiff { changes, .. }) => changes > 1,
                ProtocolMessage::Output(SurfaceUpdate::CompleteScrollback { .. }) => true,
                _ => false,
            },
    {
        match message {
            ProtocolMessage::Resize { .. } => true,
            ProtocolMessage::Output(SurfaceUpdate::ScrollbackDiff { changes, .. }) => *changes > 1,
            ProtocolMessage::Output(SurfaceUpdate::CompleteScrollback { .. }) => true,
            _ => false,
        }
    }

    /// Check if the screen output has changed: a resize, a complete screen, or a screen diff
    /// with more than the one change that always reports the cursor.
    pub fn is_screen_output_changed(message: &ProtocolMessage) -> (res: bool)
        ensures
            res == match *message {
                ProtocolMessage::Resize { .. } => true,
                ProtocolMessage::Output(SurfaceUpdate::ScreenDiff { changes, .. }) => changes > 1,
                ProtocolMessage::Output(SurfaceUpdate::CompleteScreen { .. }) => true,
                _ => false,
            },
    {
        match message {
            ProtocolMessage::Resize { .. } => true,
            ProtocolMessage::Output(SurfaceUpdate::ScreenDiff { changes, .. }) => *changes > 1,
            ProtocolMessage::Output(SurfaceUpdate::CompleteScreen { .. }) => true,
            _ => false,
        }
    }
}

/// A tattoy is ready exactly when the last reported size has no zero dimension, and a message
/// that reports no size leaves readiness as it was.
pub proof fn lemma_ready_follows_reported_size(t: Tattoyer, message: ProtocolMessage)
    ensures
        oversized(message) is None ==> (reported_size(message) matches Some(size) ==> (handled(
            t,
            message,
        ).width > 0 && handled(t, message).height > 0) == (size.0 > 0 && size.1 > 0)),
        reported_size(message) is None ==> handled(t, message).width == t.width && handled(
            t,
            message,
        ).height == t.height,
{
}

/// Scrolling ends once: after a frame is sent with scrolling stopped, scrolling has not just
/// ended any more.
pub proof fn lemma_scrolling_end_is_reported_once(t: Tattoyer)
    ensures
        ({
            let sent = Tattoyer { last_scroll_position: t.scroll_position, ..t };
            !(sent.last_scroll_position != 0 && sent.scroll_position == 0)
        }),
{
}

} // verus!
