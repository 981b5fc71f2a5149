//! The state that the application shares between its tasks.
use vstd::prelude::*;

verus! {

/// The size of the user's terminal.
#[derive(Clone, Copy, Debug, PartialEq, Eq, Structural)]
pub struct TTYSize {
    /// Width of the TTY.
    pub width: u16,
    /// Height of the TTY.
    pub height: u16,
}

impl Default for TTYSize {
    /// No size yet.
    fn default() -> (res: Self)
        ensures
            res.width == 0,
            res.height == 0,
    {
        TTYSize { width: 0, height: 0 }
    }
}

} // verus!
