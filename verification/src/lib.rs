//! Verified core logic of the Tattoy terminal compositor.
use vstd::prelude::*;

pub mod ansi;
pub mod compositor;
pub mod config_input;
pub mod config_watch;
pub mod input;
pub mod loader;
pub mod palette;
pub mod palette_parser;
pub mod plugin_protocol;
pub mod renderer;
pub mod run;
pub mod shaders;
pub mod shadow_terminal;
pub mod shared_state;
pub mod smokey_cursor;
pub mod steppable_terminal;
pub mod surface;
pub mod tattoys;
pub mod terminal_proxy;
pub mod util;

verus! {

} // verus!
