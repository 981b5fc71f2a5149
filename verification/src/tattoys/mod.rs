//! The tattoys: the layers that are composited over and under the user's terminal.
pub mod tattoyer;
pub mod scrollbar;
pub mod random_walker;
pub mod bg_command;
pub mod notifications;
pub mod minimap;
pub mod startup_logo;
