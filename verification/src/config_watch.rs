//! Reloading the configuration when its file changes.
//!
//! Watching the configuration directory is the application's part. What it decides is here:
//! only a change to a file's data reloads the configuration, and every reload is answered with
//! a notification, of success or of the reason it failed.
use crate::tattoys::notifications::{Level, Message};
use vstd::prelude::*;

verus! {

/// A change to a file in the configuration directory, as far as reloading cares.
#[derive(Clone, Copy, Debug, PartialEq, Eq, Structural)]
pub enum ConfigFileChange {
    /// The data of a file was modified.
    DataModified,
    /// Anything else: a file was created, removed, renamed, or only its metadata changed.
    Other,
}

/// Whether a change to a file reloads the configuration: only a change to its data does.
pub fn reloads_config(change: ConfigFileChange) -> (res: bool)
    ensures
        res == (change == ConfigFileChange::DataModified),
{
    match change {
        ConfigFileChange::DataModified => true,
        ConfigFileChange::Other => false,
    }
}

/// The notification that answers a reload: "Config updated" on success, otherwise
/// "Config update error" with the root cause of the failure as its body.
pub fn config_reload_notification(result: Result<(), String>) -> (res: Message)
    ensures
        result is Ok ==> res.title@ == "Config updated"@ && res.level == Level::Info && res.body is None,
        result matches Err(cause) ==> res.title@ == "Config update error"@ && res.level == Level::Error
            && res.body == Some(cause),
{
    match result {
        Ok(()) => Message::make("Config updated", Level::Info, None),
        Err(cause) => Message::make("Config update error", Level::Error, Some(cause)),
    }
}

} // verus!
