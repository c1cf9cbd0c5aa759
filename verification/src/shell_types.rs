//! Plain message types exchanged with the surrounding desktop shell.
//!
//! The shell's windows, dialogs and watchers live outside this library;
//! these are the value types that cross that boundary.
use vstd::prelude::*;

verus! {

/// A screen position, as the shell reports pointer events.
#[derive(Clone, Copy, Debug, PartialEq, Eq, Structural)]
pub struct Position {
    pub x: i32,
    pub y: i32,
}

/// A command to the filesystem watcher: observe a path, recursively or
/// not, or stop observing it.
pub enum WatcherCommand {
    Watch(String, bool),
    Unwatch(String),
}

/// What a dialog request carries: the dialog's type, its labels and its
/// message.
pub struct DialogOptions {
    pub dialog_type: String,
    pub title: Option<String>,
    pub kind: Option<String>,
    pub ok_label: Option<String>,
    pub cancel_label: Option<String>,
    pub message: String,
}

} // verus!
