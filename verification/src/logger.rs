//! Events for the background logger.
//!
//! The logger itself is an external collaborator: it runs on its own
//! thread, fed through a channel, and writes to a file.  Only the event
//! kind it consumes belongs to the library.

use vstd::prelude::*;

verus! {

/// One event sent to the logger thread.
pub enum LogEvent {
    /// An informative message.
    Info(String),
    /// An error message.
    Error(String),
    /// The signal to shut the logger down cleanly.
    CloseConnection,
}

} // verus!
