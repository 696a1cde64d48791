//! The failures the server can meet, each with its descriptive text.

use vstd::prelude::*;

verus! {

/// One specific failure met while serving.
#[derive(Debug)]
pub enum ServerError {
    /// A required command-line argument is missing.
    MissingArgument,
    /// A command-line argument is invalid.
    InvalidArgument,
    /// Accepting an incoming connection failed.
    FailedConnection,
    /// Binding the listening socket failed.
    BindFailed,
    /// Writing to a connection failed.
    WriteFailed,
    /// The distinguished lock-unusable failure: the calculator's guard can
    /// no longer certify a consistent state.  The library's verified lock
    /// never reaches this state, but the interface keeps the error value.
    PoisonError,
    /// Reading from a connection failed.
    ReadFailed,
}

/// The descriptive text of each failure.
pub open spec fn spec_server_error_message(e: ServerError) -> Seq<char> {
    match e {
        ServerError::MissingArgument => "A required argument is missing."@,
        ServerError::InvalidArgument => "An argument provided is invalid."@,
        ServerError::FailedConnection => "Incoming connection failed."@,
        ServerError::BindFailed => "Failed to bind to the specified address."@,
        ServerError::WriteFailed => "Failed to write to the stream."@,
        ServerError::PoisonError => "Failed to acquire lock on the calculator -> poisoned."@,
        ServerError::ReadFailed => "Failed to read from the stream."@,
    }
}

impl ServerError {
    /// A descriptive message for this failure.
    pub fn message(&self) -> (r: &str)
        ensures
            r@ == spec_server_error_message(*self),
    {
        match self {
            ServerError::MissingArgument => "A required argument is missing.",
            ServerError::InvalidArgument => "An argument provided is invalid.",
            ServerError::FailedConnection => "Incoming connection failed.",
            ServerError::BindFailed => "Failed to bind to the specified address.",
            ServerError::WriteFailed => "Failed to write to the stream.",
            ServerError::PoisonError => "Failed to acquire lock on the calculator -> poisoned.",
            ServerError::ReadFailed => "Failed to read from the stream.",
        }
    }
}

} // verus!
