//! The failures the client can meet, each with its descriptive text.

use vstd::prelude::*;

verus! {

/// One specific failure met on the client side.
#[derive(Debug)]
pub enum ClientError {
    /// A required command-line argument is missing.
    MissingArgument,
    /// A command-line argument is invalid.
    InvalidArgument,
    /// Connecting to the server failed.
    FailedConnection,
    /// Reading a line from the input failed.
    FailToReadLine,
    /// Writing to the server failed.
    FailedWrite,
    /// The server answered with something other than a value or an error.
    ErrorMessage,
    /// An error message the server reported.
    ServerErrorMessage(String),
}

/// The descriptive text of each failure.
pub open spec fn spec_client_error_message(e: &ClientError) -> Seq<char> {
    match e {
        ClientError::MissingArgument => "A required argument is missing."@,
        ClientError::InvalidArgument => "An argument provided is invalid."@,
        ClientError::FailedConnection => "Incoming connection failed."@,
        ClientError::FailToReadLine => "Failed to read a line from the input."@,
        ClientError::FailedWrite => "Failed to write to the server."@,
        ClientError::ErrorMessage => "Received a message incorrectly from the server."@,
        ClientError::ServerErrorMessage(msg) => msg@,
    }
}

impl ClientError {
    /// A descriptive message for this failure.
    pub fn message(&self) -> (r: &str)
        ensures
            r@ == spec_client_error_message(self),
    {
        match self {
            ClientError::MissingArgument => "A required argument is missing.",
            ClientError::InvalidArgument => "An argument provided is invalid.",
            ClientError::FailedConnection => "Incoming connection failed.",
            ClientError::FailToReadLine => "Failed to read a line from the input.",
            ClientError::FailedWrite => "Failed to write to the server.",
            ClientError::ErrorMessage => "Received a message incorrectly from the server.",
            ClientError::ServerErrorMessage(msg) => msg.as_str(),
        }
    }
}

} // verus!
