use distributed_calculator::client_error::ClientError;
use distributed_calculator::server_error::ServerError;

#[test]
fn server_error_messages() {
    assert_eq!(ServerError::MissingArgument.message(), "A required argument is missing.");
    assert_eq!(ServerError::InvalidArgument.message(), "An argument provided is invalid.");
    assert_eq!(ServerError::FailedConnection.message(), "Incoming connection failed.");
    assert_eq!(
        ServerError::BindFailed.message(),
        "Failed to bind to the specified address."
    );
    assert_eq!(ServerError::WriteFailed.message(), "Failed to write to the stream.");
    assert_eq!(
        ServerError::PoisonError.message(),
        "Failed to acquire lock on the calculator -> poisoned."
    );
    assert_eq!(ServerError::ReadFailed.message(), "Failed to read from the stream.");
}

#[test]
fn client_error_messages() {
    assert_eq!(ClientError::MissingArgument.message(), "A required argument is missing.");
    assert_eq!(ClientError::InvalidArgument.message(), "An argument provided is invalid.");
    assert_eq!(ClientError::FailedConnection.message(), "Incoming connection failed.");
    assert_eq!(
        ClientError::FailToReadLine.message(),
        "Failed to read a line from the input."
    );
    assert_eq!(ClientError::FailedWrite.message(), "Failed to write to the server.");
    assert_eq!(
        ClientError::ErrorMessage.message(),
        "Received a message incorrectly from the server."
    );
    assert_eq!(
        ClientError::ServerErrorMessage("boom".to_string()).message(),
        "boom"
    );
}
