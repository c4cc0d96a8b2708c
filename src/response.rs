//! Classification of what came back from one HTTP request.
use vstd::prelude::*;

verus! {

/// What the transport reports for one request.
#[derive(Debug, Clone, Copy, PartialEq, Eq, Structural)]
pub enum Outcome {
    /// A response arrived with this HTTP status code.
    Status(u16),
    /// No response: the connection, TLS or a timeout failed.
    SendFailed,
}

/// Why a request to the controller failed.
#[derive(Debug, Clone, Copy, PartialEq, Eq, Structural)]
pub enum TransportError {
    /// The request could not be sent or no response arrived.
    SendFailed,
    /// The controller answered with a server error status (5xx).
    ServerError(u16),
    /// The controller answered with any other status that is not a success.
    UnexpectedStatus(u16),
}

pub open spec fn is_success_status(code: u16) -> bool {
    200 <= code <= 299
}

pub open spec fn is_server_error_status(code: u16) -> bool {
    500 <= code <= 599
}

pub open spec fn classify_spec(o: Outcome) -> Result<(), TransportError> {
    match o {
        Outcome::SendFailed => Err(TransportError::SendFailed),
        Outcome::Status(code) => if is_success_status(code) {
            Ok(())
        } else if is_server_error_status(code) {
            Err(TransportError::ServerError(code))
        } else {
            Err(TransportError::UnexpectedStatus(code))
        },
    }
}

/// Maps a transport outcome to success or to the kind of failure; only the
/// status code decides.
pub fn classify(o: Outcome) -> (r: Result<(), TransportError>)
    ensures
        r == classify_spec(o),
{
    match o {
        Outcome::SendFailed => Err(TransportError::SendFailed),
        Outcome::Status(code) => {
            if 200 <= code && code <= 299 {
                Ok(())
            } else if 500 <= code && code <= 599 {
                Err(TransportError::ServerError(code))
            } else {
                Err(TransportError::UnexpectedStatus(code))
            }
        },
    }
}

} // verus!
