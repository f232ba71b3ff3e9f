//! How the MCP server reads the egui client's replies. Sending a request
//! and receiving the reply are the caller's I/O; what each reply means is
//! decided here.

use vstd::prelude::*;
use crate::framing::ProtocolError;
use crate::protocol::Response;

verus! {

/// Text of the error for a reply of the wrong kind.
pub open spec fn unexpected_response_text() -> Seq<char> {
    "Unexpected response"@
}

/// The error for a reply that is neither the expected one nor an error.
fn unexpected_response() -> (e: ProtocolError)
    ensures
        e matches ProtocolError::Io(m) && m@ == unexpected_response_text(),
{
    ProtocolError::Io(String::from_str("Unexpected response"))
}

/// Meaning of the reply to `Ping`: the client is alive exactly when it
/// answers `Pong`; an error reply or any other reply counts as not alive.
pub fn ping_result(response: Response) -> (r: Result<bool, ProtocolError>)
    ensures
        r == Ok::<bool, ProtocolError>(response is Pong),
{
    match response {
        Response::Pong => Ok(true),
        _ => Ok(false),
    }
}

/// Meaning of the reply to a request that expects `Success` (inputs,
/// highlights, log clearing, recordings): an error reply carries its
/// message, any other reply is unexpected.
pub fn success_result(response: Response) -> (r: Result<(), ProtocolError>)
    ensures
        match response {
            Response::Success => r is Ok,
            Response::Error { message } => r matches Err(ProtocolError::Io(m)) && m@ == message@,
            _ => r matches Err(ProtocolError::Io(m)) && m@ == unexpected_response_text(),
        },
{
    match response {
        Response::Success => Ok(()),
        Response::Error { message } => Err(ProtocolError::Io(message)),
        _ => Err(unexpected_response()),
    }
}

/// Meaning of the reply to a screenshot request: the base64 data and its
/// format; an error reply carries its message, any other reply is
/// unexpected.
pub fn screenshot_result(response: Response) -> (r: Result<(String, String), ProtocolError>)
    ensures
        match response {
            Response::Screenshot { data, format } => r matches Ok((d, f)) && d@ == data@ && f@
                == format@,
            Response::Error { message } => r matches Err(ProtocolError::Io(m)) && m@ == message@,
            _ => r matches Err(ProtocolError::Io(m)) && m@ == unexpected_response_text(),
        },
{
    match response {
        Response::Screenshot { data, format } => Ok((data, format)),
        Response::Error { message } => Err(ProtocolError::Io(message)),
        _ => Err(unexpected_response()),
    }
}

} // verus!
