//! The errors of a session run.

use vstd::prelude::*;
use crate::text::{decimal, decimal_string};

verus! {

/// Why a session run failed.
#[derive(Debug, Clone, PartialEq, Eq)]
pub enum ClientError {
    /// The configuration lists no server at all.
    NoServers,
    /// The configuration lists servers, but none with an address.
    NoValidServers,
    /// The server answered 401: the API key is missing or invalid.
    Unauthorized,
    /// The server answered with a status outside 200..300 other than 401.
    BadStatus(u16),
    /// A successful response did not declare a JSON body.
    UnexpectedContentType(String),
    /// The session response lacks `sessionid` or `editurl`.
    InvalidSessionResponse,
    /// An inbound message has no string `type` field.
    InvalidMessage,
    /// A connection was asked for before a session was negotiated.
    NoSession,
    /// The network or the connection failed; the text says how.
    Transport(String),
}

/// The text that describes an error to the user and to the peer.
pub open spec fn error_text(e: ClientError) -> Seq<char> {
    match e {
        ClientError::NoServers => "No servers configured"@,
        ClientError::NoValidServers => "No valid servers found"@,
        ClientError::Unauthorized => "Unauthorized: check your API key"@,
        ClientError::BadStatus(code) => "Request failed with status: "@ + decimal(code as nat),
        ClientError::UnexpectedContentType(t) => "Unexpected content-type: "@ + t@,
        ClientError::InvalidSessionResponse => "Invalid session response format"@,
        ClientError::InvalidMessage => "Invalid message: no type field"@,
        ClientError::NoSession => "No session ID available"@,
        ClientError::Transport(t) => t@,
    }
}

impl ClientError {
    /// The text that describes this error.
    pub fn message(&self) -> (r: String)
        ensures
            r@ == error_text(*self),
    {
        let mut out = String::new();
        match self {
            ClientError::NoServers => out.append("No servers configured"),
            ClientError::NoValidServers => out.append("No valid servers found"),
            ClientError::Unauthorized => out.append("Unauthorized: check your API key"),
            ClientError::BadStatus(code) => {
                out.append("Request failed with status: ");
                let d = decimal_string(*code as u64);
                out.append(d.as_str());
            },
            ClientError::UnexpectedContentType(t) => {
                out.append("Unexpected content-type: ");
                out.append(t.as_str());
            },
            ClientError::InvalidSessionResponse => out.append("Invalid session response format"),
            ClientError::InvalidMessage => out.append("Invalid message: no type field"),
            ClientError::NoSession => out.append("No session ID available"),
            ClientError::Transport(t) => out.append(t.as_str()),
        }
        out
    }
}

} // verus!
