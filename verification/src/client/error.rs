//! Client errors.

use vstd::prelude::*;
use crate::text::{concat, i32_to_decimal, signed_decimal};

verus! {

#[verifier::external_type_specification]
#[verifier::external_body]
pub struct ExJsonError(serde_json::Error);

#[verifier::external_type_specification]
#[verifier::external_body]
pub struct ExIoError(std::io::Error);

/// `serde_json::Error`'s `Display` (`to_string`). Nothing is claimed of the
/// text.
#[verifier::external_body]
fn json_error_to_string(e: &serde_json::Error) -> String {
    e.to_string()
}

/// `std::io::Error`'s `Display` (`to_string`). Nothing is claimed of the
/// text (it may come from the operating system).
#[verifier::external_body]
fn io_error_to_string(e: &std::io::Error) -> String {
    e.to_string()
}

/// Client errors.
pub enum ClientError {
    /// Transport error (connection failed, IO error, etc.)
    Transport(String),
    /// JSON-RPC error returned by the server
    ServerError { code: i32, message: String },
    /// Serialization/deserialization error
    Serialization(serde_json::Error),
    /// IO error
    Io(std::io::Error),
    /// Request timeout
    Timeout,
    /// Connection closed
    Closed,
    /// Invalid response
    InvalidResponse(String),
    /// Protocol error
    Protocol(String),
    /// Client not initialized
    NotInitialized,
    /// Request cancelled
    Cancelled,
}

impl ClientError {
    /// The text that `Display` writes for this error.
    pub fn message(&self) -> (m: String)
        ensures
            self matches ClientError::Transport(s) ==> m@ == "Transport error: "@ + s@,
            self matches ClientError::ServerError { code, message } ==>
                m@ == "Server error ("@ + signed_decimal(*code as int) + "): "@ + message@,
            self is Serialization ==> "Serialization error: "@.is_prefix_of(m@),
            self is Io ==> "IO error: "@.is_prefix_of(m@),
            self is Timeout ==> m@ == "Request timeout"@,
            self is Closed ==> m@ == "Connection closed"@,
            self matches ClientError::InvalidResponse(s) ==> m@ == "Invalid response: "@ + s@,
            self matches ClientError::Protocol(s) ==> m@ == "Protocol error: "@ + s@,
            self is NotInitialized ==> m@ == "Client not initialized - call initialize() first"@,
            self is Cancelled ==> m@ == "Request cancelled"@,
    {
        match self {
            ClientError::Transport(s) => concat("Transport error: ", s.as_str()),
            ClientError::ServerError { code, message } => {
                let c = i32_to_decimal(*code);
                let head = concat(concat("Server error (", c.as_str()).as_str(), "): ");
                concat(head.as_str(), message.as_str())
            },
            ClientError::Serialization(e) => {
                let d = json_error_to_string(e);
                let m = concat("Serialization error: ", d.as_str());
                assert("Serialization error: "@.is_prefix_of(m@));
                m
            },
            ClientError::Io(e) => {
                let d = io_error_to_string(e);
                let m = concat("IO error: ", d.as_str());
                assert("IO error: "@.is_prefix_of(m@));
                m
            },
            ClientError::Timeout => "Request timeout".to_owned(),
            ClientError::Closed => "Connection closed".to_owned(),
            ClientError::InvalidResponse(s) => concat("Invalid response: ", s.as_str()),
            ClientError::Protocol(s) => concat("Protocol error: ", s.as_str()),
            ClientError::NotInitialized => "Client not initialized - call initialize() first".to_owned(),
            ClientError::Cancelled => "Request cancelled".to_owned(),
        }
    }
}

impl From<serde_json::Error> for ClientError {
    fn from(e: serde_json::Error) -> (r: ClientError) {
        ClientError::Serialization(e)
    }
}

impl vstd::std_specs::convert::FromSpecImpl<serde_json::Error> for ClientError {
    open spec fn obeys_from_spec() -> bool {
        true
    }

    open spec fn from_spec(e: serde_json::Error) -> ClientError {
        ClientError::Serialization(e)
    }
}

impl From<std::io::Error> for ClientError {
    fn from(e: std::io::Error) -> (r: ClientError) {
        ClientError::Io(e)
    }
}

impl vstd::std_specs::convert::FromSpecImpl<std::io::Error> for ClientError {
    open spec fn obeys_from_spec() -> bool {
        true
    }

    open spec fn from_spec(e: std::io::Error) -> ClientError {
        ClientError::Io(e)
    }
}

} // verus!
