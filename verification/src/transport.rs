//! The byte-moving layer between runtimes: its errors, and a call-style
//! transport whose replies a handler computes.

use vstd::prelude::*;
use vstd::string::StringExecFns;

verus! {

/// Errors that occur at the network or transport layer.
#[derive(Debug, Clone)]
pub enum Error {
    /// The peer is unreachable or the connection was dropped.
    ConnectionLost(String),
    /// The operation timed out before a response was received.
    Timeout,
    /// The remote peer rejected the payload size.
    PayloadTooLarge,
    /// Generic I/O error or internal transport failure.
    Io(String),
}

/// Outcome of a transport operation.
pub type Result<T> = core::result::Result<T, Error>;

impl Error {
    /// The human-readable description of an error.
    pub open spec fn spec_message(&self) -> Seq<char> {
        match self {
            Error::ConnectionLost(msg) => "connection lost: "@ + msg@,
            Error::Timeout => "request timed out"@,
            Error::PayloadTooLarge => "payload too large for transport"@,
            Error::Io(msg) => "i/o error: "@ + msg@,
        }
    }

    /// The human-readable description of this error.
    pub fn message(&self) -> (s: String)
        ensures
            s@ == self.spec_message(),
    {
        match self {
            Error::ConnectionLost(msg) => String::from_str("connection lost: ").concat(msg.as_str()),
            Error::Timeout => String::from_str("request timed out"),
            Error::PayloadTooLarge => String::from_str("payload too large for transport"),
            Error::Io(msg) => String::from_str("i/o error: ").concat(msg.as_str()),
        }
    }
}

/// A request-response transport: every request is answered by a handler
/// that maps the request bytes to the reply bytes.
pub struct CallTransport<F> where F: Fn(&[u8]) -> Result<Vec<u8>> + Send + Sync {
    handler: F,
}

impl<F> CallTransport<F> where F: Fn(&[u8]) -> Result<Vec<u8>> + Send + Sync {
    /// The handler that answers requests.
    pub closed spec fn spec_handler(&self) -> F {
        self.handler
    }

    /// A transport answered by `handler`.
    pub fn new(handler: F) -> (t: Self)
        ensures
            t.spec_handler() == handler,
    {
        CallTransport { handler }
    }
}

} // verus!
