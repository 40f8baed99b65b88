//! The request bookkeeping of an RPC client: the plain predecessor of the
//! peer, with no connection lifecycle.
//!
//! A client numbers its requests, waits for their replies, and when its
//! message pump stops tells every waiting caller. When the pump stopped on
//! a message it could not handle and exactly one request was waiting, that
//! request gets the message's error; every other waiting request is told
//! that the connection was lost.

use vstd::prelude::*;
use vstd::string::StringExecFns;
use std::time::Duration;
use crate::transport;
use crate::text::{decimal, decimal_string};
use crate::calls::{CallsView, PendingCalls, duration_of_secs, duration_from_secs};

verus! {

/// Errors of calls made through a client.
#[derive(Debug, Clone)]
pub enum Error {
    Transport(transport::Error),
    Timeout,
    ChannelClosed,
    SequenceMismatch { expected: u64, received: u64 },
}

/// Outcome of a client operation.
pub type Result<T> = core::result::Result<T, Error>;

impl Error {
    /// The human-readable description of an error.
    pub open spec fn spec_message(&self) -> Seq<char> {
        match self {
            Error::Transport(e) => "Transport error: "@ + e.spec_message(),
            Error::Timeout => "Request timed out"@,
            Error::ChannelClosed => "Response channel closed"@,
            Error::SequenceMismatch { expected, received } =>
                "Sequence mismatch: expected "@ + decimal(*expected as nat) + ", received "@
                    + decimal(*received as nat),
        }
    }

    /// The human-readable description of this error.
    pub fn message(&self) -> (s: String)
        ensures
            s@ == self.spec_message(),
    {
        match self {
            Error::Transport(e) => {
                let inner = e.message();
                String::from_str("Transport error: ").concat(inner.as_str())
            },
            Error::Timeout => String::from_str("Request timed out"),
            Error::ChannelClosed => String::from_str("Response channel closed"),
            Error::SequenceMismatch { expected, received } => {
                let e = decimal_string(*expected);
                let r = decimal_string(*received);
                String::from_str("Sequence mismatch: expected ").concat(e.as_str()).concat(
                    ", received ",
                ).concat(r.as_str())
            },
        }
    }
}

/// How long a client waits for a reply, in whole seconds.
pub const CLIENT_CALL_TIMEOUT_SECS: u64 = 30;

/// What went wrong with a client call after it was registered.
#[derive(Debug, Clone)]
pub enum CallFailure {
    /// The transport refused the request.
    SendFailed(transport::Error),
    /// The reply channel closed without a reply.
    ChannelClosed,
    /// No reply came within the timeout.
    TimedOut,
}

impl CallFailure {
    /// The error a caller receives for a failure.
    pub open spec fn spec_error(self) -> Error {
        match self {
            CallFailure::SendFailed(e) => Error::Transport(e),
            CallFailure::ChannelClosed => Error::ChannelClosed,
            CallFailure::TimedOut => Error::Timeout,
        }
    }
}

/// Who is told what when the pump stops.
pub struct PumpStop {
    /// The request that receives the error of the message the pump could
    /// not handle, if that error goes to a single request.
    pub failed: Option<u64>,
    /// The requests that are told the connection was lost.
    pub lost: Vec<u64>,
}

/// The bookkeeping of an RPC client.
pub struct Client {
    calls: PendingCalls,
}

impl View for Client {
    type V = CallsView;

    closed spec fn view(&self) -> CallsView {
        self.calls@
    }
}

impl Client {
    /// The client's internal consistency: finitely many requests wait.
    pub closed spec fn wf(&self) -> bool {
        self.calls.wf()
    }

    /// A client with no request waiting; the first request gets sequence
    /// number 1.
    pub fn new() -> (c: Client)
        ensures
            c.wf(),
            c@ == (CallsView { pending: Set::empty(), next_seq: 1 }),
    {
        Client { calls: PendingCalls::new() }
    }

    /// How long a call waits for its reply.
    pub fn call_timeout(&self) -> (d: Duration)
        ensures
            d == duration_of_secs(CLIENT_CALL_TIMEOUT_SECS),
    {
        duration_from_secs(CLIENT_CALL_TIMEOUT_SECS)
    }

    /// The number of requests that wait for a reply.
    pub fn pending_len(&self) -> (n: usize)
        requires
            self.wf(),
        ensures
            n == self@.pending.len(),
    {
        self.calls.len()
    }

    /// Registers a request: it receives the next sequence number and waits
    /// for its reply.
    pub fn prepare_call(&mut self) -> (seq: u64)
        requires
            old(self).wf(),
        ensures
            final(self).wf(),
            seq == old(self)@.next_seq,
            final(self)@ == old(self)@.registered(),
    {
        self.calls.register()
    }

    /// Records that a reply for `seq` arrived. The request stops waiting;
    /// the answer tells whether it was waiting at all.
    pub fn take_reply(&mut self, seq: u64) -> (found: bool)
        requires
            old(self).wf(),
        ensures
            final(self).wf(),
            found == old(self)@.pending.contains(seq),
            final(self)@ == old(self)@.released(seq),
    {
        self.calls.release(seq)
    }

    /// Records that call `seq` failed after it was registered: the client
    /// stops waiting for it, and the caller receives the matching error.
    pub fn fail_call(&mut self, seq: u64, failure: CallFailure) -> (e: Error)
        requires
            old(self).wf(),
        ensures
            final(self).wf(),
            e == failure.spec_error(),
            final(self)@ == old(self)@.released(seq),
    {
        self.calls.release(seq);
        match failure {
            CallFailure::SendFailed(e) => Error::Transport(e),
            CallFailure::ChannelClosed => Error::ChannelClosed,
            CallFailure::TimedOut => Error::Timeout,
        }
    }

    /// Records that the pump stopped, on a message it could not handle
    /// (`message_error`) or because the stream ended or failed. Every
    /// waiting request is released and each is named once: when the pump
    /// stopped on a message and exactly one request waited, that request
    /// receives the message's error; otherwise all are told the connection
    /// was lost.
    pub fn pump_stopped(&mut self, message_error: bool) -> (r: PumpStop)
        requires
            old(self).wf(),
        ensures
            final(self).wf(),
            final(self)@ == (CallsView { pending: Set::empty(), ..old(self)@ }),
            r.lost@.no_duplicates(),
            message_error && old(self)@.pending.len() == 1 ==> r.lost@.len() == 0,
            message_error && old(self)@.pending.len() == 1 ==> (r.failed matches Some(s)
                && old(self)@.pending == set![s]),
            !(message_error && old(self)@.pending.len() == 1) ==> r.failed is None
                && r.lost@.to_set() == old(self)@.pending,
    {
        let n = self.calls.len();
        let drained = self.calls.drain();
        if message_error && n == 1 {
            proof {
                drained@.unique_seq_to_set();
                assert(drained@.to_set().contains(drained@[0]));
                assert(drained@.to_set() =~= set![drained@[0]]) by {
                    assert forall|x: u64| drained@.to_set().contains(x) implies x == drained@[0] by {
                        let k = choose|k: int| 0 <= k < drained@.len() && drained@[k] == x;
                    }
                }
            }
            PumpStop { failed: Some(drained[0]), lost: Vec::new() }
        } else {
            PumpStop { failed: None, lost: drained }
        }
    }
}

} // verus!
