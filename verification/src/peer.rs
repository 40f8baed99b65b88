//! The lifecycle and request bookkeeping of an RPC peer.
//!
//! A peer moves between three states: `Connected` (calls are processed),
//! `Disconnected` (its transport failed; calls fail until it is
//! reconnected) and `Shutdown` (terminal). While connected it hands out
//! sequence numbers and keeps the set of requests that wait for a reply;
//! when its message pump stops, or when it is shut down, every waiting
//! request is released so that its caller can be told.
//!
//! The transport, the pump task and the channels are driven by the caller:
//! each method here takes what happened and answers with the next state and
//! what to do.

use vstd::prelude::*;
use vstd::string::StringExecFns;
use std::time::Duration;
use crate::transport;
use crate::text::{decimal, decimal_string};
use crate::calls::{PendingCalls, duration_of_secs, duration_from_secs, seq_after};

verus! {

// =============================================================================
// Errors
// =============================================================================

/// Errors of calls made through a peer.
#[derive(Debug, Clone)]
pub enum Error {
    /// Transport-level error.
    Transport(transport::Error),
    /// Request timed out waiting for response.
    Timeout,
    /// Response channel was closed unexpectedly.
    ChannelClosed,
    /// Response sequence number didn't match request.
    SequenceMismatch { expected: u64, received: u64 },
    /// Peer is disconnected and cannot process calls.
    Disconnected,
    /// Peer has been shut down and cannot be used.
    Shutdown,
    /// Too many pending requests (backpressure).
    TooManyPendingRequests { limit: usize },
    /// Cannot reconnect because peer is already connected.
    AlreadyConnected,
}

/// Outcome of a peer operation.
pub type Result<T> = core::result::Result<T, Error>;

impl Error {
    /// The human-readable description of an error.
    pub open spec fn spec_message(&self) -> Seq<char> {
        match self {
            Error::Transport(e) => "transport error: "@ + e.spec_message(),
            Error::Timeout => "request timed out"@,
            Error::ChannelClosed => "response channel closed"@,
            Error::SequenceMismatch { expected, received } =>
                "sequence mismatch: expected "@ + decimal(*expected as nat) + ", received "@
                    + decimal(*received as nat),
            Error::Disconnected => "peer is disconnected"@,
            Error::Shutdown => "peer has been shut down"@,
            Error::TooManyPendingRequests { limit } =>
                "too many pending requests (limit: "@ + decimal(*limit as nat) + ")"@,
            Error::AlreadyConnected => "peer is already connected"@,
        }
    }

    /// The human-readable description of this error.
    pub fn message(&self) -> (s: String)
        ensures
            s@ == self.spec_message(),
    {
        match self {
            Error::Transport(e) => {
                let inner = e.message();
                String::from_str("transport error: ").concat(inner.as_str())
            },
            Error::Timeout => String::from_str("request timed out"),
            Error::ChannelClosed => String::from_str("response channel closed"),
            Error::SequenceMismatch { expected, received } => {
                let e = decimal_string(*expected);
                let r = decimal_string(*received);
                String::from_str("sequence mismatch: expected ").concat(e.as_str()).concat(
                    ", received ",
                ).concat(r.as_str())
            },
            Error::Disconnected => String::from_str("peer is disconnected"),
            Error::Shutdown => String::from_str("peer has been shut down"),
            Error::TooManyPendingRequests { limit } => {
                let l = decimal_string(*limit as u64);
                String::from_str("too many pending requests (limit: ").concat(l.as_str()).concat(
                    ")",
                )
            },
            Error::AlreadyConnected => String::from_str("peer is already connected"),
        }
    }
}

// =============================================================================
// Configuration
// =============================================================================

/// Default timeout of a call, in whole seconds.
pub const DEFAULT_CALL_TIMEOUT_SECS: u64 = 30;

/// Configuration for peer behavior.
#[derive(Clone, Copy, Debug)]
pub struct PeerConfig {
    /// Default timeout for RPC calls.
    pub call_timeout: Duration,
    /// Maximum number of pending requests (0 = unlimited).
    pub max_pending: usize,
}

impl Default for PeerConfig {
    /// A thirty-second call timeout and no limit on pending requests.
    fn default() -> (c: Self)
        ensures
            c.call_timeout == duration_of_secs(DEFAULT_CALL_TIMEOUT_SECS),
            c.max_pending == 0,
    {
        PeerConfig { call_timeout: duration_from_secs(DEFAULT_CALL_TIMEOUT_SECS), max_pending: 0 }
    }
}

// =============================================================================
// Peer state
// =============================================================================

/// Observable state of a peer connection.
#[derive(Clone, Copy, Debug, PartialEq, Eq, Structural)]
pub enum PeerState {
    /// Transport is connected and pump is running.
    Connected,
    /// Transport disconnected, awaiting reconnection.
    Disconnected,
    /// Peer has been shut down and cannot be used.
    Shutdown,
}

impl PeerState {
    /// The byte that stores a state.
    pub open spec fn spec_code(self) -> u8 {
        match self {
            PeerState::Connected => 0,
            PeerState::Disconnected => 1,
            PeerState::Shutdown => 2,
        }
    }

    /// The state that a stored byte stands for; any byte past the known
    /// ones reads as `Shutdown`.
    pub open spec fn spec_from_code(v: u8) -> PeerState {
        if v == 0 {
            PeerState::Connected
        } else if v == 1 {
            PeerState::Disconnected
        } else {
            PeerState::Shutdown
        }
    }

    /// The byte that stores this state.
    pub fn to_u8(self) -> (v: u8)
        ensures
            v == self.spec_code(),
    {
        match self {
            PeerState::Connected => 0,
            PeerState::Disconnected => 1,
            PeerState::Shutdown => 2,
        }
    }

    /// The state that a stored byte stands for.
    pub fn from_u8(v: u8) -> (s: PeerState)
        ensures
            s == Self::spec_from_code(v),
    {
        match v {
            0 => PeerState::Connected,
            1 => PeerState::Disconnected,
            _ => PeerState::Shutdown,
        }
    }
}

// =============================================================================
// Peer
// =============================================================================

/// What went wrong with a call after it was registered.
#[derive(Debug, Clone)]
pub enum CallFailure {
    /// No transport was installed when the request was to be sent.
    TransportMissing,
    /// The transport refused the request.
    SendFailed(transport::Error),
    /// The reply channel closed without a reply.
    ChannelClosed,
    /// No reply came within the timeout.
    TimedOut,
}

impl CallFailure {
    /// The error a caller receives for a failure.
    pub open spec fn spec_error(self) -> Error {
        match self {
            CallFailure::TransportMissing => Error::Disconnected,
            CallFailure::SendFailed(e) => Error::Transport(e),
            CallFailure::ChannelClosed => Error::ChannelClosed,
            CallFailure::TimedOut => Error::Timeout,
        }
    }
}

/// The abstract state of a peer.
#[verifier::ext_equal]
pub struct PeerView {
    /// The name used in logs and diagnostics.
    pub name: Seq<char>,
    /// The peer's configuration.
    pub config: PeerConfig,
    /// The connection state.
    pub state: PeerState,
    /// Sequence numbers of the requests that wait for a reply.
    pub pending: Set<u64>,
    /// The sequence number the next request receives.
    pub next_seq: u64,
}

impl PeerView {
    /// Whether a new call may be made: the peer must be connected, and when
    /// a limit is configured fewer requests than the limit may be waiting.
    pub open spec fn call_admission(self) -> Result<()> {
        if self.state == PeerState::Shutdown {
            Err(Error::Shutdown)
        } else if self.state == PeerState::Disconnected {
            Err(Error::Disconnected)
        } else if self.config.max_pending > 0 && self.pending.len() >= self.config.max_pending {
            Err(Error::TooManyPendingRequests { limit: self.config.max_pending })
        } else {
            Ok(())
        }
    }

    /// Whether a registered request may be sent: the peer must be connected.
    pub open spec fn send_admission(self) -> Result<()> {
        if self.state == PeerState::Shutdown {
            Err(Error::Shutdown)
        } else if self.state == PeerState::Disconnected {
            Err(Error::Disconnected)
        } else {
            Ok(())
        }
    }

    /// The peer with request `next_seq` registered and the counter advanced.
    pub open spec fn registered(self) -> PeerView {
        PeerView { pending: self.pending.insert(self.next_seq), next_seq: seq_after(self.next_seq), ..self }
    }

    /// The peer with request `seq` no longer waiting.
    pub open spec fn released(self, seq: u64) -> PeerView {
        PeerView { pending: self.pending.remove(seq), ..self }
    }

    /// The answer to a reconnection: only a disconnected peer reconnects.
    pub open spec fn reconnect_outcome(self) -> Result<()> {
        if self.state == PeerState::Shutdown {
            Err(Error::Shutdown)
        } else if self.state == PeerState::Connected {
            Err(Error::AlreadyConnected)
        } else {
            Ok(())
        }
    }

    /// The peer after a reconnection was asked for.
    pub open spec fn after_reconnect(self) -> PeerView {
        if self.state == PeerState::Disconnected {
            PeerView { state: PeerState::Connected, ..self }
        } else {
            self
        }
    }

    /// The peer after its message pump stopped: disconnected unless it was
    /// shut down, with no request waiting.
    pub open spec fn after_pump_exit(self) -> PeerView {
        PeerView {
            state: if self.state == PeerState::Shutdown {
                PeerState::Shutdown
            } else {
                PeerState::Disconnected
            },
            pending: Set::empty(),
            ..self
        }
    }

    /// The peer after a shutdown: shut down, with no request waiting.
    pub open spec fn after_shutdown(self) -> PeerView {
        PeerView { state: PeerState::Shutdown, pending: Set::empty(), ..self }
    }
}

/// The bookkeeping of an RPC peer: its state, its configuration and the
/// requests that wait for a reply.
pub struct Peer {
    peer_name: String,
    config: PeerConfig,
    state: PeerState,
    calls: PendingCalls,
}

impl View for Peer {
    type V = PeerView;

    closed spec fn view(&self) -> PeerView {
        PeerView {
            name: self.peer_name@,
            config: self.config,
            state: self.state,
            pending: self.calls@.pending,
            next_seq: self.calls@.next_seq,
        }
    }
}

impl Peer {
    /// The peer's internal consistency: finitely many requests wait.
    pub closed spec fn wf(&self) -> bool {
        self.calls.wf()
    }

    /// A connected peer with no request waiting; the first request gets
    /// sequence number 1.
    pub fn new(peer_name: String, config: PeerConfig) -> (p: Peer)
        ensures
            p.wf(),
            p@ == (PeerView {
                name: peer_name@,
                config,
                state: PeerState::Connected,
                pending: Set::empty(),
                next_seq: 1,
            }),
    {
        Peer { peer_name, config, state: PeerState::Connected, calls: PendingCalls::new() }
    }

    /// Returns the peer name for logging and diagnostics.
    pub fn peer_name(&self) -> (r: &str)
        ensures
            r@ == self@.name,
    {
        self.peer_name.as_str()
    }

    /// Returns the current connection state.
    pub fn state(&self) -> (s: PeerState)
        ensures
            s == self@.state,
    {
        self.state
    }

    /// Returns the peer's configuration.
    pub fn config(&self) -> (c: PeerConfig)
        ensures
            c == self@.config,
    {
        self.config
    }

    /// The number of requests that wait for a reply.
    pub fn pending_len(&self) -> (n: usize)
        requires
            self.wf(),
        ensures
            n == self@.pending.len(),
    {
        self.calls.len()
    }

    /// Whether request `seq` waits for a reply.
    pub fn is_pending(&self, seq: u64) -> (b: bool)
        ensures
            b == self@.pending.contains(seq),
    {
        self.calls.contains(seq)
    }

    /// Replaces the transport of a disconnected peer: the peer becomes
    /// connected. A peer that is connected or shut down is refused and left
    /// as it is.
    pub fn reconnect(&mut self) -> (r: Result<()>)
        requires
            old(self).wf(),
        ensures
            final(self).wf(),
            r == old(self)@.reconnect_outcome(),
            final(self)@ == old(self)@.after_reconnect(),
    {
        match self.state {
            PeerState::Shutdown => Err(Error::Shutdown),
            PeerState::Connected => Err(Error::AlreadyConnected),
            PeerState::Disconnected => {
                self.state = PeerState::Connected;
                Ok(())
            },
        }
    }

    /// Shuts the peer down. Every waiting request is released and its
    /// sequence number handed back, to be answered with `Error::Shutdown`.
    /// Shutting down twice is harmless: the second time releases nothing.
    pub fn shutdown(&mut self) -> (released: Vec<u64>)
        requires
            old(self).wf(),
        ensures
            final(self).wf(),
            released@.no_duplicates(),
            released@.to_set() == old(self)@.pending,
            final(self)@ == old(self)@.after_shutdown(),
    {
        self.state = PeerState::Shutdown;
        self.calls.drain()
    }

    /// Records that the message pump stopped. The peer becomes disconnected
    /// unless it was shut down; every waiting request is released and its
    /// sequence number handed back, to be answered with the pump's error.
    pub fn pump_exited(&mut self) -> (released: Vec<u64>)
        requires
            old(self).wf(),
        ensures
            final(self).wf(),
            released@.no_duplicates(),
            released@.to_set() == old(self)@.pending,
            final(self)@ == old(self)@.after_pump_exit(),
    {
        if self.state != PeerState::Shutdown {
            self.state = PeerState::Disconnected;
        }
        self.calls.drain()
    }

    /// Decides whether a call may start: a shut-down or disconnected peer
    /// refuses it, and so does a peer whose configured limit of waiting
    /// requests is reached.
    pub fn check_call(&self) -> (r: Result<()>)
        requires
            self.wf(),
        ensures
            r == self@.call_admission(),
    {
        if self.state == PeerState::Shutdown {
            return Err(Error::Shutdown);
        }
        if self.state == PeerState::Disconnected {
            return Err(Error::Disconnected);
        }
        let max_pending = self.config.max_pending;
        if max_pending > 0 && self.calls.len() >= max_pending {
            return Err(Error::TooManyPendingRequests { limit: max_pending });
        }
        Ok(())
    }

    /// Registers a request: it receives the next sequence number and waits
    /// for its reply.
    pub fn prepare_call(&mut self) -> (seq: u64)
        requires
            old(self).wf(),
        ensures
            final(self).wf(),
            seq == old(self)@.next_seq,
            final(self)@ == old(self)@.registered(),
    {
        self.calls.register()
    }

    /// Decides whether registered request `seq` may be sent: a shut-down
    /// or disconnected peer refuses it and stops waiting for it.
    pub fn check_send(&mut self, seq: u64) -> (r: Result<()>)
        requires
            old(self).wf(),
        ensures
            final(self).wf(),
            r == old(self)@.send_admission(),
            final(self)@ == (if r is Ok {
                old(self)@
            } else {
                old(self)@.released(seq)
            }),
    {
        if self.state == PeerState::Shutdown {
            self.calls.release(seq);
            return Err(Error::Shutdown);
        }
        if self.state == PeerState::Disconnected {
            self.calls.release(seq);
            return Err(Error::Disconnected);
        }
        Ok(())
    }

    /// Records that call `seq` failed after it was registered: the peer
    /// stops waiting for it, and the caller receives the matching error.
    pub fn fail_call(&mut self, seq: u64, failure: CallFailure) -> (e: Error)
        requires
            old(self).wf(),
        ensures
            final(self).wf(),
            e == failure.spec_error(),
            final(self)@ == old(self)@.released(seq),
    {
        self.calls.release(seq);
        match failure {
            CallFailure::TransportMissing => Error::Disconnected,
            CallFailure::SendFailed(e) => Error::Transport(e),
            CallFailure::ChannelClosed => Error::ChannelClosed,
            CallFailure::TimedOut => Error::Timeout,
        }
    }

    /// Records that a reply for `seq` arrived. The request stops waiting;
    /// the answer tells whether it was waiting at all (a late or duplicate
    /// reply finds nothing and is dropped).
    pub fn take_reply(&mut self, seq: u64) -> (found: bool)
        requires
            old(self).wf(),
        ensures
            final(self).wf(),
            found == old(self)@.pending.contains(seq),
            final(self)@ == old(self)@.released(seq),
    {
        self.calls.release(seq)
    }
}

// =============================================================================
// Replies
// =============================================================================

/// The protocol violation of a reply that carries `actual` results where
/// the request expects `expected`: none when the counts agree, otherwise
/// the violation's message.
pub open spec fn spec_count_violation(expected: nat, actual: nat) -> Option<Seq<char>> {
    if expected == actual {
        None
    } else {
        Some("Result count mismatch: expected "@ + decimal(expected) + ", got "@ + decimal(actual))
    }
}

/// Checks the number of results a reply carries against the number its
/// request expects, and gives the message of the protocol violation when
/// they differ.
pub fn reply_count_violation(expected: usize, actual: usize) -> (r: Option<String>)
    ensures
        r is None <==> expected == actual,
        r matches Some(m) ==> spec_count_violation(expected as nat, actual as nat) == Some(m@),
{
    if expected == actual {
        return None;
    }
    let e = decimal_string(expected as u64);
    let a = decimal_string(actual as u64);
    Some(String::from_str("Result count mismatch: expected ").concat(e.as_str()).concat(", got ").concat(
        a.as_str(),
    ))
}

// =============================================================================
// Laws
// =============================================================================

/// A state survives being stored as a byte and read back.
pub proof fn law_state_code_roundtrip(s: PeerState)
    ensures
        PeerState::spec_from_code(s.spec_code()) == s,
{
}

/// Shutdown is final: a shut-down peer refuses calls, sends and
/// reconnections with `Error::Shutdown`, and nothing that happens to it
/// (a reconnection, a registration, a reply, the pump stopping, another
/// shutdown) brings it out of that state.
pub proof fn law_shutdown_is_final(v: PeerView, seq: u64)
    requires
        v.state == PeerState::Shutdown,
    ensures
        v.call_admission() == Err::<(), Error>(Error::Shutdown),
        v.send_admission() == Err::<(), Error>(Error::Shutdown),
        v.reconnect_outcome() == Err::<(), Error>(Error::Shutdown),
        v.after_reconnect().state == PeerState::Shutdown,
        v.registered().state == PeerState::Shutdown,
        v.released(seq).state == PeerState::Shutdown,
        v.after_pump_exit().state == PeerState::Shutdown,
        v.after_shutdown().state == PeerState::Shutdown,
{
}

/// Shutting down twice is the same as shutting down once, and leaves no
/// request waiting.
pub proof fn law_shutdown_idempotent(v: PeerView)
    ensures
        v.after_shutdown().after_shutdown() == v.after_shutdown(),
        v.after_shutdown().pending.is_empty(),
{
    assert(v.after_shutdown().after_shutdown() =~= v.after_shutdown());
}

/// Only a disconnected peer reconnects; it then is connected again and
/// keeps its name, configuration, waiting requests and sequence counter.
/// Any other peer is left as it was.
pub proof fn law_reconnect_only_when_disconnected(v: PeerView)
    ensures
        v.reconnect_outcome() is Ok <==> v.state == PeerState::Disconnected,
        v.reconnect_outcome() is Ok ==> v.after_reconnect() == (PeerView {
            state: PeerState::Connected,
            ..v
        }),
        v.reconnect_outcome() is Err ==> v.after_reconnect() == v,
        v.state == PeerState::Connected ==> v.reconnect_outcome() == Err::<(), Error>(
            Error::AlreadyConnected,
        ),
{
}

/// Calls and sends are admitted only while the peer is connected; a
/// disconnected peer answers `Error::Disconnected`.
pub proof fn law_calls_require_connection(v: PeerView)
    ensures
        v.call_admission() is Ok ==> v.state == PeerState::Connected,
        v.send_admission() is Ok <==> v.state == PeerState::Connected,
        v.state == PeerState::Disconnected ==> v.call_admission() == Err::<(), Error>(
            Error::Disconnected,
        ),
{
}

/// Backpressure: on a connected peer, a limit of 0 admits every call, and
/// a positive limit admits a call exactly while fewer requests than the
/// limit are waiting.
pub proof fn law_backpressure(v: PeerView)
    requires
        v.state == PeerState::Connected,
    ensures
        v.config.max_pending == 0 ==> v.call_admission() is Ok,
        v.config.max_pending > 0 ==> (v.call_admission() is Ok <==> v.pending.len()
            < v.config.max_pending),
        v.call_admission() is Err ==> v.call_admission() == Err::<(), Error>(
            Error::TooManyPendingRequests { limit: v.config.max_pending },
        ),
{
}

/// When the pump stops, every waiting request is released, and the peer
/// is disconnected unless it had been shut down.
pub proof fn law_pump_exit_releases_all(v: PeerView)
    ensures
        v.after_pump_exit().pending.is_empty(),
        v.state != PeerState::Shutdown ==> v.after_pump_exit().state == PeerState::Disconnected,
        v.after_pump_exit().next_seq == v.next_seq,
{
}

/// A registered request waits under the number it was given, the counter
/// moves on to another number, and a reply releases the request exactly
/// once: a second reply for the same number changes nothing.
pub proof fn law_registration_and_reply(v: PeerView)
    ensures
        v.registered().pending.contains(v.next_seq),
        v.registered().next_seq != v.next_seq,
        !v.registered().released(v.next_seq).pending.contains(v.next_seq),
        v.registered().released(v.next_seq).released(v.next_seq) == v.registered().released(
            v.next_seq,
        ),
{
    let r = v.registered().released(v.next_seq);
    assert(r.released(v.next_seq) =~= r);
}

} // verus!
