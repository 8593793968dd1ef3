//! The messages exchanged with the server and the errors of a session.
use vstd::prelude::*;

use crate::identity::ActorIdentity;

verus! {

/// A request from the client to the server. Requests handed over together
/// reach the server in the order given.
#[derive(Debug)]
pub enum OutboundRequest<C> {
    JoinRequest(u64, String),
    RequestIncrementalSync,
    RequestFullSync,
    SubmitCommands(Vec<C>),
    RequestClockSample,
}

/// A complete copy of the world together with the server time (ms) at which
/// it was last advanced.
#[derive(Debug)]
pub struct Snapshot<W> {
    pub world: W,
    pub last_update_ms: u64,
}

/// A message from the server.
#[derive(Debug)]
pub enum InboundMessage<W, C> {
    FullStateSnapshot(Snapshot<W>),
    IncrementalCommands(Vec<(ActorIdentity, C)>),
    IdentityAssignment(ActorIdentity),
    BackpressureSignal,
    ClockSample(u64),
}

/// Faults of the connection itself; both end the session.
#[derive(Clone, Copy, Debug, PartialEq, Eq, Structural)]
pub enum NetworkError {
    ConnectionFailed,
    MalformedFrame,
}

/// Every error a session can meet.
#[derive(Clone, Copy, Debug, PartialEq, Eq, Structural)]
pub enum SyncError {
    ConnectionFailed,
    MalformedFrame,
    ClockSyncProtocolViolation,
    CommandRejected,
    Backpressure,
}

impl NetworkError {
    /// The session error that this connection fault is.
    pub fn to_sync_error(self) -> (r: SyncError)
        ensures
            r == match self {
                NetworkError::ConnectionFailed => SyncError::ConnectionFailed,
                NetworkError::MalformedFrame => SyncError::MalformedFrame,
            },
    {
        match self {
            NetworkError::ConnectionFailed => SyncError::ConnectionFailed,
            NetworkError::MalformedFrame => SyncError::MalformedFrame,
        }
    }
}

/// The simulation refused a command (it failed the world's validity checks).
#[derive(Debug)]
pub struct CommandRejected {
    pub reason: String,
}

} // verus!
