//! What the consumer needs of the transport that talks to the server.

use vstd::prelude::*;
use crate::nakadi::model::{FlowId, StreamId, SubscriptionId};

verus! {

/// How the server answered a commit that it accepted.
#[derive(Clone, Copy, Debug, PartialEq, Eq, Structural)]
pub enum CommitStatus {
    /// Every cursor moved its partition forward.
    AllOffsetsIncreased,
    /// Some cursor was stale or committed before. Nothing is wrong: the
    /// request was accepted.
    NotAllOffsetsIncreased,
}

/// A commit that failed, with the transport's account of it.
#[derive(Debug, PartialEq, Eq)]
pub struct CommitError(pub String);

impl Clone for CommitError {
    fn clone(&self) -> (e: CommitError)
        ensures
            e == *self,
    {
        CommitError(self.0.clone())
    }
}

/// A connect that failed.
#[derive(Debug, PartialEq, Eq)]
pub enum ConnectError {
    /// The transport failed in a way that trying again cannot mend.
    Permanent(String, FlowId),
    /// The transport failed in a way that may pass.
    Temporary(String, FlowId),
    /// The time allowed for connecting ran out after so many attempts.
    BudgetSpent { attempts: usize, flow_id: FlowId },
    /// An abort was requested while connecting, after so many attempts.
    Aborted { attempts: usize, flow_id: FlowId },
}

impl ConnectError {
    /// Whether trying again is pointless. Only a temporary failure of the
    /// transport is worth another attempt.
    pub open spec fn spec_is_permanent(self) -> bool {
        !(self is Temporary)
    }

    /// Whether trying again is pointless.
    pub fn is_permanent(&self) -> (p: bool)
        ensures
            p == self.spec_is_permanent(),
    {
        match self {
            ConnectError::Temporary(_, _) => false,
            _ => true,
        }
    }
}

/// One frame as it came off the wire, and when. The time is in milliseconds
/// on the caller's monotonic clock.
#[derive(Debug)]
pub struct RawLine {
    pub bytes: Vec<u8>,
    pub received_at: u64,
}

/// The transport to the server. Applications supply it.
///
/// Nothing is assumed of what an implementation returns.
pub trait StreamingClient {
    /// What yields the lines of a stream, each a [`RawLine`] or the
    /// transport's account of why the stream broke.
    type LineIterator;

    /// Opens a stream. The server names it and starts to send lines.
    fn connect(&self, flow_id: FlowId) -> Result<(StreamId, Self::LineIterator), ConnectError>;

    /// Sends cursors to the server in the order given.
    fn commit(&self, stream_id: StreamId, cursors: &Vec<Vec<u8>>, flow_id: FlowId) -> Result<
        CommitStatus,
        CommitError,
    >;

    /// The subscription that this client consumes.
    fn subscription_id(&self) -> SubscriptionId;
}

} // verus!
