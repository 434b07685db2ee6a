//! The streaming consumer runtime.

pub mod batch;
pub mod client;
pub mod committer;
pub mod consumer;
pub mod dispatcher;
pub mod handler;
pub mod lifecycle;
pub mod model;

use vstd::prelude::*;

verus! {

/// When the cursor of a handled batch is to be committed.
#[derive(Clone, Copy, Debug, PartialEq, Eq, Structural)]
pub enum CommitStrategy {
    /// As soon as the batch is handled.
    AllBatches,
    /// As soon as the batch is handled, and in any case once so many
    /// partitions have a cursor waiting.
    EveryNBatches(u16),
    /// As late as the stream allows.
    MaxAge,
    /// After so many seconds, but no later than the stream allows.
    EveryNSeconds(u16),
}

} // verus!
