//! What the consumer needs of the application's handlers.

use vstd::prelude::*;
use crate::nakadi::batch::{spec_event_type, spec_events, spec_is_keep_alive, Batch};

verus! {

/// What a handler made of a batch.
#[derive(Clone, Copy, Debug, PartialEq, Eq, Structural)]
pub enum ProcessingStatus {
    /// The batch is handled: commit its cursor and go on.
    Continue,
    /// Do not commit the cursor of this batch, and go on with the next.
    Skip,
    /// Stop consuming the stream.
    Abort,
}

/// Handles the batches of one partition, one at a time and in the order
/// of their arrival. Applications supply it.
///
/// Nothing is assumed of what an implementation returns.
pub trait BatchHandler {
    /// Handles the events of one batch, given as the bytes of the events
    /// array.
    fn handle(&mut self, event_type: &[u8], events: &[u8]) -> ProcessingStatus;
}

/// Makes the handler of a partition when its first batch arrives.
/// Applications supply it.
pub trait HandlerFactory {
    type Handler: BatchHandler;

    /// The handler for the given partition of the given event type.
    fn create_handler(&self, partition: &[u8], event_type: &[u8]) -> Self::Handler;
}

/// What a partition worker does with a batch after its handler returned.
#[derive(Debug)]
pub enum WorkerStep {
    /// Hand the batch to the committer, then take the next batch.
    Acknowledge(Batch),
    /// Take the next batch.
    Proceed,
    /// Take no further batch and have the dispatcher stop.
    Abort,
}

/// What follows from a handler's answer for the batch it was given. Only a
/// batch that the handler has accepted reaches the committer.
pub open spec fn spec_after_handler(status: ProcessingStatus, batch: Batch) -> WorkerStep {
    match status {
        ProcessingStatus::Continue => WorkerStep::Acknowledge(batch),
        ProcessingStatus::Skip => WorkerStep::Proceed,
        ProcessingStatus::Abort => WorkerStep::Abort,
    }
}

/// What follows from a handler's answer for the batch it was given.
pub fn after_handler(status: ProcessingStatus, batch: Batch) -> (step: WorkerStep)
    ensures
        step == spec_after_handler(status, batch),
{
    match status {
        ProcessingStatus::Continue => WorkerStep::Acknowledge(batch),
        ProcessingStatus::Skip => WorkerStep::Proceed,
        ProcessingStatus::Abort => WorkerStep::Abort,
    }
}

/// Has `handler` handle the events of `batch` and says what follows from
/// its answer: called once, with the event type and the events of the
/// batch, the handler gave an answer, and the step is what
/// [`spec_after_handler`] makes of that answer. A batch without events
/// advances no cursor: the handler is not called for it and the worker
/// proceeds.
pub fn handle_batch<H: BatchHandler>(handler: &mut H, batch: Batch) -> (step: WorkerStep)
    ensures
        spec_is_keep_alive(batch.batch_line@) ==> step is Proceed && *final(handler) == *old(handler),
        !spec_is_keep_alive(batch.batch_line@) ==> (exists|
            called: &mut H,
            event_type: &[u8],
            events: &[u8],
            status: ProcessingStatus,
        |
            *called == *old(handler) && *final(called) == *final(handler) && event_type@
                == spec_event_type(batch.batch_line@) && Some(events@) == spec_events(
                batch.batch_line@,
            ) && #[trigger] call_ensures(H::handle, (called, event_type, events), status)
                && step == spec_after_handler(status, batch)),
{
    let status = match batch.batch_line.events() {
        Some(events) => handler.handle(batch.batch_line.event_type(), events),
        None => {
            return WorkerStep::Proceed;
        },
    };
    after_handler(status, batch)
}

} // verus!
