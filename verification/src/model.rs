//! The values that describe event types.

pub mod event_type;
pub mod misc;

use vstd::prelude::*;

verus! {

/// The name of an event type.
#[derive(Debug, PartialEq, Eq, Hash)]
pub struct EventTypeName(pub String);

impl EventTypeName {
    /// The event type name with the given text.
    pub fn new(name: String) -> (n: EventTypeName)
        ensures
            n.0 == name,
    {
        EventTypeName(name)
    }
}

impl Clone for EventTypeName {
    fn clone(&self) -> (n: EventTypeName)
        ensures
            n == *self,
    {
        EventTypeName(self.0.clone())
    }
}

} // verus!
