//! Identifiers of streams, subscriptions and requests.

use vstd::prelude::*;

verus! {

/// Identifies one stream; the server issues a new one with each connect.
#[derive(Debug, PartialEq, Eq, Hash)]
pub struct StreamId(pub String);

/// Identifies the subscription that is consumed. It comes with the
/// configuration and never changes.
#[derive(Debug, PartialEq, Eq, Hash)]
pub struct SubscriptionId(pub String);

/// Identifies one request, for tracing. Each outgoing request gets a fresh
/// one from the caller.
#[derive(Debug, PartialEq, Eq, Hash)]
pub struct FlowId(pub String);

impl View for StreamId {
    type V = Seq<char>;

    open spec fn view(&self) -> Seq<char> {
        self.0@
    }
}

impl View for SubscriptionId {
    type V = Seq<char>;

    open spec fn view(&self) -> Seq<char> {
        self.0@
    }
}

impl View for FlowId {
    type V = Seq<char>;

    open spec fn view(&self) -> Seq<char> {
        self.0@
    }
}

impl StreamId {
    /// The stream id with the given text.
    pub fn new(id: String) -> (s: StreamId)
        ensures
            s.0 == id,
    {
        StreamId(id)
    }
}

impl SubscriptionId {
    /// The subscription id with the given text.
    pub fn new(id: String) -> (s: SubscriptionId)
        ensures
            s.0 == id,
    {
        SubscriptionId(id)
    }
}

impl FlowId {
    /// The flow id with the given text.
    pub fn new(id: String) -> (f: FlowId)
        ensures
            f.0 == id,
    {
        FlowId(id)
    }
}

impl Clone for StreamId {
    fn clone(&self) -> (s: StreamId)
        ensures
            s == *self,
    {
        StreamId(self.0.clone())
    }
}

impl Clone for SubscriptionId {
    fn clone(&self) -> (s: SubscriptionId)
        ensures
            s == *self,
    {
        SubscriptionId(self.0.clone())
    }
}

impl Clone for FlowId {
    fn clone(&self) -> (f: FlowId)
        ensures
            f == *self,
    {
        FlowId(self.0.clone())
    }
}

} // verus!
