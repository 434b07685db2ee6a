//! Core of a client for consuming a Nakadi event stream: the rules by which
//! batches are routed to partition workers, cursors are scheduled for commit
//! and the stream connection is supervised.
//!
//! Everything here is pure logic over plain values. Threads, channels, clocks
//! and the HTTP transport live with the caller, which feeds events into the
//! state machines of this crate and performs the actions they return.

pub mod model;
pub mod nakadi;
