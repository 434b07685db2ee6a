//! Batch lines and batches: what a stream delivers.

pub mod lineparsing;

use vstd::prelude::*;
use vstd::slice::slice_subrange;
use crate::nakadi::batch::lineparsing::{
    frame_within, parse_line, spec_frame, FrameSpans, LineItems, ParseError, Span,
};

verus! {

/// The bytes of `s` that `span` covers.
pub open spec fn part(s: Seq<u8>, span: Span) -> Seq<u8> {
    s.subrange(span.start, span.end)
}

/// The bytes of `s` that `span` covers, if there is a span.
pub open spec fn opt_part(s: Seq<u8>, span: Option<Span>) -> Option<Seq<u8>> {
    match span {
        Some(p) => Some(part(s, p)),
        None => None,
    }
}

/// Whether the line `s` is a batch line.
pub open spec fn is_batch_line(s: Seq<u8>) -> bool {
    spec_frame(s).is_ok()
}

/// The cursor of the batch line `s`: the whole cursor object, braces
/// included, as it has to be sent back for a commit.
pub open spec fn spec_cursor(s: Seq<u8>) -> Seq<u8> {
    part(s, spec_frame(s).unwrap().cursor)
}

/// The partition that the cursor of the batch line `s` names.
pub open spec fn spec_partition(s: Seq<u8>) -> Seq<u8> {
    part(s, spec_frame(s).unwrap().partition)
}

/// The event type that the cursor of the batch line `s` names.
pub open spec fn spec_event_type(s: Seq<u8>) -> Seq<u8> {
    part(s, spec_frame(s).unwrap().event_type)
}

/// The events array of the batch line `s`, brackets included, if the line
/// has one.
pub open spec fn spec_events(s: Seq<u8>) -> Option<Seq<u8>> {
    opt_part(s, spec_frame(s).unwrap().events)
}

/// The info value of the batch line `s`, if the line has one.
pub open spec fn spec_info(s: Seq<u8>) -> Option<Seq<u8>> {
    opt_part(s, spec_frame(s).unwrap().info)
}

/// A line without events only keeps the connection alive.
pub open spec fn spec_is_keep_alive(s: Seq<u8>) -> bool {
    spec_frame(s).unwrap().events.is_none()
}

/// One line of the stream, known to be a batch line, with the places of its
/// parts. Its view is the line's bytes.
#[derive(Debug)]
pub struct BatchLine {
    bytes: Vec<u8>,
    items: LineItems,
}

impl View for BatchLine {
    type V = Seq<u8>;

    closed spec fn view(&self) -> Seq<u8> {
        self.bytes@
    }
}

impl BatchLine {
    #[verifier::type_invariant]
    spec fn well_formed(self) -> bool {
        &&& spec_frame(self.bytes@) == Ok::<FrameSpans, ParseError>(self.items@)
        &&& frame_within(self.items@, self.bytes@.len() as int)
    }

    /// Takes a line apart. Succeeds exactly on batch lines; otherwise says
    /// what is wrong with the line.
    pub fn new(bytes: Vec<u8>) -> (r: Result<BatchLine, ParseError>)
        ensures
            match r {
                Ok(line) => line@ == bytes@ && is_batch_line(bytes@),
                Err(e) => spec_frame(bytes@) == Err::<FrameSpans, ParseError>(e),
            },
    {
        match parse_line(bytes.as_slice()) {
            Ok(items) => Ok(BatchLine { bytes, items }),
            Err(e) => Err(e),
        }
    }

    /// The whole line.
    pub fn bytes(&self) -> (b: &[u8])
        ensures
            b@ == self@,
            is_batch_line(self@),
    {
        proof {
            use_type_invariant(self);
        }
        self.bytes.as_slice()
    }

    /// The cursor object.
    pub fn cursor(&self) -> (c: &[u8])
        ensures
            c@ == spec_cursor(self@),
    {
        proof {
            use_type_invariant(self);
        }
        slice_subrange(self.bytes.as_slice(), self.items.cursor.0, self.items.cursor.1)
    }

    /// The partition named in the cursor.
    pub fn partition(&self) -> (p: &[u8])
        ensures
            p@ == spec_partition(self@),
    {
        proof {
            use_type_invariant(self);
        }
        slice_subrange(self.bytes.as_slice(), self.items.partition.0, self.items.partition.1)
    }

    /// The event type named in the cursor.
    pub fn event_type(&self) -> (e: &[u8])
        ensures
            e@ == spec_event_type(self@),
    {
        proof {
            use_type_invariant(self);
        }
        slice_subrange(self.bytes.as_slice(), self.items.event_type.0, self.items.event_type.1)
    }

    /// The events array, if the line has one.
    pub fn events(&self) -> (e: Option<&[u8]>)
        ensures
            match e {
                Some(bytes) => spec_events(self@) == Some(bytes@),
                None => spec_events(self@).is_none(),
            },
    {
        proof {
            use_type_invariant(self);
        }
        match self.items.events {
            Some(p) => Some(slice_subrange(self.bytes.as_slice(), p.0, p.1)),
            None => None,
        }
    }

    /// The info value, if the line has one.
    pub fn info(&self) -> (i: Option<&[u8]>)
        ensures
            match i {
                Some(bytes) => spec_info(self@) == Some(bytes@),
                None => spec_info(self@).is_none(),
            },
    {
        proof {
            use_type_invariant(self);
        }
        match self.items.info {
            Some(p) => Some(slice_subrange(self.bytes.as_slice(), p.0, p.1)),
            None => None,
        }
    }

    /// Whether the line carries no events.
    pub fn is_keep_alive_line(&self) -> (k: bool)
        ensures
            k == spec_is_keep_alive(self@),
    {
        proof {
            use_type_invariant(self);
        }
        self.items.events.is_none()
    }
}

impl Clone for BatchLine {
    fn clone(&self) -> (line: BatchLine)
        ensures
            line@ == self@,
    {
        proof {
            use_type_invariant(self);
        }
        let bytes = self.bytes.clone();
        assert(bytes@ =~= self.bytes@);
        BatchLine { bytes, items: self.items }
    }
}

/// Whether two stretches of bytes are the same.
pub fn same_bytes(a: &[u8], b: &[u8]) -> (r: bool)
    ensures
        r == (a@ == b@),
{
    if a.len() != b.len() {
        return false;
    }
    let mut k: usize = 0;
    while k < a.len()
        invariant
            a@.len() == b@.len(),
            k <= a@.len(),
            forall|j: int| 0 <= j < k ==> a@[j] == b@[j],
        decreases a@.len() - k,
    {
        if a[k] != b[k] {
            return false;
        }
        k += 1;
    }
    proof {
        assert(a@ =~= b@);
    }
    true
}

/// The key under which the batch line `s` is routed and committed: its
/// partition and its event type.
pub open spec fn spec_key(s: Seq<u8>) -> (Seq<u8>, Seq<u8>) {
    (spec_partition(s), spec_event_type(s))
}

/// What a [`Batch`] holds, as plain values.
pub struct BatchView {
    pub line: Seq<u8>,
    pub received_at: u64,
    pub commit_deadline: u64,
}

impl BatchView {
    /// The key of the batch.
    pub open spec fn key(self) -> (Seq<u8>, Seq<u8>) {
        spec_key(self.line)
    }

    /// The cursor of the batch.
    pub open spec fn cursor(self) -> Seq<u8> {
        spec_cursor(self.line)
    }
}

/// A batch line together with the time it was received at and the time by
/// which its cursor should be committed. Times are milliseconds on the
/// caller's monotonic clock.
#[derive(Debug)]
pub struct Batch {
    pub batch_line: BatchLine,
    pub received_at: u64,
    pub commit_deadline: u64,
}

impl View for Batch {
    type V = BatchView;

    open spec fn view(&self) -> BatchView {
        BatchView {
            line: self.batch_line@,
            received_at: self.received_at,
            commit_deadline: self.commit_deadline,
        }
    }
}

impl Batch {
    /// Whether both batches belong to the same partition of the same event
    /// type.
    pub fn same_key(&self, other: &Batch) -> (r: bool)
        ensures
            r == (self@.key() == other@.key()),
    {
        same_bytes(self.batch_line.partition(), other.batch_line.partition()) && same_bytes(
            self.batch_line.event_type(),
            other.batch_line.event_type(),
        )
    }

    /// A batch received at `received_at` on a stream whose batches may wait
    /// `max_batch_age` milliseconds for their commit.
    pub fn new(batch_line: BatchLine, received_at: u64, max_batch_age: u64) -> (b: Batch)
        requires
            received_at + max_batch_age <= u64::MAX,
        ensures
            b.batch_line == batch_line,
            b.received_at == received_at,
            b.commit_deadline == received_at + max_batch_age,
    {
        Batch { batch_line, received_at, commit_deadline: received_at + max_batch_age }
    }
}

impl Clone for Batch {
    fn clone(&self) -> (b: Batch)
        ensures
            b@ == self@,
    {
        Batch {
            batch_line: self.batch_line.clone(),
            received_at: self.received_at,
            commit_deadline: self.commit_deadline,
        }
    }
}

} // verus!
