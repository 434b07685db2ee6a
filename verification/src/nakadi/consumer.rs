//! The consumer: it connects to the stream, hands the batch lines it reads
//! to the dispatcher, and takes everything down in order when the stream
//! ends or an abort is requested.

use vstd::prelude::*;
use vstd::slice::slice_to_vec;
use crate::nakadi::batch::lineparsing::{spec_frame, FrameSpans, ParseError};
use crate::nakadi::batch::{is_batch_line, spec_info, spec_is_keep_alive, Batch, BatchLine, BatchView};
use crate::nakadi::client::{ConnectError, RawLine};
use crate::nakadi::committer::Committer;
use crate::nakadi::dispatcher::{
    has_worker, made_by, spec_congestion, spec_refusal, Dispatcher, DispatcherView, NewWorker,
    WorkerView,
};
use crate::nakadi::handler::HandlerFactory;
use crate::nakadi::lifecycle::Lifecycle;
use crate::nakadi::model::{FlowId, StreamId};
use crate::nakadi::CommitStrategy;

verus! {

/// The milliseconds to wait after a failed connect, by the number of the
/// attempt that failed: a short ramp, then longer and longer rests.
pub open spec fn backoff_table() -> Seq<u64> {
    seq![
        10u64,
        50u64,
        100u64,
        500u64,
        1000u64,
        1000u64,
        1000u64,
        3000u64,
        3000u64,
        3000u64,
        5000u64,
        5000u64,
        5000u64,
        10_000u64,
        10_000u64,
        10_000u64,
        15_000u64,
        15_000u64,
        15_000u64,
    ]
}

/// The milliseconds to wait once the table is used up.
pub const BACKOFF_BEYOND_TABLE_MS: u64 = 30_000;

/// The milliseconds to wait after the failure of attempt number `attempt`.
pub open spec fn spec_backoff_ms(attempt: usize) -> u64 {
    if attempt < backoff_table().len() {
        backoff_table()[attempt as int]
    } else {
        BACKOFF_BEYOND_TABLE_MS
    }
}

/// The milliseconds to wait after the failure of attempt number `attempt`.
pub fn backoff_ms(attempt: usize) -> (ms: u64)
    ensures
        ms == spec_backoff_ms(attempt),
{
    if attempt == 0 {
        10
    } else if attempt == 1 {
        50
    } else if attempt == 2 {
        100
    } else if attempt == 3 {
        500
    } else if attempt <= 6 {
        1000
    } else if attempt <= 9 {
        3000
    } else if attempt <= 12 {
        5000
    } else if attempt <= 15 {
        10_000
    } else if attempt <= 18 {
        15_000
    } else {
        BACKOFF_BEYOND_TABLE_MS
    }
}

/// The time within which a connection must be made, in milliseconds.
pub const CONNECT_MAX_DURATION_MS: u64 = 300_000;

/// The state of one run of connect attempts: when the run must end, and how
/// many attempts were made.
#[derive(Clone, Copy, Debug, PartialEq, Eq, Structural)]
pub struct Connecting {
    pub deadline: u64,
    pub attempts: usize,
}

impl Connecting {
    /// A run of attempts that starts at `now` and may last `max_duration`
    /// milliseconds.
    pub fn new(now: u64, max_duration: u64) -> (c: Connecting)
        requires
            now + max_duration <= u64::MAX,
        ensures
            c == (Connecting { deadline: (now + max_duration) as u64, attempts: 0 }),
    {
        Connecting { deadline: now + max_duration, attempts: 0 }
    }

    /// Decides whether another attempt is made. After an abort request none
    /// is: the run ends with an error that tells how many attempts were
    /// made. Otherwise the attempt is counted and the caller connects.
    pub fn next_attempt(&mut self, abort_requested: bool, flow_id: FlowId) -> (r: Result<
        FlowId,
        ConnectError,
    >)
        requires
            old(self).attempts < usize::MAX,
        ensures
            final(self).deadline == old(self).deadline,
            match r {
                Ok(id) => !abort_requested && id == flow_id && final(self).attempts == old(self).attempts + 1,
                Err(e) => abort_requested && final(self).attempts == old(self).attempts && e
                    == (ConnectError::Aborted { attempts: old(self).attempts, flow_id }),
            },
    {
        if abort_requested {
            Err(ConnectError::Aborted { attempts: self.attempts, flow_id })
        } else {
            self.attempts = self.attempts + 1;
            Ok(flow_id)
        }
    }

    /// What follows from the failure `error` of the latest attempt, which
    /// was made under `flow_id` and had failed by `now`.
    pub open spec fn spec_failed(
        self,
        error: ConnectError,
        flow_id: FlowId,
        now: u64,
        abort_requested: bool,
    ) -> Result<u64, ConnectError> {
        if error.spec_is_permanent() {
            Err(error)
        } else if now >= self.deadline {
            Err(ConnectError::BudgetSpent { attempts: self.attempts, flow_id })
        } else if abort_requested {
            Err(ConnectError::Aborted { attempts: self.attempts, flow_id })
        } else {
            Ok(spec_backoff_ms(self.attempts))
        }
    }

    /// Decides what follows from the failure of the latest attempt: the
    /// milliseconds to wait before the next one, or the error with which
    /// the run ends. A failure that trying again cannot mend ends the run
    /// at once. So does the deadline, and so does an abort request; the
    /// error then tells how many attempts were made.
    pub fn failed(&self, error: ConnectError, flow_id: FlowId, now: u64, abort_requested: bool) -> (r:
        Result<u64, ConnectError>)
        ensures
            r == self.spec_failed(error, flow_id, now, abort_requested),
    {
        if error.is_permanent() {
            Err(error)
        } else if now >= self.deadline {
            Err(ConnectError::BudgetSpent { attempts: self.attempts, flow_id })
        } else if abort_requested {
            Err(ConnectError::Aborted { attempts: self.attempts, flow_id })
        } else {
            Ok(backoff_ms(self.attempts))
        }
    }
}

/// A run of connect attempts never ends with an error that invites another
/// run on its own account: what it gives up with is permanent.
pub proof fn lemma_connect_gives_up_for_good(
    c: Connecting,
    error: ConnectError,
    flow_id: FlowId,
    now: u64,
    abort_requested: bool,
)
    ensures
        c.spec_failed(error, flow_id, now, abort_requested) matches Err(e)
            ==> e.spec_is_permanent(),
        c.spec_failed(error, flow_id, now, abort_requested) matches Ok(ms) ==> 10 <= ms <= 30_000,
{
    let t = backoff_table();
    if c.attempts < t.len() {
        assert(t.len() == 19);
        assert(t[0] == 10 && t[1] == 50 && t[2] == 100 && t[3] == 500);
        assert(t[4] == 1000 && t[5] == 1000 && t[6] == 1000);
        assert(t[7] == 3000 && t[8] == 3000 && t[9] == 3000);
        assert(t[10] == 5000 && t[11] == 5000 && t[12] == 5000);
        assert(t[13] == 10_000 && t[14] == 10_000 && t[15] == 10_000);
        assert(t[16] == 15_000 && t[17] == 15_000 && t[18] == 15_000);
    }
}

/// Why a line was not passed on.
#[derive(Debug)]
pub enum SendLineError {
    /// The line is no batch line.
    Parse(ParseError),
    /// The dispatcher takes no more batches; the text is its refusal.
    Refused(String),
}

/// What became of a line that was taken in.
pub struct SentLine<H> {
    /// What the server had to say along with the line, for the log.
    pub info: Option<Vec<u8>>,
    /// Whether the line held no events and so went no further.
    pub kept_alive: bool,
    /// The worker that the dispatcher made for the line's partition, if it
    /// was the first line of that partition.
    pub new_worker: Option<NewWorker<H>>,
}

/// The info of the batch line `s`, as the caller gets it.
pub open spec fn info_matches(info: Option<Vec<u8>>, s: Seq<u8>) -> bool {
    match info {
        Some(bytes) => spec_info(s) == Some(bytes@),
        None => spec_info(s).is_none(),
    }
}

/// The batch that a line received at `received_at` makes on a stream whose
/// batches may wait `max_batch_age` milliseconds for their commit.
pub open spec fn batch_of(line: RawLine, max_batch_age: u64) -> BatchView {
    BatchView {
        line: line.bytes@,
        received_at: line.received_at,
        commit_deadline: (line.received_at + max_batch_age) as u64,
    }
}

/// Whether `r` is what [`send_line`] makes of `line` with a dispatcher that
/// was as `before` says, and `after` is what it leaves of the dispatcher.
///
/// A line that is no batch line is an error and leaves the dispatcher alone.
/// So does a line that the dispatcher does not take, because it was asked to
/// stop or because the queue of the line's partition is full. A line without
/// events is taken in and goes no further. Any other line is handed to the
/// dispatcher as a batch.
pub open spec fn spec_sent<H>(
    r: Result<SentLine<H>, SendLineError>,
    line: RawLine,
    max_batch_age: u64,
    before: DispatcherView,
    after: DispatcherView,
) -> bool {
    let batch = batch_of(line, max_batch_age);
    match r {
        Ok(sent) => {
            &&& is_batch_line(line.bytes@)
            &&& info_matches(sent.info, line.bytes@)
            &&& sent.kept_alive == spec_is_keep_alive(line.bytes@)
            &&& sent.kept_alive ==> sent.new_worker.is_none() && after == before
            &&& !sent.kept_alive ==> {
                &&& before.accepts(batch)
                &&& after == before.process(batch)
                &&& sent.new_worker.is_some() == !has_worker(before.workers, batch.key())
                &&& sent.new_worker.is_some() ==> sent.new_worker.unwrap().index
                    == before.workers.len()
            }
        },
        Err(SendLineError::Parse(e)) => {
            &&& spec_frame(line.bytes@) == Err::<FrameSpans, ParseError>(e)
            &&& after == before
        },
        Err(SendLineError::Refused(message)) => {
            &&& is_batch_line(line.bytes@)
            &&& !spec_is_keep_alive(line.bytes@)
            &&& !before.accepts(batch)
            &&& after == before
            &&& message@ == if before.stop_requested {
                spec_refusal()
            } else {
                spec_congestion()
            }
        },
    }
}

/// Takes a line apart and hands it to the dispatcher as a batch. A line
/// without events keeps the connection alive and goes no further. The info
/// of a line, if it has one, is given back for the log in either case. A
/// line that the dispatcher does not take, because it was asked to stop or
/// because the queue of the line's partition is full, is an error.
pub fn send_line<HF: HandlerFactory>(
    dispatcher: &mut Dispatcher<HF>,
    line: RawLine,
    max_batch_age: u64,
) -> (r: Result<SentLine<HF::Handler>, SendLineError>)
    requires
        line.received_at + max_batch_age <= u64::MAX,
    ensures
        spec_sent(r, line, max_batch_age, old(dispatcher)@, final(dispatcher)@),
        final(dispatcher).spec_factory() == old(dispatcher).spec_factory(),
        match r {
            Ok(sent) => sent.new_worker.is_some() ==> made_by(
                &old(dispatcher).spec_factory(),
                batch_of(line, max_batch_age).key(),
                sent.new_worker.unwrap().handler,
            ),
            Err(_) => true,
        },
{
    let received_at = line.received_at;
    let batch_line = match BatchLine::new(line.bytes) {
        Ok(parsed) => parsed,
        Err(e) => {
            return Err(SendLineError::Parse(e));
        },
    };
    let info = match batch_line.info() {
        Some(bytes) => Some(slice_to_vec(bytes)),
        None => None,
    };
    if batch_line.is_keep_alive_line() {
        Ok(SentLine { info, kept_alive: true, new_worker: None })
    } else {
        let batch = Batch::new(batch_line, received_at, max_batch_age);
        match dispatcher.process(batch) {
            Ok(new_worker) => Ok(SentLine { info, kept_alive: false, new_worker }),
            Err(message) => Err(SendLineError::Refused(message)),
        }
    }
}

/// What the read loop does after a line.
pub enum ConsumeStep<H> {
    /// The line was taken in: read the next one.
    Continue(SentLine<H>),
    /// An abort was requested: the line was not looked at, and the loop
    /// ends.
    Aborted,
    /// The connection broke, with the transport's account of it: the loop
    /// ends.
    Broken(String),
    /// The line was not passed on: the loop ends.
    Rejected(SendLineError),
}

/// The body of the read loop: what to do with the next thing that the line
/// iterator gave, which is a line or the transport's account of a failure.
/// An abort request is looked for first.
pub fn consume_line<HF: HandlerFactory>(
    dispatcher: &mut Dispatcher<HF>,
    abort_requested: bool,
    line_result: Result<RawLine, String>,
    max_batch_age: u64,
) -> (step: ConsumeStep<HF::Handler>)
    requires
        line_result matches Ok(line) ==> line.received_at + max_batch_age <= u64::MAX,
    ensures
        abort_requested ==> step is Aborted && final(dispatcher)@ == old(dispatcher)@,
        !abort_requested ==> match line_result {
            Err(reason) => step matches ConsumeStep::Broken(r) && r == reason && final(dispatcher)@ == old(dispatcher)@,
            Ok(line) => match step {
                ConsumeStep::Continue(sent) => spec_sent(
                    Ok::<SentLine<HF::Handler>, SendLineError>(sent),
                    line,
                    max_batch_age,
                    old(dispatcher)@,
                    final(dispatcher)@,
                ),
                ConsumeStep::Rejected(error) => spec_sent(
                    Err::<SentLine<HF::Handler>, SendLineError>(error),
                    line,
                    max_batch_age,
                    old(dispatcher)@,
                    final(dispatcher)@,
                ),
                _ => false,
            },
        },
        final(dispatcher).spec_factory() == old(dispatcher).spec_factory(),
        match (step, line_result) {
            (ConsumeStep::Continue(sent), Ok(line)) => sent.new_worker.is_some() ==> made_by(
                &old(dispatcher).spec_factory(),
                batch_of(line, max_batch_age).key(),
                sent.new_worker.unwrap().handler,
            ),
            _ => true,
        },
{
    if abort_requested {
        return ConsumeStep::Aborted;
    }
    match line_result {
        Ok(raw_line) => match send_line(dispatcher, raw_line, max_batch_age) {
            Ok(sent) => ConsumeStep::Continue(sent),
            Err(err) => ConsumeStep::Rejected(err),
        },
        Err(reason) => ConsumeStep::Broken(reason),
    }
}

/// Where the take-down of a stream stands.
#[derive(Clone, Copy, Debug, PartialEq, Eq, Structural)]
pub enum Teardown {
    /// The dispatcher was asked to stop; some worker still runs.
    WaitForDispatcher,
    /// All workers have ended; the commit loop still runs. It was asked to
    /// stop unless requests still wait for it.
    WaitForCommitter,
    /// Workers and commit loop have ended.
    Done,
}

/// What a step of the take-down asks of the committer, given that every
/// worker has ended: nothing yet while requests wait for a commit loop that
/// still runs; to stop otherwise.
pub open spec fn asks_committer_to_stop(committer: Committer) -> bool {
    committer.spec_lifecycle().stopped || committer.spec_inbox().len() == 0
}

/// One step of the take-down after the read loop. The dispatcher is asked to
/// stop first. The committer is asked only when every worker has ended and
/// the commit loop has taken all their requests, so that its last commit
/// holds all that the workers acknowledged. The caller repeats the step,
/// with a short rest in between, until it says `Done`.
pub fn teardown_step<HF: HandlerFactory>(
    dispatcher: &mut Dispatcher<HF>,
    committer: &mut Committer,
) -> (t: Teardown)
    ensures
        final(dispatcher)@ == old(dispatcher)@.stop(),
        final(dispatcher).spec_factory() == old(dispatcher).spec_factory(),
        final(committer).spec_stream_id() == old(committer).spec_stream_id(),
        final(committer).spec_subscription_id() == old(committer).spec_subscription_id(),
        final(committer).spec_strategy() == old(committer).spec_strategy(),
        final(committer).spec_inbox() == old(committer).spec_inbox(),
        old(dispatcher)@.stop().is_running() ==> t == Teardown::WaitForDispatcher && final(committer).spec_lifecycle() == old(committer).spec_lifecycle(),
        !old(dispatcher)@.stop().is_running() ==> ({
            &&& final(committer).spec_lifecycle() == if asks_committer_to_stop(*old(committer)) {
                old(committer).spec_lifecycle().after_request_abort()
            } else {
                old(committer).spec_lifecycle()
            }
            &&& t == if old(committer).spec_lifecycle().stopped {
                Teardown::Done
            } else {
                Teardown::WaitForCommitter
            }
        }),
{
    dispatcher.stop();
    if dispatcher.is_running() {
        return Teardown::WaitForDispatcher;
    }
    if !committer.running() {
        committer.stop();
        return Teardown::Done;
    }
    if committer.waiting() == 0 {
        committer.stop();
    }
    Teardown::WaitForCommitter
}

/// What the supervisor's loop has just seen.
#[derive(Debug)]
pub enum LoopEvent {
    /// The loop begins, or begins anew after a stream has been taken down.
    Begin,
    /// A run of connect attempts has ended, with the id of the stream that
    /// was opened or with the error that ended the run.
    ConnectEnded(Result<StreamId, ConnectError>),
}

/// What the supervisor's loop does next.
#[derive(Debug)]
pub enum LoopMove {
    /// Start a run of connect attempts.
    Connect,
    /// Start a committer and a dispatcher for this stream, read its lines,
    /// and take both down when the reading ends.
    Consume(StreamId),
    /// End the loop. The consumer has stopped.
    Finish,
}

/// What the supervisor's loop does on `event` under the signal `lifecycle`,
/// and the signal after it. An abort request ends the loop wherever a new
/// connection would be made. A permanent connect error ends it too; a
/// temporary one leads to a new run of attempts.
pub open spec fn spec_loop_move(lifecycle: Lifecycle, event: LoopEvent) -> (Lifecycle, LoopMove) {
    match event {
        LoopEvent::ConnectEnded(Ok(stream_id)) => (lifecycle, LoopMove::Consume(stream_id)),
        LoopEvent::ConnectEnded(Err(error)) => if error.spec_is_permanent()
            || lifecycle.abort_requested {
            (lifecycle.after_stopped(), LoopMove::Finish)
        } else {
            (lifecycle, LoopMove::Connect)
        },
        LoopEvent::Begin => if lifecycle.abort_requested {
            (lifecycle.after_stopped(), LoopMove::Finish)
        } else {
            (lifecycle, LoopMove::Connect)
        },
    }
}

/// The consumer of a subscription: the signal by which it is watched and
/// stopped, and the decisions of its supervisor.
#[derive(Debug)]
pub struct Consumer {
    lifecycle: Lifecycle,
    commit_strategy: CommitStrategy,
}

impl Consumer {
    /// The signal of the consumer.
    pub closed spec fn spec_lifecycle(self) -> Lifecycle {
        self.lifecycle
    }

    /// The strategy by which the consumer's committers commit.
    pub closed spec fn spec_commit_strategy(self) -> CommitStrategy {
        self.commit_strategy
    }

    /// A consumer that runs and was not asked to stop.
    pub fn start(commit_strategy: CommitStrategy) -> (consumer: Consumer)
        ensures
            consumer.spec_lifecycle() == (Lifecycle { abort_requested: false, stopped: false }),
            consumer.spec_commit_strategy() == commit_strategy,
    {
        Consumer { lifecycle: Lifecycle::default(), commit_strategy }
    }

    /// `true` until the supervisor's loop has ended.
    pub fn running(&self) -> (r: bool)
        ensures
            r == !self.spec_lifecycle().stopped,
    {
        self.lifecycle.running()
    }

    /// Asks the consumer to stop. Asking again changes nothing.
    pub fn stop(&mut self)
        ensures
            final(self).spec_lifecycle() == old(self).spec_lifecycle().after_request_abort(),
            final(self).spec_commit_strategy() == old(self).spec_commit_strategy(),
    {
        self.lifecycle.request_abort();
    }

    /// Whether the consumer was asked to stop.
    pub fn abort_requested(&self) -> (r: bool)
        ensures
            r == self.spec_lifecycle().abort_requested,
    {
        self.lifecycle.abort_requested()
    }

    /// The strategy by which the consumer's committers commit.
    pub fn commit_strategy(&self) -> (strategy: CommitStrategy)
        ensures
            strategy == self.spec_commit_strategy(),
    {
        self.commit_strategy
    }

    /// One decision of the supervisor's loop.
    pub fn consumer_loop(&mut self, event: LoopEvent) -> (next: LoopMove)
        ensures
            (final(self).spec_lifecycle(), next) == spec_loop_move(
                old(self).spec_lifecycle(),
                event,
            ),
            final(self).spec_commit_strategy() == old(self).spec_commit_strategy(),
    {
        match event {
            LoopEvent::ConnectEnded(Ok(stream_id)) => LoopMove::Consume(stream_id),
            LoopEvent::ConnectEnded(Err(error)) => {
                if error.is_permanent() || self.lifecycle.abort_requested() {
                    self.lifecycle.stopped();
                    LoopMove::Finish
                } else {
                    LoopMove::Connect
                }
            },
            LoopEvent::Begin => {
                if self.lifecycle.abort_requested() {
                    self.lifecycle.stopped();
                    LoopMove::Finish
                } else {
                    LoopMove::Connect
                }
            },
        }
    }
}

/// The loop ends exactly when it marks the consumer as stopped, and once an
/// abort was requested it starts no further run of connect attempts.
pub proof fn lemma_loop_ends_on_abort(lifecycle: Lifecycle, event: LoopEvent)
    requires
        !lifecycle.stopped,
    ensures
        (spec_loop_move(lifecycle, event).1 is Finish) == spec_loop_move(
            lifecycle,
            event,
        ).0.stopped,
        lifecycle.abort_requested ==> !(spec_loop_move(lifecycle, event).1 is Connect),
        lifecycle.abort_requested && !(event matches LoopEvent::ConnectEnded(Ok(_)))
            ==> spec_loop_move(lifecycle, event).1 is Finish,
{
}

/// An abort request that arrives while the supervisor rests between two
/// connect attempts ends the run without another attempt, and the loop with
/// it.
pub proof fn lemma_abort_during_backoff(
    c: Connecting,
    lifecycle: Lifecycle,
    flow_id: FlowId,
)
    requires
        lifecycle.abort_requested,
    ensures
        (ConnectError::Aborted { attempts: c.attempts, flow_id }).spec_is_permanent(),
        spec_loop_move(
            lifecycle,
            LoopEvent::ConnectEnded(
                Err(ConnectError::Aborted { attempts: c.attempts, flow_id }),
            ),
        ) == (lifecycle.after_stopped(), LoopMove::Finish),
{
}

/// A new stream starts without memory of the streams before it. Whatever
/// batch the server delivers first, also one that an earlier stream had
/// handled but not committed, is accepted by the new dispatcher and is the
/// first batch that the worker of its partition gets.
pub proof fn lemma_new_stream_takes_any_batch(capacity: nat, batch: BatchView)
    requires
        capacity >= 1,
    ensures
        ({
            let start = DispatcherView {
                workers: Seq::<WorkerView>::empty(),
                stop_requested: false,
                capacity,
            };
            &&& start.accepts(batch)
            &&& start.process(batch).workers.len() == 1
            &&& start.process(batch).workers[0].key == batch.key()
            &&& start.process(batch).can_take(0)
            &&& start.process(batch).workers[0].inbox[0] == batch
        }),
{
    let start = DispatcherView {
        workers: Seq::<WorkerView>::empty(),
        stop_requested: false,
        capacity,
    };
    assert(!has_worker(start.workers, batch.key()));
}

} // verus!
