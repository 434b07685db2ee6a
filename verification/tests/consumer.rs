use std::cell::RefCell;

use nakadion::nakadi::batch::lineparsing::ParseError;
use nakadion::nakadi::batch::{Batch, BatchLine};
use nakadion::nakadi::client::{CommitError, CommitStatus, ConnectError, RawLine, StreamingClient};
use nakadion::nakadi::committer::{run_commit_loop, CommitRegistry, Committer, LoopInput};
use nakadion::nakadi::consumer::{
    backoff_ms, consume_line, send_line, teardown_step, Connecting, ConsumeStep, Consumer,
    LoopEvent, LoopMove, SendLineError, Teardown, BACKOFF_BEYOND_TABLE_MS,
    CONNECT_MAX_DURATION_MS,
};
use nakadion::nakadi::dispatcher::{Dispatcher, WorkerInput};
use nakadion::nakadi::handler::{
    handle_batch, BatchHandler, HandlerFactory, ProcessingStatus, WorkerStep,
};
use nakadion::nakadi::model::{FlowId, StreamId, SubscriptionId};
use nakadion::nakadi::CommitStrategy;

const MAX_AGE: u64 = 60_000;

fn cursor(event_type: &str, partition: &str, offset: &str) -> Vec<u8> {
    format!(
        r#"{{"partition":"{}","offset":"{}","event_type":"{}"}}"#,
        partition, offset, event_type
    )
    .into_bytes()
}

fn batch_line(event_type: &str, partition: &str, offset: &str, received_at: u64) -> RawLine {
    let mut bytes = br#"{"cursor":"#.to_vec();
    bytes.extend_from_slice(&cursor(event_type, partition, offset));
    bytes.extend_from_slice(format!(r#","events":["{}"]}}"#, offset).as_bytes());
    RawLine { bytes, received_at }
}

fn keep_alive_line(event_type: &str, partition: &str, received_at: u64) -> RawLine {
    let mut bytes = br#"{"cursor":"#.to_vec();
    bytes.extend_from_slice(&cursor(event_type, partition, "keep"));
    bytes.extend_from_slice(br#","info":{"debug":"still here"}}"#);
    RawLine { bytes, received_at }
}

struct FakeClient {
    commits: RefCell<Vec<Vec<Vec<u8>>>>,
    answers: RefCell<Vec<Result<CommitStatus, CommitError>>>,
    connects: RefCell<usize>,
}

impl FakeClient {
    fn new() -> FakeClient {
        FakeClient {
            commits: RefCell::new(Vec::new()),
            answers: RefCell::new(Vec::new()),
            connects: RefCell::new(0),
        }
    }
}

impl StreamingClient for FakeClient {
    type LineIterator = std::vec::IntoIter<Result<RawLine, String>>;

    fn connect(&self, flow_id: FlowId) -> Result<(StreamId, Self::LineIterator), ConnectError> {
        *self.connects.borrow_mut() += 1;
        Err(ConnectError::Temporary("no route".to_string(), flow_id))
    }

    fn commit(
        &self,
        _stream_id: StreamId,
        cursors: &Vec<Vec<u8>>,
        _flow_id: FlowId,
    ) -> Result<CommitStatus, CommitError> {
        self.commits.borrow_mut().push(cursors.clone());
        let mut answers = self.answers.borrow_mut();
        if answers.is_empty() {
            Ok(CommitStatus::AllOffsetsIncreased)
        } else {
            answers.remove(0)
        }
    }

    fn subscription_id(&self) -> SubscriptionId {
        SubscriptionId("subscription-1".to_string())
    }
}

struct Recorder {
    seen: Vec<Vec<u8>>,
}

impl BatchHandler for Recorder {
    fn handle(&mut self, _event_type: &[u8], events: &[u8]) -> ProcessingStatus {
        self.seen.push(events.to_vec());
        ProcessingStatus::Continue
    }
}

struct Factory;

impl HandlerFactory for Factory {
    type Handler = Recorder;

    fn create_handler(&self, _partition: &[u8], _event_type: &[u8]) -> Recorder {
        Recorder { seen: Vec::new() }
    }
}

fn flow(n: usize) -> FlowId {
    FlowId(format!("flow-{}", n))
}

/// One stream from connect to take-down, driven the way a supervisor
/// drives it, on one thread: every line is read, handled and acknowledged
/// before the next; the commit loop takes a turn after each line.
struct Incarnation {
    dispatcher: Dispatcher<Factory>,
    committer: Committer,
    registry: CommitRegistry,
    handlers: Vec<Recorder>,
    strategy: CommitStrategy,
    loop_ended: bool,
}

impl Incarnation {
    fn start(client: &FakeClient, strategy: CommitStrategy, stream: &str) -> Incarnation {
        Incarnation {
            dispatcher: Dispatcher::start(Factory, 16),
            committer: Committer::start(client, strategy, StreamId(stream.to_string())),
            registry: CommitRegistry::new(),
            handlers: Vec::new(),
            strategy,
            loop_ended: false,
        }
    }

    fn run_workers(&mut self) {
        for index in 0..self.handlers.len() {
            loop {
                match self.dispatcher.take(index) {
                    WorkerInput::Next(batch) => {
                        match handle_batch(&mut self.handlers[index], batch) {
                            WorkerStep::Acknowledge(acked) => {
                                self.committer.commit(acked).unwrap();
                            }
                            WorkerStep::Proceed => {}
                            WorkerStep::Abort => self.dispatcher.abort(index),
                        }
                    }
                    WorkerInput::Idle | WorkerInput::Exit => break,
                }
            }
        }
    }

    fn commit_turn(&mut self, client: &FakeClient, now: u64) {
        if self.loop_ended {
            return;
        }
        let input = self.committer.next_input();
        let stream_id = self.committer.stream_id().clone();
        let report =
            run_commit_loop(&mut self.registry, self.strategy, &stream_id, client, input, now, flow(0));
        if !report.goes_on {
            self.committer.stopped();
            self.loop_ended = true;
        }
    }

    fn read(&mut self, client: &FakeClient, line: Result<RawLine, String>, now: u64) -> bool {
        match consume_line(&mut self.dispatcher, false, line, MAX_AGE) {
            ConsumeStep::Continue(sent) => {
                if let Some(new_worker) = sent.new_worker {
                    assert_eq!(new_worker.index, self.handlers.len());
                    self.handlers.push(new_worker.handler);
                }
                self.run_workers();
                self.commit_turn(client, now);
                true
            }
            _ => false,
        }
    }

    fn take_down(&mut self, client: &FakeClient, now: u64) {
        let mut rounds = 0;
        loop {
            rounds += 1;
            assert!(rounds < 100);
            match teardown_step(&mut self.dispatcher, &mut self.committer) {
                Teardown::WaitForDispatcher => self.run_workers(),
                Teardown::WaitForCommitter => self.commit_turn(client, now),
                Teardown::Done => break,
            }
        }
    }
}

#[test]
fn the_backoff_ramps_up_and_then_rests() {
    let expected: [u64; 19] = [
        10, 50, 100, 500, 1000, 1000, 1000, 3000, 3000, 3000, 5000, 5000, 5000, 10_000, 10_000,
        10_000, 15_000, 15_000, 15_000,
    ];
    for (attempt, ms) in expected.iter().enumerate() {
        assert_eq!(backoff_ms(attempt), *ms);
    }
    assert_eq!(backoff_ms(19), 30_000);
    assert_eq!(backoff_ms(1_000), 30_000);
    assert_eq!(backoff_ms(usize::MAX), BACKOFF_BEYOND_TABLE_MS);
    assert_eq!(CONNECT_MAX_DURATION_MS, 300_000);
}

#[test]
fn a_run_of_attempts_waits_longer_each_time() {
    let mut run = Connecting::new(1_000, CONNECT_MAX_DURATION_MS);
    assert_eq!(run.deadline, 301_000);
    assert_eq!(run.attempts, 0);
    assert_eq!(run.next_attempt(false, flow(1)), Ok(flow(1)));
    assert_eq!(run.attempts, 1);
    let failure = ConnectError::Temporary("no route".to_string(), flow(1));
    assert_eq!(run.failed(failure.clone_for_test(), flow(1), 1_100, false), Ok(50));
    assert_eq!(run.next_attempt(false, flow(2)), Ok(flow(2)));
    assert_eq!(run.failed(failure.clone_for_test(), flow(2), 1_200, false), Ok(100));
    assert_eq!(run.next_attempt(false, flow(3)), Ok(flow(3)));
    assert_eq!(run.failed(failure.clone_for_test(), flow(3), 1_300, false), Ok(500));
}

trait CloneForTest {
    fn clone_for_test(&self) -> Self;
}

impl CloneForTest for ConnectError {
    fn clone_for_test(&self) -> ConnectError {
        match self {
            ConnectError::Permanent(text, id) => ConnectError::Permanent(text.clone(), id.clone()),
            ConnectError::Temporary(text, id) => ConnectError::Temporary(text.clone(), id.clone()),
            ConnectError::BudgetSpent { attempts, flow_id } => {
                ConnectError::BudgetSpent { attempts: *attempts, flow_id: flow_id.clone() }
            }
            ConnectError::Aborted { attempts, flow_id } => {
                ConnectError::Aborted { attempts: *attempts, flow_id: flow_id.clone() }
            }
        }
    }
}

#[test]
fn a_permanent_failure_ends_the_run_at_once() {
    let mut run = Connecting::new(0, CONNECT_MAX_DURATION_MS);
    run.next_attempt(false, flow(1)).unwrap();
    let failure = ConnectError::Permanent("forbidden".to_string(), flow(1));
    assert_eq!(
        run.failed(failure, flow(1), 10, false),
        Err(ConnectError::Permanent("forbidden".to_string(), flow(1)))
    );
}

#[test]
fn the_deadline_ends_the_run() {
    let mut run = Connecting::new(0, 1_000);
    run.next_attempt(false, flow(1)).unwrap();
    run.next_attempt(false, flow(2)).unwrap();
    let failure = ConnectError::Temporary("no route".to_string(), flow(2));
    assert_eq!(run.failed(failure.clone_for_test(), flow(2), 999, false), Ok(100));
    assert_eq!(
        run.failed(failure.clone_for_test(), flow(2), 1_000, false),
        Err(ConnectError::BudgetSpent { attempts: 2, flow_id: flow(2) })
    );
    assert_eq!(
        run.failed(failure, flow(2), 1_000, true),
        Err(ConnectError::BudgetSpent { attempts: 2, flow_id: flow(2) })
    );
}

#[test]
fn an_abort_request_ends_the_run() {
    let mut run = Connecting::new(0, 1_000);
    run.next_attempt(false, flow(1)).unwrap();
    let failure = ConnectError::Temporary("no route".to_string(), flow(1));
    assert_eq!(
        run.failed(failure, flow(1), 10, true),
        Err(ConnectError::Aborted { attempts: 1, flow_id: flow(1) })
    );
}

#[test]
fn only_a_temporary_failure_is_worth_another_attempt() {
    assert!(!ConnectError::Temporary("t".to_string(), flow(1)).is_permanent());
    assert!(ConnectError::Permanent("p".to_string(), flow(1)).is_permanent());
    assert!(ConnectError::BudgetSpent { attempts: 3, flow_id: flow(1) }.is_permanent());
    assert!(ConnectError::Aborted { attempts: 3, flow_id: flow(1) }.is_permanent());
}

#[test]
fn abort_during_back_off() {
    let client = FakeClient::new();
    let mut consumer = Consumer::start(CommitStrategy::AllBatches);
    assert!(matches!(consumer.consumer_loop(LoopEvent::Begin), LoopMove::Connect));
    let mut run = Connecting::new(0, CONNECT_MAX_DURATION_MS);
    let flow_id = run.next_attempt(consumer.abort_requested(), flow(1)).unwrap();
    let failure = client.connect(flow_id).err().unwrap();
    let rest = run.failed(failure, flow(1), 5, consumer.abort_requested()).unwrap();
    assert_eq!(rest, 50);
    consumer.stop();
    let ended = run.next_attempt(consumer.abort_requested(), flow(2));
    assert_eq!(ended, Err(ConnectError::Aborted { attempts: 1, flow_id: flow(2) }));
    assert!(matches!(
        consumer.consumer_loop(LoopEvent::ConnectEnded(Err(ended.err().unwrap()))),
        LoopMove::Finish
    ));
    assert!(!consumer.running());
    assert_eq!(*client.connects.borrow(), 1);
}

#[test]
fn the_loop_connects_consumes_and_connects_again() {
    let mut consumer = Consumer::start(CommitStrategy::MaxAge);
    assert!(consumer.running());
    assert!(!consumer.abort_requested());
    assert_eq!(consumer.commit_strategy(), CommitStrategy::MaxAge);
    assert!(matches!(consumer.consumer_loop(LoopEvent::Begin), LoopMove::Connect));
    match consumer.consumer_loop(LoopEvent::ConnectEnded(Ok(StreamId("s-1".to_string())))) {
        LoopMove::Consume(id) => assert_eq!(id, StreamId("s-1".to_string())),
        other => panic!("unexpected move {:?}", other),
    }
    assert!(matches!(consumer.consumer_loop(LoopEvent::Begin), LoopMove::Connect));
    assert!(matches!(
        consumer.consumer_loop(LoopEvent::ConnectEnded(Err(ConnectError::Temporary(
            "busy".to_string(),
            flow(1)
        )))),
        LoopMove::Connect
    ));
    assert!(consumer.running());
    assert!(matches!(
        consumer.consumer_loop(LoopEvent::ConnectEnded(Err(ConnectError::Permanent(
            "forbidden".to_string(),
            flow(2)
        )))),
        LoopMove::Finish
    ));
    assert!(!consumer.running());
}

#[test]
fn stopping_the_consumer_twice_is_stopping_it_once() {
    let mut once = Consumer::start(CommitStrategy::MaxAge);
    let mut twice = Consumer::start(CommitStrategy::MaxAge);
    once.stop();
    twice.stop();
    twice.stop();
    assert_eq!(once.running(), twice.running());
    assert_eq!(once.abort_requested(), twice.abort_requested());
    assert!(matches!(once.consumer_loop(LoopEvent::Begin), LoopMove::Finish));
    assert!(matches!(twice.consumer_loop(LoopEvent::Begin), LoopMove::Finish));
    assert!(!once.running());
    assert!(!twice.running());
    twice.stop();
    assert!(!twice.running());
}

#[test]
fn a_line_becomes_a_batch_with_a_deadline() {
    let mut dispatcher = Dispatcher::start(Factory, 16);
    let sent = send_line(&mut dispatcher, batch_line("A", "0", "c1", 500), MAX_AGE).ok().unwrap();
    assert!(!sent.kept_alive);
    assert!(sent.info.is_none());
    assert_eq!(sent.new_worker.unwrap().index, 0);
    match dispatcher.take(0) {
        WorkerInput::Next(batch) => {
            assert_eq!(batch.received_at, 500);
            assert_eq!(batch.commit_deadline, 60_500);
            assert_eq!(batch.batch_line.cursor(), &cursor("A", "0", "c1")[..]);
        }
        other => panic!("unexpected input {:?}", other),
    }
}

#[test]
fn a_keep_alive_goes_no_further() {
    let mut dispatcher = Dispatcher::start(Factory, 16);
    let sent = send_line(&mut dispatcher, keep_alive_line("A", "0", 500), MAX_AGE).ok().unwrap();
    assert!(sent.kept_alive);
    assert!(sent.new_worker.is_none());
    assert_eq!(sent.info.unwrap(), br#"{"debug":"still here"}"#.to_vec());
    assert_eq!(dispatcher.worker_count(), 0);
}

#[test]
fn a_malformed_line_is_rejected() {
    let mut dispatcher = Dispatcher::start(Factory, 16);
    let broken = RawLine { bytes: b"{\"cursor\":".to_vec(), received_at: 0 };
    match send_line(&mut dispatcher, broken, MAX_AGE) {
        Err(SendLineError::Parse(e)) => assert_eq!(e, ParseError::NotAnObject),
        _ => panic!("the line was taken in"),
    }
    assert_eq!(dispatcher.worker_count(), 0);
}

#[test]
fn a_stopped_dispatcher_refuses_the_line() {
    let mut dispatcher = Dispatcher::start(Factory, 16);
    dispatcher.stop();
    match send_line(&mut dispatcher, batch_line("A", "0", "c1", 0), MAX_AGE) {
        Err(SendLineError::Refused(message)) => {
            assert_eq!(message, "Could not process batch: the dispatcher was stopped")
        }
        _ => panic!("the line was taken in"),
    }
    assert!(send_line(&mut dispatcher, keep_alive_line("A", "0", 0), MAX_AGE).is_ok());
}

#[test]
fn a_line_for_a_full_queue_is_refused() {
    let mut dispatcher = Dispatcher::start(Factory, 1);
    assert!(send_line(&mut dispatcher, batch_line("A", "0", "c1", 0), MAX_AGE).is_ok());
    match send_line(&mut dispatcher, batch_line("A", "0", "c2", 0), MAX_AGE) {
        Err(SendLineError::Refused(message)) => {
            assert_eq!(message, "Could not process batch: the queue of its partition is full")
        }
        _ => panic!("the line was taken in"),
    }
    assert!(send_line(&mut dispatcher, batch_line("A", "1", "c3", 0), MAX_AGE).is_ok());
    assert!(matches!(
        consume_line(&mut dispatcher, false, Ok(batch_line("A", "1", "c4", 0)), MAX_AGE),
        ConsumeStep::Rejected(SendLineError::Refused(_))
    ));
}

#[test]
fn the_read_loop_ends_on_abort_and_on_errors() {
    let mut dispatcher = Dispatcher::start(Factory, 16);
    assert!(matches!(
        consume_line(&mut dispatcher, true, Ok(batch_line("A", "0", "c1", 0)), MAX_AGE),
        ConsumeStep::Aborted
    ));
    assert_eq!(dispatcher.worker_count(), 0);
    match consume_line(&mut dispatcher, false, Err("connection reset".to_string()), MAX_AGE) {
        ConsumeStep::Broken(reason) => assert_eq!(reason, "connection reset"),
        _ => panic!("the loop went on"),
    }
    assert!(matches!(
        consume_line(
            &mut dispatcher,
            false,
            Ok(RawLine { bytes: b"not json".to_vec(), received_at: 0 }),
            MAX_AGE
        ),
        ConsumeStep::Rejected(SendLineError::Parse(ParseError::NotAnObject))
    ));
    assert!(matches!(
        consume_line(&mut dispatcher, false, Ok(batch_line("A", "0", "c1", 0)), MAX_AGE),
        ConsumeStep::Continue(_)
    ));
    assert_eq!(dispatcher.worker_count(), 1);
}

#[test]
fn the_dispatcher_is_taken_down_before_the_committer() {
    let client = FakeClient::new();
    let mut dispatcher = Dispatcher::start(Factory, 16);
    let mut committer =
        Committer::start(&client, CommitStrategy::MaxAge, StreamId("s-1".to_string()));
    send_line(&mut dispatcher, batch_line("A", "0", "c1", 0), MAX_AGE).ok().unwrap();
    assert_eq!(teardown_step(&mut dispatcher, &mut committer), Teardown::WaitForDispatcher);
    assert!(matches!(committer.next_input(), LoopInput::Timeout));
    assert!(matches!(dispatcher.take(0), WorkerInput::Next(_)));
    assert_eq!(teardown_step(&mut dispatcher, &mut committer), Teardown::WaitForDispatcher);
    assert!(matches!(dispatcher.take(0), WorkerInput::Exit));
    committer.commit(Batch::new(BatchLine::new(batch_line("A", "0", "c1", 0).bytes).unwrap(), 0, MAX_AGE)).unwrap();
    assert_eq!(committer.waiting(), 1);
    assert_eq!(teardown_step(&mut dispatcher, &mut committer), Teardown::WaitForCommitter);
    assert!(matches!(committer.next_input(), LoopInput::Received(_)));
    assert_eq!(committer.waiting(), 0);
    assert_eq!(teardown_step(&mut dispatcher, &mut committer), Teardown::WaitForCommitter);
    assert!(matches!(committer.next_input(), LoopInput::AbortRequested));
    assert_eq!(teardown_step(&mut dispatcher, &mut committer), Teardown::WaitForCommitter);
    committer.stopped();
    assert_eq!(teardown_step(&mut dispatcher, &mut committer), Teardown::Done);
}

#[test]
fn a_take_down_does_not_wait_for_a_commit_loop_that_has_ended() {
    let client = FakeClient::new();
    let mut dispatcher = Dispatcher::start(Factory, 16);
    let mut committer =
        Committer::start(&client, CommitStrategy::MaxAge, StreamId("s-1".to_string()));
    committer.commit(Batch::new(BatchLine::new(batch_line("A", "0", "c1", 0).bytes).unwrap(), 0, MAX_AGE)).unwrap();
    committer.stopped();
    assert_eq!(teardown_step(&mut dispatcher, &mut committer), Teardown::Done);
    assert_eq!(committer.waiting(), 1);
}

#[test]
fn single_partition_all_batches_from_line_to_commit() {
    let client = FakeClient::new();
    let mut stream = Incarnation::start(&client, CommitStrategy::AllBatches, "s-1");
    assert!(stream.read(&client, Ok(batch_line("A", "0", "c1", 10)), 10));
    assert!(stream.read(&client, Ok(batch_line("A", "0", "c2", 20)), 20));
    assert!(stream.read(&client, Ok(batch_line("A", "0", "c3", 30)), 30));
    assert_eq!(stream.handlers.len(), 1);
    assert_eq!(
        stream.handlers[0].seen,
        vec![br#"["c1"]"#.to_vec(), br#"["c2"]"#.to_vec(), br#"["c3"]"#.to_vec()]
    );
    assert_eq!(
        *client.commits.borrow(),
        vec![
            vec![cursor("A", "0", "c1")],
            vec![cursor("A", "0", "c2")],
            vec![cursor("A", "0", "c3")]
        ]
    );
}

#[test]
fn keep_alive_interleaving() {
    let client = FakeClient::new();
    let mut stream = Incarnation::start(&client, CommitStrategy::AllBatches, "s-1");
    assert!(stream.read(&client, Ok(batch_line("A", "0", "c1", 10)), 10));
    assert!(stream.read(&client, Ok(keep_alive_line("A", "0", 20)), 20));
    assert!(stream.read(&client, Ok(batch_line("A", "0", "c2", 30)), 30));
    assert_eq!(stream.handlers[0].seen, vec![br#"["c1"]"#.to_vec(), br#"["c2"]"#.to_vec()]);
    assert_eq!(
        *client.commits.borrow(),
        vec![vec![cursor("A", "0", "c1")], vec![cursor("A", "0", "c2")]]
    );
}

#[test]
fn reconnect_preserves_at_least_once() {
    let client = FakeClient::new();
    client.answers.borrow_mut().push(Err(CommitError("stream is gone".to_string())));
    let mut consumer = Consumer::start(CommitStrategy::MaxAge);
    assert!(matches!(consumer.consumer_loop(LoopEvent::Begin), LoopMove::Connect));
    assert!(matches!(
        consumer.consumer_loop(LoopEvent::ConnectEnded(Ok(StreamId("s-1".to_string())))),
        LoopMove::Consume(_)
    ));
    let mut first = Incarnation::start(&client, consumer.commit_strategy(), "s-1");
    assert!(first.read(&client, Ok(batch_line("A", "0", "c1", 10)), 10));
    assert_eq!(first.handlers[0].seen, vec![br#"["c1"]"#.to_vec()]);
    assert!(client.commits.borrow().is_empty());
    assert!(!first.read(&client, Err("connection reset".to_string()), 20));
    first.take_down(&client, 30);
    assert_eq!(*client.commits.borrow(), vec![vec![cursor("A", "0", "c1")]]);
    assert!(!first.committer.running());

    assert!(matches!(consumer.consumer_loop(LoopEvent::Begin), LoopMove::Connect));
    assert!(matches!(
        consumer.consumer_loop(LoopEvent::ConnectEnded(Ok(StreamId("s-2".to_string())))),
        LoopMove::Consume(_)
    ));
    let mut second = Incarnation::start(&client, consumer.commit_strategy(), "s-2");
    assert!(second.read(&client, Ok(batch_line("A", "0", "c1", 40)), 40));
    assert_eq!(second.handlers[0].seen, vec![br#"["c1"]"#.to_vec()]);
    second.commit_turn(&client, 40 + MAX_AGE);
    assert_eq!(
        *client.commits.borrow(),
        vec![vec![cursor("A", "0", "c1")], vec![cursor("A", "0", "c1")]]
    );
    assert!(second.registry.is_empty());
    assert!(second.committer.running());
}

#[test]
fn a_take_down_commits_what_the_workers_still_acknowledge() {
    let client = FakeClient::new();
    let mut stream = Incarnation::start(&client, CommitStrategy::MaxAge, "s-1");
    match consume_line(&mut stream.dispatcher, false, Ok(batch_line("A", "0", "c1", 0)), MAX_AGE) {
        ConsumeStep::Continue(sent) => stream.handlers.push(sent.new_worker.unwrap().handler),
        _ => panic!("the line was not taken in"),
    }
    match consume_line(&mut stream.dispatcher, false, Ok(batch_line("A", "1", "c2", 0)), MAX_AGE) {
        ConsumeStep::Continue(sent) => stream.handlers.push(sent.new_worker.unwrap().handler),
        _ => panic!("the line was not taken in"),
    }
    stream.take_down(&client, 10);
    assert_eq!(stream.handlers[0].seen, vec![br#"["c1"]"#.to_vec()]);
    assert_eq!(stream.handlers[1].seen, vec![br#"["c2"]"#.to_vec()]);
    assert!(!stream.dispatcher.is_running());
    assert!(!stream.committer.running());
    assert!(stream.registry.is_empty());
    assert_eq!(
        *client.commits.borrow(),
        vec![vec![cursor("A", "0", "c1"), cursor("A", "1", "c2")]]
    );
}
