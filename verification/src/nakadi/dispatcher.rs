//! The partition dispatcher: one worker for each partition, each with a
//! queue of its own, so that the batches of a partition are handled in the
//! order of their arrival while partitions do not wait for each other.

use std::collections::VecDeque;
use vstd::prelude::*;
use vstd::slice::slice_to_vec;
use crate::nakadi::batch::{same_bytes, Batch, BatchView};
use crate::nakadi::handler::HandlerFactory;

verus! {

/// What the dispatcher holds for one worker, as plain values.
pub struct WorkerView {
    /// The partition and the event type that the worker serves.
    pub key: (Seq<u8>, Seq<u8>),
    /// The batches that wait for the worker, oldest first.
    pub inbox: Seq<BatchView>,
    /// Whether the worker has ended.
    pub exited: bool,
}

/// What a dispatcher holds, as plain values.
pub struct DispatcherView {
    /// The workers, in the order in which their partitions first came up.
    pub workers: Seq<WorkerView>,
    /// Whether the dispatcher was asked to stop.
    pub stop_requested: bool,
    /// How many batches may wait for one worker.
    pub capacity: nat,
}

/// Whether no two workers serve the same partition.
pub open spec fn distinct_workers(workers: Seq<WorkerView>) -> bool {
    forall|i: int, j: int|
        0 <= i < j < workers.len() ==> (#[trigger] workers[i]).key != (#[trigger] workers[j]).key
}

/// Whether a worker serves the partition `key`.
pub open spec fn has_worker(workers: Seq<WorkerView>, key: (Seq<u8>, Seq<u8>)) -> bool {
    exists|i: int| 0 <= i < workers.len() && (#[trigger] workers[i]).key == key
}

/// The place of a worker that serves the partition `key`.
pub open spec fn worker_of(workers: Seq<WorkerView>, key: (Seq<u8>, Seq<u8>)) -> int {
    choose|i: int| 0 <= i < workers.len() && (#[trigger] workers[i]).key == key
}

/// The worker `w` with `batch` at the end of its queue.
pub open spec fn with_batch(w: WorkerView, batch: BatchView) -> WorkerView {
    WorkerView { key: w.key, inbox: w.inbox.push(batch), exited: w.exited }
}

/// The worker `w` without the oldest batch of its queue.
pub open spec fn without_first(w: WorkerView) -> WorkerView {
    WorkerView { key: w.key, inbox: w.inbox.drop_first(), exited: w.exited }
}

/// The worker `w` after it has ended.
pub open spec fn ended(w: WorkerView) -> WorkerView {
    WorkerView { key: w.key, inbox: w.inbox, exited: true }
}

/// Whether no queue holds more batches than `capacity`.
pub open spec fn bounded(workers: Seq<WorkerView>, capacity: nat) -> bool {
    forall|i: int| 0 <= i < workers.len() ==> (#[trigger] workers[i]).inbox.len() <= capacity
}

impl DispatcherView {
    /// Whether the dispatcher takes `batch`: it was not asked to stop, and
    /// the queue of the batch's partition has room.
    pub open spec fn accepts(self, batch: BatchView) -> bool {
        !self.stop_requested && waiting_for(self.workers, batch.key()).len() < self.capacity
    }

    /// Whether some worker that has not ended has a full queue.
    pub open spec fn is_congested(self) -> bool {
        exists|i: int|
            0 <= i < self.workers.len() && !(#[trigger] self.workers[i]).exited
                && self.workers[i].inbox.len() >= self.capacity
    }

    /// The dispatcher after it has accepted `batch`: the batch waits at the
    /// end of the queue of its partition's worker. A partition that comes up
    /// for the first time gets a worker, behind those that exist.
    pub open spec fn process(self, batch: BatchView) -> DispatcherView {
        if has_worker(self.workers, batch.key()) {
            let i = worker_of(self.workers, batch.key());
            DispatcherView {
                workers: self.workers.update(i, with_batch(self.workers[i], batch)),
                stop_requested: self.stop_requested,
                capacity: self.capacity,
            }
        } else {
            DispatcherView {
                workers: self.workers.push(
                    WorkerView { key: batch.key(), inbox: seq![batch], exited: false },
                ),
                stop_requested: self.stop_requested,
                capacity: self.capacity,
            }
        }
    }

    /// The dispatcher after worker `i` took the oldest batch of its queue.
    pub open spec fn take(self, i: int) -> DispatcherView {
        DispatcherView {
            workers: self.workers.update(i, without_first(self.workers[i])),
            stop_requested: self.stop_requested,
            capacity: self.capacity,
        }
    }

    /// The dispatcher after worker `i` has ended.
    pub open spec fn exit(self, i: int) -> DispatcherView {
        DispatcherView {
            workers: self.workers.update(i, ended(self.workers[i])),
            stop_requested: self.stop_requested,
            capacity: self.capacity,
        }
    }

    /// The dispatcher after the handler of worker `i` gave up: the worker has
    /// ended and the dispatcher is asked to stop.
    pub open spec fn abort(self, i: int) -> DispatcherView {
        self.exit(i).stop()
    }

    /// The dispatcher after it was asked to stop.
    pub open spec fn stop(self) -> DispatcherView {
        DispatcherView { workers: self.workers, stop_requested: true, capacity: self.capacity }
    }

    /// A dispatcher runs until it was asked to stop and every worker has
    /// ended.
    pub open spec fn is_running(self) -> bool {
        !self.stop_requested || exists|i: int|
            0 <= i < self.workers.len() && !(#[trigger] self.workers[i]).exited
    }
}

/// The views of a queue of batches.
pub open spec fn batch_views(queue: Seq<Batch>) -> Seq<BatchView> {
    queue.map_values(|b: Batch| b@)
}

/// The queue of one worker, with the partition that the worker serves.
#[derive(Debug)]
pub struct WorkerInbox {
    pub partition: Vec<u8>,
    pub event_type: Vec<u8>,
    pub queue: VecDeque<Batch>,
    pub exited: bool,
}

impl View for WorkerInbox {
    type V = WorkerView;

    open spec fn view(&self) -> WorkerView {
        WorkerView {
            key: (self.partition@, self.event_type@),
            inbox: batch_views(self.queue@),
            exited: self.exited,
        }
    }
}

/// The views of a list of workers.
pub open spec fn worker_views(workers: Seq<WorkerInbox>) -> Seq<WorkerView> {
    workers.map_values(|w: WorkerInbox| w@)
}

/// A worker that the dispatcher has just made: its place among the workers
/// and the handler that the factory made for its partition.
pub struct NewWorker<H> {
    pub index: usize,
    pub handler: H,
}

/// What a worker finds when it turns to its queue.
#[derive(Debug)]
pub enum WorkerInput {
    /// The oldest batch that waited.
    Next(Batch),
    /// Nothing waits. More may come.
    Idle,
    /// Nothing waits and nothing will come: the worker ends.
    Exit,
}

/// The text with which a stopped dispatcher refuses a batch.
pub open spec fn spec_refusal() -> Seq<char> {
    "Could not process batch: the dispatcher was stopped"@
}

/// The text with which a dispatcher refuses a batch for whose partition too
/// many batches wait already.
pub open spec fn spec_congestion() -> Seq<char> {
    "Could not process batch: the queue of its partition is full"@
}

/// Whether `handler` is what `factory` made for the partition `key`.
pub open spec fn made_by<HF: HandlerFactory>(
    factory: &HF,
    key: (Seq<u8>, Seq<u8>),
    handler: HF::Handler,
) -> bool {
    exists|partition: &[u8], event_type: &[u8]|
        partition@ == key.0 && event_type@ == key.1 && #[trigger] call_ensures(
            HF::create_handler,
            (factory, partition, event_type),
            handler,
        )
}

/// Routes batches to the workers of their partitions.
pub struct Dispatcher<HF: HandlerFactory> {
    handler_factory: HF,
    workers: Vec<WorkerInbox>,
    stop_requested: bool,
    capacity: usize,
}

impl<HF: HandlerFactory> View for Dispatcher<HF> {
    type V = DispatcherView;

    closed spec fn view(&self) -> DispatcherView {
        DispatcherView {
            workers: worker_views(self.workers@),
            stop_requested: self.stop_requested,
            capacity: self.capacity as nat,
        }
    }
}

impl<HF: HandlerFactory> Dispatcher<HF> {
    /// The factory that makes the handlers of new workers.
    pub closed spec fn spec_factory(self) -> HF {
        self.handler_factory
    }

    #[verifier::type_invariant]
    spec fn well_formed(self) -> bool {
        &&& distinct_workers(worker_views(self.workers@))
        &&& bounded(worker_views(self.workers@), self.capacity as nat)
    }

    /// A dispatcher without workers that was not asked to stop. At most
    /// `capacity` batches will wait for any one worker.
    pub fn start(handler_factory: HF, capacity: usize) -> (dispatcher: Dispatcher<HF>)
        ensures
            dispatcher@ == (DispatcherView {
                workers: Seq::<WorkerView>::empty(),
                stop_requested: false,
                capacity: capacity as nat,
            }),
            dispatcher.spec_factory() == handler_factory,
    {
        let workers: Vec<WorkerInbox> = Vec::new();
        proof {
            assert(worker_views(workers@) =~= Seq::<WorkerView>::empty());
        }
        Dispatcher { handler_factory, workers, stop_requested: false, capacity }
    }

    /// How many workers there are.
    pub fn worker_count(&self) -> (n: usize)
        ensures
            n == self@.workers.len(),
            distinct_workers(self@.workers),
            bounded(self@.workers, self@.capacity),
    {
        proof {
            use_type_invariant(self);
        }
        self.workers.len()
    }

    /// The place of the worker that serves the partition of `batch`.
    fn find(&self, batch: &Batch) -> (found: Option<usize>)
        ensures
            match found {
                Some(i) => i < self@.workers.len() && self@.workers[i as int].key == batch@.key()
                    && has_worker(self@.workers, batch@.key()) && worker_of(
                    self@.workers,
                    batch@.key(),
                ) == i,
                None => !has_worker(self@.workers, batch@.key()),
            },
    {
        proof {
            use_type_invariant(self);
        }
        let partition = batch.batch_line.partition();
        let event_type = batch.batch_line.event_type();
        let mut i: usize = 0;
        while i < self.workers.len()
            invariant
                i <= self.workers@.len(),
                distinct_workers(self@.workers),
                self@.workers == worker_views(self.workers@),
                partition@ == batch@.key().0,
                event_type@ == batch@.key().1,
                forall|j: int| 0 <= j < i ==> (#[trigger] self@.workers[j]).key != batch@.key(),
            decreases self.workers@.len() - i,
        {
            if same_bytes(self.workers[i].partition.as_slice(), partition) && same_bytes(
                self.workers[i].event_type.as_slice(),
                event_type,
            ) {
                proof {
                    assert(self@.workers[i as int].key == batch@.key());
                    let p = worker_of(self@.workers, batch@.key());
                    assert(self@.workers[p].key == batch@.key());
                }
                return Some(i);
            }
            proof {
                assert(self@.workers[i as int].key != batch@.key());
            }
            i += 1;
        }
        None
    }

    /// Hands `batch` to the worker of its partition, behind the batches that
    /// wait there. For a partition that comes up for the first time a worker
    /// is made, with a handler from the factory; the caller gets both and
    /// runs the worker. A dispatcher that was asked to stop refuses the
    /// batch, and so does one in which the queue of the batch's partition is
    /// full.
    pub fn process(&mut self, batch: Batch) -> (r: Result<Option<NewWorker<HF::Handler>>, String>)
        ensures
            match r {
                Ok(made) => {
                    &&& old(self)@.accepts(batch@)
                    &&& final(self)@ == old(self)@.process(batch@)
                    &&& made.is_some() == !has_worker(old(self)@.workers, batch@.key())
                    &&& made.is_some() ==> made.unwrap().index == old(self)@.workers.len()
                        && made_by(
                        &old(self).spec_factory(),
                        batch@.key(),
                        made.unwrap().handler,
                    )
                },
                Err(message) => {
                    &&& !old(self)@.accepts(batch@)
                    &&& final(self)@ == old(self)@
                    &&& message@ == if old(self)@.stop_requested {
                        spec_refusal()
                    } else {
                        spec_congestion()
                    }
                },
            },
            final(self).spec_factory() == old(self).spec_factory(),
            distinct_workers(final(self)@.workers),
            bounded(final(self)@.workers, final(self)@.capacity),
    {
        proof {
            use_type_invariant(&*self);
        }
        if self.stop_requested {
            return Err(
                String::from_str("Could not process batch: the dispatcher was stopped"),
            );
        }
        let ghost before = self@.workers;
        let ghost incoming = batch@;
        let found = self.find(&batch);
        let room = match found {
            Some(i) => self.workers[i].queue.len() < self.capacity,
            None => 0 < self.capacity,
        };
        proof {
            match found {
                Some(i) => {
                    assert(before[i as int] == self.workers@[i as int]@);
                    assert(before[i as int].inbox.len() == self.workers@[i as int].queue@.len());
                },
                None => {},
            }
        }
        if !room {
            return Err(
                String::from_str("Could not process batch: the queue of its partition is full"),
            );
        }
        let capacity = self.capacity;
        let mut workers: Vec<WorkerInbox> = Vec::new();
        proof {
            assert(worker_views(workers@) =~= Seq::<WorkerView>::empty());
        }
        core::mem::swap(&mut self.workers, &mut workers);
        let made = match found {
            Some(i) => {
                let mut worker = workers.remove(i);
                let ghost was = worker@;
                worker.queue.push_back(batch);
                proof {
                    assert(batch_views(worker.queue@) =~= was.inbox.push(incoming));
                    assert(worker@ == with_batch(before[i as int], incoming));
                }
                workers.insert(i, worker);
                proof {
                    let after = before.update(i as int, with_batch(before[i as int], incoming));
                    assert(worker_views(workers@) =~= after);
                    assert forall|a: int, b: int| 0 <= a < b < after.len() implies (
                    #[trigger] after[a]).key != (#[trigger] after[b]).key by {
                        assert(before[a].key != before[b].key);
                    }
                    assert forall|a: int| 0 <= a < after.len() implies (
                    #[trigger] after[a]).inbox.len() <= capacity by {
                        if a != i {
                            assert(before[a].inbox.len() <= capacity);
                        }
                    }
                }
                None
            },
            None => {
                let partition = slice_to_vec(batch.batch_line.partition());
                let event_type = slice_to_vec(batch.batch_line.event_type());
                let handler = self.handler_factory.create_handler(
                    partition.as_slice(),
                    event_type.as_slice(),
                );
                let mut queue: VecDeque<Batch> = VecDeque::new();
                queue.push_back(batch);
                let worker = WorkerInbox { partition, event_type, queue, exited: false };
                let index = workers.len();
                proof {
                    assert(batch_views(worker.queue@) =~= seq![incoming]);
                    let after = before.push(worker@);
                    assert(worker_views(workers@.push(worker)) =~= after);
                    assert forall|a: int, b: int| 0 <= a < b < after.len() implies (
                    #[trigger] after[a]).key != (#[trigger] after[b]).key by {
                        if b < before.len() {
                            assert(before[a].key != before[b].key);
                        } else {
                            assert(before[a].key != incoming.key());
                        }
                    }
                    assert forall|a: int| 0 <= a < after.len() implies (
                    #[trigger] after[a]).inbox.len() <= capacity by {
                        if a < before.len() {
                            assert(before[a].inbox.len() <= capacity);
                        }
                    }
                }
                workers.push(worker);
                Some(NewWorker { index, handler })
            },
        };
        core::mem::swap(&mut self.workers, &mut workers);
        Ok(made)
    }

    /// What worker `worker` finds when it turns to its queue. A worker that
    /// has not ended gets the oldest batch that waits for it, also when the
    /// dispatcher was asked to stop: the queue is drained first. With
    /// nothing waiting, the worker ends if the dispatcher was asked to stop,
    /// and idles if not. A worker that has ended, or that there is not, gets
    /// nothing.
    pub fn take(&mut self, worker: usize) -> (input: WorkerInput)
        ensures
            worker >= old(self)@.workers.len() ==> input is Exit && final(self)@ == old(self)@,
            worker < old(self)@.workers.len() ==> ({
                let w = old(self)@.workers[worker as int];
                if w.exited {
                    input is Exit && final(self)@ == old(self)@
                } else if w.inbox.len() > 0 {
                    &&& input matches WorkerInput::Next(batch) && batch@ == w.inbox[0]
                    &&& final(self)@ == old(self)@.take(worker as int)
                } else if old(self)@.stop_requested {
                    input is Exit && final(self)@ == old(self)@.exit(worker as int)
                } else {
                    input is Idle && final(self)@ == old(self)@
                }
            }),
            final(self).spec_factory() == old(self).spec_factory(),
            distinct_workers(final(self)@.workers),
    {
        proof {
            use_type_invariant(&*self);
        }
        if worker >= self.workers.len() || self.workers[worker].exited {
            return WorkerInput::Exit;
        }
        let ghost before = self@.workers;
        let stop_requested = self.stop_requested;
        let mut workers: Vec<WorkerInbox> = Vec::new();
        proof {
            assert(worker_views(workers@) =~= Seq::<WorkerView>::empty());
        }
        core::mem::swap(&mut self.workers, &mut workers);
        let mut inbox = workers.remove(worker);
        let ghost was = inbox@;
        let input = match inbox.queue.pop_front() {
            Some(batch) => {
                proof {
                    assert(batch_views(inbox.queue@) =~= was.inbox.drop_first());
                    assert(was.inbox[0] == batch@);
                }
                WorkerInput::Next(batch)
            },
            None => {
                proof {
                    assert(batch_views(inbox.queue@) =~= was.inbox);
                    assert(was.inbox.len() == 0);
                }
                if stop_requested {
                    inbox.exited = true;
                    WorkerInput::Exit
                } else {
                    WorkerInput::Idle
                }
            },
        };
        proof {
            assert(inbox@.key == was.key);
            assert(was == before[worker as int]);
        }
        workers.insert(worker, inbox);
        proof {
            let after = before.update(worker as int, inbox@);
            assert(worker_views(workers@) =~= after);
            assert forall|a: int, b: int| 0 <= a < b < after.len() implies (#[trigger] after[a]).key
                != (#[trigger] after[b]).key by {
                assert(before[a].key != before[b].key);
            }
            if input is Idle {
                assert(after =~= before);
            }
        }
        core::mem::swap(&mut self.workers, &mut workers);
        input
    }

    /// Takes note that the handler of worker `worker` gave up: the worker
    /// has ended, whatever waits for it stays unhandled, and the dispatcher
    /// is asked to stop.
    pub fn abort(&mut self, worker: usize)
        ensures
            worker < old(self)@.workers.len() ==> final(self)@ == old(self)@.abort(worker as int),
            worker >= old(self)@.workers.len() ==> final(self)@ == old(self)@.stop(),
            final(self).spec_factory() == old(self).spec_factory(),
            distinct_workers(final(self)@.workers),
    {
        proof {
            use_type_invariant(&*self);
        }
        self.stop_requested = true;
        if worker < self.workers.len() {
            let ghost before = self@.workers;
            let mut workers: Vec<WorkerInbox> = Vec::new();
            proof {
                assert(worker_views(workers@) =~= Seq::<WorkerView>::empty());
            }
            core::mem::swap(&mut self.workers, &mut workers);
            let mut inbox = workers.remove(worker);
            inbox.exited = true;
            workers.insert(worker, inbox);
            proof {
                let after = before.update(worker as int, ended(before[worker as int]));
                assert(worker_views(workers@) =~= after);
                assert forall|a: int, b: int| 0 <= a < b < after.len() implies (
                #[trigger] after[a]).key != (#[trigger] after[b]).key by {
                    assert(before[a].key != before[b].key);
                }
            }
            core::mem::swap(&mut self.workers, &mut workers);
        }
    }

    /// Asks the dispatcher to stop: it accepts no further batch, and each
    /// worker ends once its queue is empty.
    pub fn stop(&mut self)
        ensures
            final(self)@ == old(self)@.stop(),
            final(self).spec_factory() == old(self).spec_factory(),
    {
        proof {
            use_type_invariant(&*self);
        }
        self.stop_requested = true;
    }

    /// Whether some worker that has not ended has a full queue. A
    /// supervisor that rests while this holds is never refused for want of
    /// room.
    pub fn is_congested(&self) -> (r: bool)
        ensures
            r == self@.is_congested(),
    {
        let mut i: usize = 0;
        while i < self.workers.len()
            invariant
                i <= self.workers@.len(),
                self@.workers == worker_views(self.workers@),
                self@.capacity == self.capacity,
                forall|j: int|
                    0 <= j < i ==> (#[trigger] self@.workers[j]).exited || self@.workers[j].inbox.len()
                        < self.capacity,
            decreases self.workers@.len() - i,
        {
            if !self.workers[i].exited && self.workers[i].queue.len() >= self.capacity {
                proof {
                    let w = self@.workers[i as int];
                    assert(w == self.workers@[i as int]@);
                    assert(!w.exited && w.inbox.len() >= self.capacity);
                }
                return true;
            }
            proof {
                let w = self@.workers[i as int];
                assert(w == self.workers@[i as int]@);
            }
            i += 1;
        }
        false
    }

    /// `true` until the dispatcher was asked to stop and every worker has
    /// ended.
    pub fn is_running(&self) -> (r: bool)
        ensures
            r == self@.is_running(),
    {
        if !self.stop_requested {
            return true;
        }
        let mut i: usize = 0;
        while i < self.workers.len()
            invariant
                i <= self.workers@.len(),
                self@.workers == worker_views(self.workers@),
                forall|j: int| 0 <= j < i ==> (#[trigger] self@.workers[j]).exited,
            decreases self.workers@.len() - i,
        {
            if !self.workers[i].exited {
                proof {
                    assert(!self@.workers[i as int].exited);
                }
                return true;
            }
            i += 1;
        }
        false
    }
}

/// What can happen to a dispatcher.
pub enum DispatcherOp {
    /// The supervisor hands over a batch.
    Process(BatchView),
    /// The worker at this place turns to its queue.
    Take(int),
    /// The handler of the worker at this place gives up.
    Abort(int),
    /// The supervisor asks the dispatcher to stop.
    Stop,
}

/// The batches that wait for the worker of the partition `key`, oldest
/// first; none if the partition has no worker.
pub open spec fn waiting_for(workers: Seq<WorkerView>, key: (Seq<u8>, Seq<u8>)) -> Seq<BatchView> {
    if has_worker(workers, key) {
        workers[worker_of(workers, key)].inbox
    } else {
        Seq::<BatchView>::empty()
    }
}

impl DispatcherView {
    /// Whether worker `i` gets a batch when it turns to its queue.
    pub open spec fn can_take(self, i: int) -> bool {
        0 <= i < self.workers.len() && !self.workers[i].exited && self.workers[i].inbox.len() > 0
    }

    /// The dispatcher after `op`, as the operations of [`Dispatcher`]
    /// leave it.
    pub open spec fn step(self, op: DispatcherOp) -> DispatcherView {
        match op {
            DispatcherOp::Process(batch) => if self.accepts(batch) {
                self.process(batch)
            } else {
                self
            },
            DispatcherOp::Take(i) => if self.can_take(i) {
                self.take(i)
            } else if 0 <= i < self.workers.len() && !self.workers[i].exited
                && self.stop_requested {
                self.exit(i)
            } else {
                self
            },
            DispatcherOp::Abort(i) => if 0 <= i < self.workers.len() {
                self.abort(i)
            } else {
                self.stop()
            },
            DispatcherOp::Stop => self.stop(),
        }
    }

    /// The dispatcher after all of `ops`, in their order.
    pub open spec fn run(self, ops: Seq<DispatcherOp>) -> DispatcherView
        decreases ops.len(),
    {
        if ops.len() == 0 {
            self
        } else {
            self.run(ops.drop_last()).step(ops.last())
        }
    }

    /// The batches of the partition `key` that the dispatcher accepts in the
    /// course of `ops`, in the order in which they are handed over.
    pub open spec fn delivered(self, ops: Seq<DispatcherOp>, key: (Seq<u8>, Seq<u8>)) -> Seq<
        BatchView,
    >
        decreases ops.len(),
    {
        if ops.len() == 0 {
            Seq::<BatchView>::empty()
        } else {
            let before = self.delivered(ops.drop_last(), key);
            match ops.last() {
                DispatcherOp::Process(batch) => if self.run(ops.drop_last()).accepts(batch)
                    && batch.key() == key {
                    before.push(batch)
                } else {
                    before
                },
                _ => before,
            }
        }
    }

    /// The batches that the worker of the partition `key` gets in the
    /// course of `ops`, in the order in which it gets them.
    pub open spec fn handled(self, ops: Seq<DispatcherOp>, key: (Seq<u8>, Seq<u8>)) -> Seq<
        BatchView,
    >
        decreases ops.len(),
    {
        if ops.len() == 0 {
            Seq::<BatchView>::empty()
        } else {
            let before = self.handled(ops.drop_last(), key);
            let d = self.run(ops.drop_last());
            match ops.last() {
                DispatcherOp::Take(i) => if d.can_take(i) && d.workers[i].key == key {
                    before.push(d.workers[i].inbox[0])
                } else {
                    before
                },
                _ => before,
            }
        }
    }
}

/// Where a worker is replaced by one that serves the same partition, the
/// partitions keep their workers and only that worker's queue may differ.
pub proof fn lemma_replace_worker(
    workers: Seq<WorkerView>,
    i: int,
    worker: WorkerView,
    key: (Seq<u8>, Seq<u8>),
)
    requires
        distinct_workers(workers),
        0 <= i < workers.len(),
        worker.key == workers[i].key,
    ensures
        distinct_workers(workers.update(i, worker)),
        waiting_for(workers.update(i, worker), key) == if workers[i].key == key {
            worker.inbox
        } else {
            waiting_for(workers, key)
        },
{
    let after = workers.update(i, worker);
    assert forall|a: int, b: int| 0 <= a < b < after.len() implies (#[trigger] after[a]).key != (
    #[trigger] after[b]).key by {
        assert(workers[a].key != workers[b].key);
    }
    if has_worker(workers, key) {
        let p = worker_of(workers, key);
        assert(after[p].key == key);
        assert(has_worker(after, key));
        let q = worker_of(after, key);
        if p < q {
            assert(after[p].key != after[q].key);
        } else if q < p {
            assert(after[q].key != after[p].key);
        }
        if workers[i].key == key {
            if p < i {
                assert(workers[p].key != workers[i].key);
            } else if i < p {
                assert(workers[i].key != workers[p].key);
            }
        } else {
            assert(p != i);
        }
    } else {
        if has_worker(after, key) {
            let q = worker_of(after, key);
            assert(workers[q].key == key);
        }
        assert(workers[i].key != key);
    }
}

/// Accepting a batch puts it behind the batches that wait for its partition
/// and leaves the queues of all other partitions alone.
pub proof fn lemma_process_queues(d: DispatcherView, batch: BatchView, key: (Seq<u8>, Seq<u8>))
    requires
        distinct_workers(d.workers),
    ensures
        distinct_workers(d.process(batch).workers),
        waiting_for(d.process(batch).workers, key) == if batch.key() == key {
            waiting_for(d.workers, key).push(batch)
        } else {
            waiting_for(d.workers, key)
        },
{
    let after = d.process(batch).workers;
    if has_worker(d.workers, batch.key()) {
        let i = worker_of(d.workers, batch.key());
        lemma_replace_worker(d.workers, i, with_batch(d.workers[i], batch), key);
    } else {
        let n = d.workers.len() as int;
        assert forall|a: int, b: int| 0 <= a < b < after.len() implies (#[trigger] after[a]).key != (
        #[trigger] after[b]).key by {
            if b < n {
                assert(d.workers[a].key != d.workers[b].key);
            } else {
                assert(d.workers[a].key != batch.key());
            }
        }
        if batch.key() == key {
            assert(after[n].key == key);
            let q = worker_of(after, key);
            if q < n {
                assert(d.workers[q].key == key);
            }
            assert(after[n].inbox =~= Seq::<BatchView>::empty().push(batch));
        } else if has_worker(d.workers, key) {
            let p = worker_of(d.workers, key);
            assert(after[p].key == key);
            let q = worker_of(after, key);
            if p < q {
                assert(after[p].key != after[q].key);
            } else if q < p {
                assert(after[q].key != after[p].key);
            }
        } else {
            if has_worker(after, key) {
                let q = worker_of(after, key);
                if q < n {
                    assert(d.workers[q].key == key);
                }
            }
        }
    }
}

/// The batches of a partition are handled in the order in which the
/// dispatcher accepted them, none left out and none twice: at every moment,
/// what waited at the start followed by what was accepted since is what the
/// worker has got so far followed by what still waits for it.
pub proof fn lemma_partition_order(
    start: DispatcherView,
    ops: Seq<DispatcherOp>,
    key: (Seq<u8>, Seq<u8>),
)
    requires
        distinct_workers(start.workers),
    ensures
        distinct_workers(start.run(ops).workers),
        waiting_for(start.workers, key) + start.delivered(ops, key) == start.handled(ops, key)
            + waiting_for(start.run(ops).workers, key),
    decreases ops.len(),
{
    if ops.len() == 0 {
        assert(waiting_for(start.workers, key) + Seq::<BatchView>::empty() =~= Seq::<
            BatchView,
        >::empty() + waiting_for(start.workers, key));
    } else {
        let earlier = ops.drop_last();
        lemma_partition_order(start, earlier, key);
        let d = start.run(earlier);
        let first = waiting_for(start.workers, key);
        let got = start.handled(earlier, key);
        let came = start.delivered(earlier, key);
        let waits = waiting_for(d.workers, key);
        assert(first + came == got + waits);
        match ops.last() {
            DispatcherOp::Process(batch) => {
                if d.accepts(batch) {
                    lemma_process_queues(d, batch, key);
                    if batch.key() == key {
                        assert(first + came.push(batch) =~= (first + came).push(batch));
                        assert(got + waits.push(batch) =~= (got + waits).push(batch));
                    }
                }
            },
            DispatcherOp::Take(i) => {
                if d.can_take(i) {
                    lemma_replace_worker(d.workers, i, without_first(d.workers[i]), key);
                    if d.workers[i].key == key {
                        lemma_replace_worker(d.workers, i, d.workers[i], key);
                        assert(d.workers.update(i, d.workers[i]) =~= d.workers);
                        assert(waits == d.workers[i].inbox);
                        assert(got.push(waits[0]) + waits.drop_first() =~= got + waits);
                    }
                } else if 0 <= i < d.workers.len() && !d.workers[i].exited && d.stop_requested {
                    lemma_replace_worker(d.workers, i, ended(d.workers[i]), key);
                    lemma_replace_worker(d.workers, i, d.workers[i], key);
                    assert(d.workers.update(i, d.workers[i]) =~= d.workers);
                }
            },
            DispatcherOp::Abort(i) => {
                if 0 <= i < d.workers.len() {
                    lemma_replace_worker(d.workers, i, ended(d.workers[i]), key);
                    lemma_replace_worker(d.workers, i, d.workers[i], key);
                    assert(d.workers.update(i, d.workers[i]) =~= d.workers);
                }
            },
            DispatcherOp::Stop => {},
        }
    }
}

/// From a dispatcher without workers on, the batches that the worker of a
/// partition has got are the first of those that were accepted for the
/// partition, in the same order.
pub proof fn lemma_handled_is_prefix_of_delivered(
    capacity: nat,
    ops: Seq<DispatcherOp>,
    key: (Seq<u8>, Seq<u8>),
)
    ensures
        ({
            let start = DispatcherView {
                workers: Seq::<WorkerView>::empty(),
                stop_requested: false,
                capacity,
            };
            &&& start.handled(ops, key).len() <= start.delivered(ops, key).len()
            &&& start.handled(ops, key) == start.delivered(ops, key).subrange(
                0,
                start.handled(ops, key).len() as int,
            )
        }),
{
    let start = DispatcherView {
        workers: Seq::<WorkerView>::empty(),
        stop_requested: false,
        capacity,
    };
    lemma_partition_order(start, ops, key);
    let got = start.handled(ops, key);
    let came = start.delivered(ops, key);
    let waits = waiting_for(start.run(ops).workers, key);
    assert(!has_worker(start.workers, key));
    assert(Seq::<BatchView>::empty() + came =~= came);
    assert(came == got + waits);
    assert(got =~= came.subrange(0, got.len() as int));
}

/// No queue ever holds more batches than the dispatcher allows, whatever
/// happens to it: a batch that would not fit is not accepted.
pub proof fn lemma_queues_stay_bounded(start: DispatcherView, ops: Seq<DispatcherOp>)
    requires
        distinct_workers(start.workers),
        bounded(start.workers, start.capacity),
    ensures
        start.run(ops).capacity == start.capacity,
        distinct_workers(start.run(ops).workers),
        bounded(start.run(ops).workers, start.capacity),
    decreases ops.len(),
{
    if ops.len() > 0 {
        let earlier = ops.drop_last();
        lemma_queues_stay_bounded(start, earlier);
        let d = start.run(earlier);
        let after = d.step(ops.last());
        match ops.last() {
            DispatcherOp::Process(batch) => {
                if d.accepts(batch) {
                    lemma_process_queues(d, batch, batch.key());
                    if has_worker(d.workers, batch.key()) {
                        let i = worker_of(d.workers, batch.key());
                        assert forall|a: int| 0 <= a < after.workers.len() implies (
                        #[trigger] after.workers[a]).inbox.len() <= start.capacity by {
                            if a != i {
                                assert(d.workers[a].inbox.len() <= start.capacity);
                            }
                        }
                    } else {
                        assert forall|a: int| 0 <= a < after.workers.len() implies (
                        #[trigger] after.workers[a]).inbox.len() <= start.capacity by {
                            if a < d.workers.len() {
                                assert(d.workers[a].inbox.len() <= start.capacity);
                            }
                        }
                    }
                }
            },
            DispatcherOp::Take(i) => {
                if d.can_take(i) {
                    lemma_replace_worker(d.workers, i, without_first(d.workers[i]), d.workers[i].key);
                    assert forall|a: int| 0 <= a < after.workers.len() implies (
                    #[trigger] after.workers[a]).inbox.len() <= start.capacity by {
                        assert(d.workers[a].inbox.len() <= start.capacity);
                    }
                } else if 0 <= i < d.workers.len() && !d.workers[i].exited && d.stop_requested {
                    lemma_replace_worker(d.workers, i, ended(d.workers[i]), d.workers[i].key);
                    assert forall|a: int| 0 <= a < after.workers.len() implies (
                    #[trigger] after.workers[a]).inbox.len() <= start.capacity by {
                        assert(d.workers[a].inbox.len() <= start.capacity);
                    }
                }
            },
            DispatcherOp::Abort(i) => {
                if 0 <= i < d.workers.len() {
                    lemma_replace_worker(d.workers, i, ended(d.workers[i]), d.workers[i].key);
                    assert forall|a: int| 0 <= a < after.workers.len() implies (
                    #[trigger] after.workers[a]).inbox.len() <= start.capacity by {
                        assert(d.workers[a].inbox.len() <= start.capacity);
                    }
                }
            },
            DispatcherOp::Stop => {},
        }
    }
}

} // verus!
