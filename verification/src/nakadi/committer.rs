//! The commit coordinator: which cursors wait for a commit, and when they
//! are sent.

use std::collections::VecDeque;
use vstd::math::min;
use vstd::prelude::*;
use vstd::slice::slice_to_vec;
use crate::nakadi::batch::{Batch, BatchView};
use crate::nakadi::client::{CommitError, CommitStatus, StreamingClient};
use crate::nakadi::lifecycle::Lifecycle;
use crate::nakadi::model::{FlowId, StreamId, SubscriptionId};
use crate::nakadi::CommitStrategy;

verus! {

/// The moment from which a cursor acknowledged at `now` is due, for a batch
/// that must be committed by `commit_deadline`. Times are milliseconds.
pub open spec fn spec_fire_at(strategy: CommitStrategy, now: u64, commit_deadline: u64) -> int {
    match strategy {
        CommitStrategy::AllBatches => now as int,
        CommitStrategy::EveryNBatches(_) => now as int,
        CommitStrategy::MaxAge => commit_deadline as int,
        CommitStrategy::EveryNSeconds(n) => min(now + n * 1000, commit_deadline as int),
    }
}

/// What a [`CommitEntry`] holds, as plain values.
pub struct CommitEntryView {
    pub batch: BatchView,
    pub fire_at: u64,
}

/// The cursor that waits for a partition: the batch handled last, and the
/// moment from which its commit is due.
#[derive(Debug)]
pub struct CommitEntry {
    pub fire_at: u64,
    pub batch: Batch,
}

impl View for CommitEntry {
    type V = CommitEntryView;

    open spec fn view(&self) -> CommitEntryView {
        CommitEntryView { batch: self.batch@, fire_at: self.fire_at }
    }
}

impl CommitEntry {
    /// The entry for a partition that had no cursor waiting, made at `now`.
    pub fn new(batch: Batch, strategy: CommitStrategy, now: u64) -> (entry: CommitEntry)
        ensures
            entry.batch == batch,
            entry.fire_at == spec_fire_at(strategy, now, batch.commit_deadline),
    {
        let fire_at = match strategy {
            CommitStrategy::AllBatches => now,
            CommitStrategy::EveryNBatches(_) => now,
            CommitStrategy::MaxAge => batch.commit_deadline,
            CommitStrategy::EveryNSeconds(n) => {
                let wait: u64 = (n as u64) * 1000;
                if now >= batch.commit_deadline || batch.commit_deadline - now < wait {
                    batch.commit_deadline
                } else {
                    now + wait
                }
            },
        };
        CommitEntry { fire_at, batch }
    }

    /// Puts a newer batch of the same partition in place of the one that
    /// waits. The moment from which the commit is due stays.
    pub fn update(&mut self, next_batch: Batch)
        ensures
            final(self).batch == next_batch,
            final(self).fire_at == old(self).fire_at,
    {
        self.batch = next_batch;
    }

    /// Whether the commit is due at `now`.
    pub fn is_due(&self, now: u64) -> (due: bool)
        ensures
            due == (self.fire_at <= now),
    {
        self.fire_at <= now
    }
}

/// Whether no two entries belong to the same partition.
pub open spec fn distinct_keys(entries: Seq<CommitEntryView>) -> bool {
    forall|i: int, j: int|
        0 <= i < j < entries.len() ==> (#[trigger] entries[i]).batch.key() != (
        #[trigger] entries[j]).batch.key()
}

/// Whether some entry belongs to the partition `key`.
pub open spec fn has_key(entries: Seq<CommitEntryView>, key: (Seq<u8>, Seq<u8>)) -> bool {
    exists|i: int| 0 <= i < entries.len() && (#[trigger] entries[i]).batch.key() == key
}

/// The place of an entry that belongs to the partition `key`.
pub open spec fn position_of(entries: Seq<CommitEntryView>, key: (Seq<u8>, Seq<u8>)) -> int {
    choose|i: int| 0 <= i < entries.len() && (#[trigger] entries[i]).batch.key() == key
}

/// The entries after the acknowledgement of `batch` at `now`: a partition
/// that has an entry keeps its place and its due time and gets the new
/// batch; a partition without one gets a new entry at the end.
pub open spec fn spec_record(
    entries: Seq<CommitEntryView>,
    batch: BatchView,
    strategy: CommitStrategy,
    now: u64,
) -> Seq<CommitEntryView> {
    if has_key(entries, batch.key()) {
        let i = position_of(entries, batch.key());
        entries.update(i, CommitEntryView { batch, fire_at: entries[i].fire_at })
    } else {
        entries.push(
            CommitEntryView {
                batch,
                fire_at: spec_fire_at(strategy, now, batch.commit_deadline) as u64,
            },
        )
    }
}

/// Whether an entry of a registry with `count` entries is due at `now`: its
/// time has come, or the strategy commits every so many batches and that
/// many partitions have a cursor waiting.
pub open spec fn spec_is_due(
    entry: CommitEntryView,
    strategy: CommitStrategy,
    now: u64,
    count: nat,
) -> bool {
    entry.fire_at <= now || match strategy {
        CommitStrategy::EveryNBatches(n) => count >= n,
        _ => false,
    }
}

/// Those of `entries` that are due (`due` is `true`) or not yet due (`due`
/// is `false`) at `now`, in their order, in a registry of `count` entries.
pub open spec fn spec_select(
    entries: Seq<CommitEntryView>,
    strategy: CommitStrategy,
    now: u64,
    count: nat,
    due: bool,
) -> Seq<CommitEntryView>
    decreases entries.len(),
{
    if entries.len() == 0 {
        Seq::<CommitEntryView>::empty()
    } else {
        let before = spec_select(entries.drop_last(), strategy, now, count, due);
        if spec_is_due(entries.last(), strategy, now, count) == due {
            before.push(entries.last())
        } else {
            before
        }
    }
}

/// The entries that are due at `now`, in their order.
pub open spec fn spec_due(entries: Seq<CommitEntryView>, strategy: CommitStrategy, now: u64) -> Seq<
    CommitEntryView,
> {
    spec_select(entries, strategy, now, entries.len(), true)
}

/// The entries that are not yet due at `now`, in their order.
pub open spec fn spec_not_due(
    entries: Seq<CommitEntryView>,
    strategy: CommitStrategy,
    now: u64,
) -> Seq<CommitEntryView> {
    spec_select(entries, strategy, now, entries.len(), false)
}

/// The cursors of `entries`, one for each, in their order.
pub open spec fn spec_cursors(entries: Seq<CommitEntryView>) -> Seq<Seq<u8>> {
    entries.map_values(|e: CommitEntryView| e.batch.cursor())
}

/// The views of a list of entries.
pub open spec fn entry_views(entries: Seq<CommitEntry>) -> Seq<CommitEntryView> {
    entries.map_values(|e: CommitEntry| e@)
}

/// The views of a list of byte strings.
pub open spec fn byte_views(list: Seq<Vec<u8>>) -> Seq<Seq<u8>> {
    list.map_values(|v: Vec<u8>| v@)
}

/// The cursors that wait for their commit, at most one for each partition,
/// in the order in which the partitions first came up.
#[derive(Debug)]
pub struct CommitRegistry {
    entries: Vec<CommitEntry>,
}

impl View for CommitRegistry {
    type V = Seq<CommitEntryView>;

    closed spec fn view(&self) -> Seq<CommitEntryView> {
        entry_views(self.entries@)
    }
}

impl CommitRegistry {
    #[verifier::type_invariant]
    spec fn well_formed(self) -> bool {
        distinct_keys(entry_views(self.entries@))
    }

    /// A registry in which nothing waits.
    pub fn new() -> (registry: CommitRegistry)
        ensures
            registry@ == Seq::<CommitEntryView>::empty(),
    {
        let entries: Vec<CommitEntry> = Vec::new();
        proof {
            assert(entry_views(entries@) =~= Seq::<CommitEntryView>::empty());
        }
        CommitRegistry { entries }
    }

    /// How many partitions have a cursor waiting.
    pub fn len(&self) -> (n: usize)
        ensures
            n == self@.len(),
            distinct_keys(self@),
    {
        proof {
            use_type_invariant(self);
        }
        self.entries.len()
    }

    /// Whether nothing waits.
    pub fn is_empty(&self) -> (e: bool)
        ensures
            e == (self@.len() == 0),
    {
        self.entries.len() == 0
    }

    /// The place of the entry of the partition that `batch` belongs to.
    fn find(&self, batch: &Batch) -> (found: Option<usize>)
        ensures
            match found {
                Some(i) => i < self@.len() && self@[i as int].batch.key() == batch@.key()
                    && has_key(self@, batch@.key()) && position_of(self@, batch@.key()) == i,
                None => !has_key(self@, batch@.key()),
            },
    {
        proof {
            use_type_invariant(self);
        }
        let mut i: usize = 0;
        while i < self.entries.len()
            invariant
                i <= self.entries@.len(),
                distinct_keys(self@),
                self@ == entry_views(self.entries@),
                forall|j: int| 0 <= j < i ==> (#[trigger] self@[j]).batch.key() != batch@.key(),
            decreases self.entries@.len() - i,
        {
            if self.entries[i].batch.same_key(batch) {
                proof {
                    assert(self@[i as int].batch.key() == batch@.key());
                    let p = position_of(self@, batch@.key());
                    assert(self@[p].batch.key() == batch@.key());
                }
                return Some(i);
            }
            i += 1;
        }
        None
    }

    /// Takes note that `batch` was handled at `now`. If a cursor of its
    /// partition waits already, the batch takes its place and inherits its
    /// due time; else the partition gets an entry of its own.
    pub fn record(&mut self, batch: Batch, strategy: CommitStrategy, now: u64)
        ensures
            final(self)@ == spec_record(old(self)@, batch@, strategy, now),
            distinct_keys(final(self)@),
    {
        proof {
            use_type_invariant(&*self);
        }
        let ghost before = self@;
        let ghost incoming = batch@;
        let found = self.find(&batch);
        let mut entries: Vec<CommitEntry> = Vec::new();
        proof {
            assert(entry_views(entries@) =~= Seq::<CommitEntryView>::empty());
        }
        core::mem::swap(&mut self.entries, &mut entries);
        match found {
            Some(i) => {
                let mut entry = entries.remove(i);
                entry.update(batch);
                entries.insert(i, entry);
                proof {
                    let after = before.update(
                        i as int,
                        CommitEntryView { batch: incoming, fire_at: before[i as int].fire_at },
                    );
                    assert(entry_views(entries@) =~= after);
                    assert forall|a: int, b: int| 0 <= a < b < after.len() implies (
                    #[trigger] after[a]).batch.key() != (#[trigger] after[b]).batch.key() by {
                        assert(before[a].batch.key() != before[b].batch.key());
                    }
                }
            },
            None => {
                let entry = CommitEntry::new(batch, strategy, now);
                proof {
                    let after = before.push(entry@);
                    assert(entry_views(entries@.push(entry)) =~= after);
                    assert forall|a: int, b: int| 0 <= a < b < after.len() implies (
                    #[trigger] after[a]).batch.key() != (#[trigger] after[b]).batch.key() by {
                        if b < before.len() {
                            assert(before[a].batch.key() != before[b].batch.key());
                        } else {
                            assert(before[a].batch.key() != incoming.key());
                        }
                    }
                }
                entries.push(entry);
            },
        }
        core::mem::swap(&mut self.entries, &mut entries);
    }

    /// The cursors of all entries, in the registry's order.
    pub fn cursors(&self) -> (cursors: Vec<Vec<u8>>)
        ensures
            byte_views(cursors@) == spec_cursors(self@),
            cursors@.len() == self@.len(),
    {
        let mut cursors: Vec<Vec<u8>> = Vec::new();
        let mut i: usize = 0;
        proof {
            assert(byte_views(cursors@) =~= spec_cursors(self@.take(0)));
        }
        while i < self.entries.len()
            invariant
                i <= self.entries@.len(),
                self@ == entry_views(self.entries@),
                byte_views(cursors@) == spec_cursors(self@.take(i as int)),
            decreases self.entries@.len() - i,
        {
            let cursor = slice_to_vec(self.entries[i].batch.batch_line.cursor());
            proof {
                assert(self@[i as int] == self.entries@[i as int]@);
                assert(cursor@ == self@[i as int].batch.cursor());
                assert(self@.take(i as int + 1) =~= self@.take(i as int).push(self@[i as int]));
                assert(byte_views(cursors@.push(cursor)) =~= byte_views(cursors@).push(cursor@));
                assert(spec_cursors(self@.take(i as int).push(self@[i as int])) =~= spec_cursors(
                    self@.take(i as int),
                ).push(self@[i as int].batch.cursor()));
            }
            cursors.push(cursor);
            i += 1;
        }
        proof {
            assert(self@.take(i as int) =~= self@);
            assert(byte_views(cursors@).len() == cursors@.len());
        }
        cursors
    }

    /// The cursors of the entries that are due at `now`, in the registry's
    /// order.
    pub fn due_cursors(&self, strategy: CommitStrategy, now: u64) -> (cursors: Vec<Vec<u8>>)
        ensures
            byte_views(cursors@) == spec_cursors(spec_due(self@, strategy, now)),
            cursors@.len() == spec_due(self@, strategy, now).len(),
    {
        let count = self.entries.len();
        let mut cursors: Vec<Vec<u8>> = Vec::new();
        let mut i: usize = 0;
        proof {
            assert(byte_views(cursors@) =~= spec_cursors(
                spec_select(self@.take(0), strategy, now, count as nat, true),
            ));
        }
        while i < self.entries.len()
            invariant
                i <= self.entries@.len(),
                count == self.entries@.len(),
                self@ == entry_views(self.entries@),
                byte_views(cursors@) == spec_cursors(
                    spec_select(self@.take(i as int), strategy, now, count as nat, true),
                ),
            decreases self.entries@.len() - i,
        {
            let ghost chosen = spec_select(self@.take(i as int), strategy, now, count as nat, true);
            proof {
                assert(self@.take(i as int + 1).drop_last() =~= self@.take(i as int));
                assert(self@.take(i as int + 1).last() == self@[i as int]);
            }
            if entry_is_due(&self.entries[i], strategy, now, count) {
                let cursor = slice_to_vec(self.entries[i].batch.batch_line.cursor());
                proof {
                    assert(self@[i as int] == self.entries@[i as int]@);
                    assert(cursor@ == self@[i as int].batch.cursor());
                    assert(byte_views(cursors@.push(cursor)) =~= byte_views(cursors@).push(
                        cursor@,
                    ));
                    assert(spec_cursors(chosen.push(self@[i as int])) =~= spec_cursors(
                        chosen,
                    ).push(self@[i as int].batch.cursor()));
                }
                cursors.push(cursor);
            }
            i += 1;
        }
        proof {
            assert(self@.take(i as int) =~= self@);
            assert(byte_views(cursors@).len() == cursors@.len());
        }
        cursors
    }

    /// Takes out the entries that are due at `now`. The others keep their
    /// order.
    pub fn remove_due(&mut self, strategy: CommitStrategy, now: u64)
        ensures
            final(self)@ == spec_not_due(old(self)@, strategy, now),
            distinct_keys(final(self)@),
    {
        proof {
            use_type_invariant(&*self);
        }
        let ghost before = self@;
        let mut entries: Vec<CommitEntry> = Vec::new();
        proof {
            assert(entry_views(entries@) =~= Seq::<CommitEntryView>::empty());
        }
        core::mem::swap(&mut self.entries, &mut entries);
        let count = entries.len();
        let mut i: usize = 0;
        let ghost mut seen: int = 0;
        proof {
            assert(entry_views(entries@) =~= spec_select(
                before.take(0),
                strategy,
                now,
                count as nat,
                false,
            ) + before.skip(0));
        }
        while i < entries.len()
            invariant
                count == before.len(),
                0 <= seen <= before.len(),
                i <= entries@.len(),
                i == spec_select(before.take(seen), strategy, now, count as nat, false).len(),
                entry_views(entries@) == spec_select(
                    before.take(seen),
                    strategy,
                    now,
                    count as nat,
                    false,
                ) + before.skip(seen),
                distinct_keys(entry_views(entries@)),
            decreases entries@.len() - i,
        {
            let ghost kept = spec_select(before.take(seen), strategy, now, count as nat, false);
            let ghost current = entry_views(entries@);
            proof {
                assert(before.take(seen + 1).drop_last() =~= before.take(seen));
                assert(before.take(seen + 1).last() == before[seen]);
                assert(current[i as int] == before.skip(seen)[0]);
            }
            if entry_is_due(&entries[i], strategy, now, count) {
                entries.remove(i);
                proof {
                    let after = entry_views(entries@);
                    assert(after =~= current.remove(i as int));
                    assert(current.remove(i as int) =~= kept + before.skip(seen + 1));
                    assert forall|a: int, b: int| 0 <= a < b < after.len() implies (
                    #[trigger] after[a]).batch.key() != (#[trigger] after[b]).batch.key() by {
                        let a0 = if a < i { a } else { a + 1 };
                        let b0 = if b < i { b } else { b + 1 };
                        assert(after[a] == current[a0]);
                        assert(after[b] == current[b0]);
                    }
                }
            } else {
                proof {
                    assert(current =~= kept.push(before[seen]) + before.skip(seen + 1));
                }
                i += 1;
            }
            proof {
                seen = seen + 1;
            }
        }
        proof {
            assert(seen == before.len()) by {
                assert(entry_views(entries@).len() == i + before.skip(seen).len());
            }
            assert(before.take(seen) =~= before);
            assert(entry_views(entries@) =~= spec_not_due(before, strategy, now));
        }
        core::mem::swap(&mut self.entries, &mut entries);
    }

    /// Takes out all entries.
    pub fn clear(&mut self)
        ensures
            final(self)@ == Seq::<CommitEntryView>::empty(),
    {
        let mut entries: Vec<CommitEntry> = Vec::new();
        proof {
            assert(entry_views(entries@) =~= Seq::<CommitEntryView>::empty());
        }
        core::mem::swap(&mut self.entries, &mut entries);
    }
}

/// Whether `entry` is due at `now` in a registry of `count` entries.
fn entry_is_due(entry: &CommitEntry, strategy: CommitStrategy, now: u64, count: usize) -> (due:
    bool)
    ensures
        due == spec_is_due(entry@, strategy, now, count as nat),
{
    entry.is_due(now) || match strategy {
        CommitStrategy::EveryNBatches(n) => count >= n as usize,
        _ => false,
    }
}

/// Where nothing is selected as due, everything is selected as not due.
pub proof fn lemma_select_none_due(
    entries: Seq<CommitEntryView>,
    strategy: CommitStrategy,
    now: u64,
    count: nat,
)
    requires
        spec_select(entries, strategy, now, count, true).len() == 0,
    ensures
        spec_select(entries, strategy, now, count, false) == entries,
    decreases entries.len(),
{
    if entries.len() > 0 {
        lemma_select_none_due(entries.drop_last(), strategy, now, count);
        assert(entries.drop_last().push(entries.last()) =~= entries);
    }
}

/// Whether `answer` is what `client` answered to a commit of exactly
/// `cursors`, in this order, for the stream `stream_id` under `flow_id`.
pub open spec fn committed_with<C: StreamingClient>(
    client: &C,
    stream_id: StreamId,
    cursors: Seq<Seq<u8>>,
    flow_id: FlowId,
    answer: Result<CommitStatus, CommitError>,
) -> bool {
    exists|sent: Vec<Vec<u8>>|
        #[trigger] byte_views(sent@) == cursors && call_ensures(
            C::commit,
            (client, stream_id, &sent, flow_id),
            answer,
        )
}

/// The registry after a commit of the due cursors was answered: an accepted
/// commit takes the due entries out, a failed one leaves all in place.
pub open spec fn spec_after_due_flush(
    entries: Seq<CommitEntryView>,
    strategy: CommitStrategy,
    now: u64,
    accepted: bool,
) -> Seq<CommitEntryView> {
    if accepted {
        spec_not_due(entries, strategy, now)
    } else {
        entries
    }
}

/// Applies the transport's answer to a commit of the cursors due at `now`.
/// Both answers of the server count as accepted.
pub fn settle_due_flush(
    all_cursors: &mut CommitRegistry,
    strategy: CommitStrategy,
    now: u64,
    answer: Result<CommitStatus, CommitError>,
) -> (r: Result<CommitStatus, CommitError>)
    ensures
        r == answer,
        final(all_cursors)@ == spec_after_due_flush(
            old(all_cursors)@,
            strategy,
            now,
            answer.is_ok(),
        ),
        distinct_keys(final(all_cursors)@),
{
    proof {
        use_type_invariant(&*all_cursors);
    }
    match answer {
        Ok(status) => {
            all_cursors.remove_due(strategy, now);
            Ok(status)
        },
        Err(err) => Err(err),
    }
}

/// Commits the cursors that are due at `now` and takes their entries out of
/// the registry. Where nothing is due the transport is not called and the
/// result is `AllOffsetsIncreased`. Where the transport fails, its error is
/// returned and the registry stays as it was.
pub fn flush_due_cursors<C: StreamingClient>(
    all_cursors: &mut CommitRegistry,
    strategy: CommitStrategy,
    now: u64,
    stream_id: &StreamId,
    client: &C,
    flow_id: FlowId,
) -> (r: Result<CommitStatus, CommitError>)
    ensures
        final(all_cursors)@ == spec_after_due_flush(
            old(all_cursors)@,
            strategy,
            now,
            r.is_ok(),
        ),
        spec_due(old(all_cursors)@, strategy, now).len() == 0 ==> r == Ok::<
            CommitStatus,
            CommitError,
        >(CommitStatus::AllOffsetsIncreased),
        spec_due(old(all_cursors)@, strategy, now).len() > 0 ==> committed_with(
            client,
            *stream_id,
            spec_cursors(spec_due(old(all_cursors)@, strategy, now)),
            flow_id,
            r,
        ),
        distinct_keys(final(all_cursors)@),
{
    let cursors_to_commit = all_cursors.due_cursors(strategy, now);
    if cursors_to_commit.is_empty() {
        proof {
            use_type_invariant(&*all_cursors);
            lemma_select_none_due(all_cursors@, strategy, now, all_cursors@.len());
        }
        Ok(CommitStatus::AllOffsetsIncreased)
    } else {
        let answer = client.commit(stream_id.clone(), &cursors_to_commit, flow_id);
        settle_due_flush(all_cursors, strategy, now, answer)
    }
}

/// Commits the cursors of all entries, due or not, in one request, and
/// gives back the transport's answer. The registry is used up either way.
pub fn flush_all_cursors<C: StreamingClient>(
    all_cursors: CommitRegistry,
    stream_id: &StreamId,
    connector: &C,
    flow_id: FlowId,
) -> (r: Result<CommitStatus, CommitError>)
    ensures
        committed_with(connector, *stream_id, spec_cursors(all_cursors@), flow_id, r),
{
    let cursors_to_commit = all_cursors.cursors();
    connector.commit(stream_id.clone(), &cursors_to_commit, flow_id)
}

/// What travels from the partition workers to the commit loop.
#[derive(Debug)]
pub enum CommitterMessage {
    /// This batch was handled: commit its cursor.
    Commit(Batch),
}

/// What the commit loop finds at the start of a turn.
#[derive(Debug)]
pub enum LoopInput {
    /// An abort was requested.
    AbortRequested,
    /// A message arrived.
    Received(CommitterMessage),
    /// No message arrived within the time the loop waits for one.
    Timeout,
    /// No message can arrive any more.
    Disconnected,
}

impl LoopInput {
    /// Whether this input ends the loop with a commit of all cursors.
    pub open spec fn ends_loop(self) -> bool {
        self is AbortRequested || self is Disconnected
    }
}

/// The registry after the loop has taken in `input`, before it commits.
pub open spec fn spec_after_input(
    entries: Seq<CommitEntryView>,
    input: LoopInput,
    strategy: CommitStrategy,
    now: u64,
) -> Seq<CommitEntryView> {
    match input {
        LoopInput::Received(CommitterMessage::Commit(batch)) => spec_record(
            entries,
            batch@,
            strategy,
            now,
        ),
        _ => entries,
    }
}

/// What a turn of the commit loop did.
#[derive(Debug)]
pub struct TurnReport {
    /// Whether the loop takes another turn.
    pub goes_on: bool,
    /// The transport's answer to the commit of this turn;
    /// `AllOffsetsIncreased` if there was nothing to commit.
    pub answer: Result<CommitStatus, CommitError>,
}

/// One turn of the commit loop.
///
/// On an abort request, or when no message can arrive any more, the turn
/// commits all cursors, empties the registry and ends the loop. Otherwise it
/// records the batch that arrived, if one did, and commits the cursors that
/// are due. If that commit fails, the registry keeps what the turn recorded
/// and the loop ends; the caller reports the error and marks the committer
/// as stopped.
pub fn run_commit_loop<C: StreamingClient>(
    cursors: &mut CommitRegistry,
    strategy: CommitStrategy,
    stream_id: &StreamId,
    client: &C,
    input: LoopInput,
    now: u64,
    flow_id: FlowId,
) -> (report: TurnReport)
    ensures
        input.ends_loop() ==> ({
            &&& !report.goes_on
            &&& final(cursors)@ == Seq::<CommitEntryView>::empty()
            &&& committed_with(
                client,
                *stream_id,
                spec_cursors(old(cursors)@),
                flow_id,
                report.answer,
            )
        }),
        !input.ends_loop() ==> ({
            let taken = spec_after_input(old(cursors)@, input, strategy, now);
            &&& report.goes_on == report.answer.is_ok()
            &&& final(cursors)@ == spec_after_due_flush(
                taken,
                strategy,
                now,
                report.answer.is_ok(),
            )
            &&& spec_due(taken, strategy, now).len() == 0 ==> report.answer == Ok::<
                CommitStatus,
                CommitError,
            >(CommitStatus::AllOffsetsIncreased)
            &&& spec_due(taken, strategy, now).len() > 0 ==> committed_with(
                client,
                *stream_id,
                spec_cursors(spec_due(taken, strategy, now)),
                flow_id,
                report.answer,
            )
        }),
        distinct_keys(final(cursors)@),
{
    match input {
        LoopInput::AbortRequested | LoopInput::Disconnected => {
            let mut all = CommitRegistry::new();
            core::mem::swap(cursors, &mut all);
            let answer = flush_all_cursors(all, stream_id, client, flow_id);
            proof {
                use_type_invariant(&*cursors);
            }
            return TurnReport { goes_on: false, answer };
        },
        LoopInput::Received(CommitterMessage::Commit(next_batch)) => {
            cursors.record(next_batch, strategy, now);
        },
        LoopInput::Timeout => {},
    }
    let answer = flush_due_cursors(cursors, strategy, now, stream_id, client, flow_id);
    let goes_on = answer.is_ok();
    TurnReport { goes_on, answer }
}

/// The end of every refusal of a commit request.
pub open spec fn refusal_reason() -> Seq<char> {
    " - Could not accept commit request: the commit loop has ended"@
}

/// The text with which a committer of the stream `stream_id` refuses a
/// commit request.
pub open spec fn spec_refusal(stream_id: Seq<char>) -> Seq<char> {
    "Stream "@ + stream_id + refusal_reason()
}

/// The committer of one stream: the way by which partition workers hand
/// handled batches to the commit loop, and the signal that ends the loop.
///
/// Requests wait in a queue, first in, first out, until the loop takes
/// them.
#[derive(Debug)]
pub struct Committer {
    stream_id: StreamId,
    subscription_id: SubscriptionId,
    strategy: CommitStrategy,
    lifecycle: Lifecycle,
    inbox: VecDeque<CommitterMessage>,
}

impl Committer {
    /// The stream whose cursors are committed.
    pub closed spec fn spec_stream_id(self) -> StreamId {
        self.stream_id
    }

    /// The subscription that the stream belongs to.
    pub closed spec fn spec_subscription_id(self) -> SubscriptionId {
        self.subscription_id
    }

    /// The strategy by which cursors are committed.
    pub closed spec fn spec_strategy(self) -> CommitStrategy {
        self.strategy
    }

    /// The signal of the commit loop.
    pub closed spec fn spec_lifecycle(self) -> Lifecycle {
        self.lifecycle
    }

    /// The requests that wait for the commit loop, oldest first.
    pub closed spec fn spec_inbox(self) -> Seq<CommitterMessage> {
        self.inbox@
    }

    /// A committer for the stream `stream_id` of the subscription that
    /// `client` consumes: running, with no request waiting.
    pub fn start<C: StreamingClient>(
        client: &C,
        strategy: CommitStrategy,
        stream_id: StreamId,
    ) -> (committer: Committer)
        ensures
            committer.spec_stream_id() == stream_id,
            call_ensures(C::subscription_id, (client,), committer.spec_subscription_id()),
            committer.spec_strategy() == strategy,
            committer.spec_lifecycle() == (Lifecycle { abort_requested: false, stopped: false }),
            committer.spec_inbox() == Seq::<CommitterMessage>::empty(),
    {
        let subscription_id = client.subscription_id();
        Committer {
            stream_id,
            subscription_id,
            strategy,
            lifecycle: Lifecycle::default(),
            inbox: VecDeque::new(),
        }
    }

    /// Asks for the commit of the cursor of `batch`. The request is queued
    /// behind those made before. It is refused exactly when the commit loop
    /// has ended.
    pub fn commit(&mut self, batch: Batch) -> (r: Result<(), String>)
        ensures
            final(self).spec_stream_id() == old(self).spec_stream_id(),
            final(self).spec_subscription_id() == old(self).spec_subscription_id(),
            final(self).spec_strategy() == old(self).spec_strategy(),
            final(self).spec_lifecycle() == old(self).spec_lifecycle(),
            match r {
                Ok(_) => !old(self).spec_lifecycle().stopped && final(self).spec_inbox() == old(self).spec_inbox().push(CommitterMessage::Commit(batch)),
                Err(message) => old(self).spec_lifecycle().stopped && final(self).spec_inbox()
                    == old(self).spec_inbox() && message@ == spec_refusal(
                    old(self).spec_stream_id()@,
                ),
            },
    {
        if self.lifecycle.running() {
            self.inbox.push_back(CommitterMessage::Commit(batch));
            Ok(())
        } else {
            let message = String::from_str("Stream ").concat(self.stream_id.0.as_str()).concat(
                " - Could not accept commit request: the commit loop has ended",
            );
            Err(message)
        }
    }

    /// The subscription that the stream belongs to.
    pub fn subscription_id(&self) -> (id: &SubscriptionId)
        ensures
            *id == self.spec_subscription_id(),
    {
        &self.subscription_id
    }

    /// The stream whose cursors are committed.
    pub fn stream_id(&self) -> (id: &StreamId)
        ensures
            *id == self.spec_stream_id(),
    {
        &self.stream_id
    }

    /// The strategy by which cursors are committed.
    pub fn strategy(&self) -> (strategy: CommitStrategy)
        ensures
            strategy == self.spec_strategy(),
    {
        self.strategy
    }

    /// `true` until the commit loop has ended.
    pub fn running(&self) -> (r: bool)
        ensures
            r == !self.spec_lifecycle().stopped,
    {
        self.lifecycle.running()
    }

    /// How many requests wait for the commit loop.
    pub fn waiting(&self) -> (n: usize)
        ensures
            n == self.spec_inbox().len(),
    {
        self.inbox.len()
    }

    /// Asks the commit loop to commit what it holds and to end.
    pub fn stop(&mut self)
        ensures
            final(self).spec_lifecycle() == old(self).spec_lifecycle().after_request_abort(),
            final(self).spec_stream_id() == old(self).spec_stream_id(),
            final(self).spec_subscription_id() == old(self).spec_subscription_id(),
            final(self).spec_strategy() == old(self).spec_strategy(),
            final(self).spec_inbox() == old(self).spec_inbox(),
    {
        self.lifecycle.request_abort();
    }

    /// What the commit loop finds at the start of a turn: the abort
    /// request, if there is one; else the oldest request that waits; else
    /// nothing.
    pub fn next_input(&mut self) -> (input: LoopInput)
        ensures
            final(self).spec_lifecycle() == old(self).spec_lifecycle(),
            final(self).spec_stream_id() == old(self).spec_stream_id(),
            final(self).spec_subscription_id() == old(self).spec_subscription_id(),
            final(self).spec_strategy() == old(self).spec_strategy(),
            old(self).spec_lifecycle().abort_requested ==> input is AbortRequested && final(self).spec_inbox() == old(self).spec_inbox(),
            !old(self).spec_lifecycle().abort_requested && old(self).spec_inbox().len() == 0
                ==> input is Timeout && final(self).spec_inbox() == old(self).spec_inbox(),
            !old(self).spec_lifecycle().abort_requested && old(self).spec_inbox().len() > 0
                ==> input == LoopInput::Received(old(self).spec_inbox()[0]) && final(self).spec_inbox() == old(self).spec_inbox().drop_first(),
    {
        if self.lifecycle.abort_requested() {
            return LoopInput::AbortRequested;
        }
        match self.inbox.pop_front() {
            Some(message) => {
                proof {
                    assert(self.inbox@ =~= old(self).inbox@.drop_first());
                }
                LoopInput::Received(message)
            },
            None => LoopInput::Timeout,
        }
    }

    /// Records that the commit loop has ended. Requests made from now on
    /// are refused.
    pub fn stopped(&mut self)
        ensures
            final(self).spec_lifecycle() == old(self).spec_lifecycle().after_stopped(),
            final(self).spec_stream_id() == old(self).spec_stream_id(),
            final(self).spec_subscription_id() == old(self).spec_subscription_id(),
            final(self).spec_strategy() == old(self).spec_strategy(),
            final(self).spec_inbox() == old(self).spec_inbox(),
    {
        self.lifecycle.stopped();
    }
}

/// A commit of all cursors leaves no entry out: the request holds one
/// cursor for each entry, in the registry's order.
pub proof fn lemma_flush_all_covers_registry(entries: Seq<CommitEntryView>)
    ensures
        spec_cursors(entries).len() == entries.len(),
        forall|i: int|
            0 <= i < entries.len() ==> (#[trigger] spec_cursors(entries)[i])
                == entries[i].batch.cursor(),
{
}

/// What [`spec_select`] selects is part of what it selects from.
pub proof fn lemma_select_subset(
    entries: Seq<CommitEntryView>,
    strategy: CommitStrategy,
    now: u64,
    count: nat,
    due: bool,
)
    ensures
        forall|e: CommitEntryView|
            #[trigger] spec_select(entries, strategy, now, count, due).contains(e) <==> (
            entries.contains(e) && spec_is_due(e, strategy, now, count) == due),
    decreases entries.len(),
{
    let chosen = spec_select(entries, strategy, now, count, due);
    if entries.len() == 0 {
        assert forall|e: CommitEntryView| #[trigger]
            chosen.contains(e) <==> (entries.contains(e) && spec_is_due(e, strategy, now, count)
                == due) by {}
    } else {
        let head = entries.drop_last();
        let last = entries.last();
        let before = spec_select(head, strategy, now, count, due);
        lemma_select_subset(head, strategy, now, count, due);
        assert forall|e: CommitEntryView| #[trigger]
            chosen.contains(e) <==> (entries.contains(e) && spec_is_due(e, strategy, now, count)
                == due) by {
            if chosen.contains(e) {
                let k = choose|k: int| 0 <= k < chosen.len() && chosen[k] == e;
                if k < before.len() {
                    assert(before[k] == e);
                    assert(before.contains(e));
                    assert(head.contains(e));
                    let h = choose|h: int| 0 <= h < head.len() && head[h] == e;
                    assert(entries[h] == e);
                } else {
                    assert(e == last);
                    assert(entries[entries.len() - 1] == e);
                }
            }
            if entries.contains(e) && spec_is_due(e, strategy, now, count) == due {
                let h = choose|h: int| 0 <= h < entries.len() && entries[h] == e;
                if h < head.len() {
                    assert(head[h] == e);
                    assert(head.contains(e));
                    assert(before.contains(e));
                    let k = choose|k: int| 0 <= k < before.len() && before[k] == e;
                    assert(chosen[k] == e);
                } else {
                    assert(e == last);
                    assert(chosen[chosen.len() - 1] == e);
                }
            }
        }
    }
}

/// A commit of the due cursors passes no entry over: every entry of the
/// registry is either among those whose cursors are sent, or among those
/// that stay, and only entries that were sent leave the registry.
pub proof fn lemma_due_flush_covers_registry(
    entries: Seq<CommitEntryView>,
    strategy: CommitStrategy,
    now: u64,
)
    ensures
        forall|i: int|
            0 <= i < entries.len() ==> (spec_due(entries, strategy, now).contains(
                #[trigger] entries[i],
            ) || spec_not_due(entries, strategy, now).contains(entries[i])),
        forall|e: CommitEntryView|
            entries.contains(e) && !(#[trigger] spec_not_due(entries, strategy, now).contains(e))
                ==> spec_due(entries, strategy, now).contains(e),
{
    lemma_select_subset(entries, strategy, now, entries.len(), true);
    lemma_select_subset(entries, strategy, now, entries.len(), false);
    assert forall|i: int| 0 <= i < entries.len() implies (spec_due(
        entries,
        strategy,
        now,
    ).contains(#[trigger] entries[i]) || spec_not_due(entries, strategy, now).contains(
        entries[i],
    )) by {
        assert(entries.contains(entries[i]));
    }
}

/// Recording a batch keeps the registry at one entry for each partition,
/// and the entry of the batch's partition then holds that batch.
pub proof fn lemma_record_one_entry_per_key(
    entries: Seq<CommitEntryView>,
    batch: BatchView,
    strategy: CommitStrategy,
    now: u64,
)
    requires
        distinct_keys(entries),
    ensures
        distinct_keys(spec_record(entries, batch, strategy, now)),
        has_key(spec_record(entries, batch, strategy, now), batch.key()),
        forall|i: int|
            0 <= i < spec_record(entries, batch, strategy, now).len() && (#[trigger] spec_record(
                entries,
                batch,
                strategy,
                now,
            )[i]).batch.key() == batch.key() ==> spec_record(entries, batch, strategy, now)[i].batch
                == batch,
{
    let after = spec_record(entries, batch, strategy, now);
    if has_key(entries, batch.key()) {
        let p = position_of(entries, batch.key());
        assert forall|a: int, b: int| 0 <= a < b < after.len() implies (#[trigger] after[a]).batch.key()
            != (#[trigger] after[b]).batch.key() by {
            assert(entries[a].batch.key() != entries[b].batch.key());
        }
        assert(after[p].batch.key() == batch.key());
        assert forall|i: int|
            0 <= i < after.len() && (#[trigger] after[i]).batch.key() == batch.key() implies after[i].batch
            == batch by {
            if i < p {
                assert(after[i].batch.key() != after[p].batch.key());
            } else if p < i {
                assert(after[p].batch.key() != after[i].batch.key());
            }
        }
    } else {
        assert forall|a: int, b: int| 0 <= a < b < after.len() implies (#[trigger] after[a]).batch.key()
            != (#[trigger] after[b]).batch.key() by {
            if b < entries.len() {
                assert(entries[a].batch.key() != entries[b].batch.key());
            } else {
                assert(entries[a].batch.key() != batch.key());
            }
        }
        assert(after[entries.len() as int].batch.key() == batch.key());
        assert forall|i: int|
            0 <= i < after.len() && (#[trigger] after[i]).batch.key() == batch.key() implies after[i].batch
            == batch by {
            if i < entries.len() {
                assert(entries[i].batch.key() != batch.key());
            }
        }
    }
}

/// In a registry with one entry for each partition, two entries of the same
/// partition are one and the same.
pub proof fn lemma_at_most_one_outstanding(entries: Seq<CommitEntryView>, i: int, j: int)
    requires
        distinct_keys(entries),
        0 <= i < entries.len(),
        0 <= j < entries.len(),
        entries[i].batch.key() == entries[j].batch.key(),
    ensures
        i == j,
{
    if i < j {
        assert(entries[i].batch.key() != entries[j].batch.key());
    } else if j < i {
        assert(entries[j].batch.key() != entries[i].batch.key());
    }
}

/// Under `AllBatches` no cursor waits for a later moment than that of its
/// acknowledgement: if that holds of the entries before `batch` is recorded
/// at `now`, it holds of the entries after.
pub proof fn lemma_all_batches_due_at_once(
    entries: Seq<CommitEntryView>,
    batch: BatchView,
    now: u64,
)
    requires
        forall|i: int| 0 <= i < entries.len() ==> (#[trigger] entries[i]).fire_at <= now,
    ensures
        spec_fire_at(CommitStrategy::AllBatches, now, batch.commit_deadline) == now,
        forall|i: int|
            0 <= i < spec_record(entries, batch, CommitStrategy::AllBatches, now).len() ==> (
            #[trigger] spec_record(entries, batch, CommitStrategy::AllBatches, now)[i]).fire_at
                <= now,
{
    let after = spec_record(entries, batch, CommitStrategy::AllBatches, now);
    assert forall|i: int| 0 <= i < after.len() implies (#[trigger] after[i]).fire_at <= now by {
        if has_key(entries, batch.key()) {
            let p = position_of(entries, batch.key());
            if i == p {
                assert(entries[p].fire_at <= now);
            } else {
                assert(entries[i].fire_at <= now);
            }
        } else {
            if i < entries.len() {
                assert(entries[i].fire_at <= now);
            }
        }
    }
}

/// Whether an entry waits no longer than `seconds` after `now` and no
/// longer than its batch allows.
pub open spec fn within_seconds(entry: CommitEntryView, seconds: u16, now: u64) -> bool {
    entry.fire_at <= now + seconds * 1000 && entry.fire_at <= entry.batch.commit_deadline
}

/// Under `EveryNSeconds(n)` a cursor waits at most `n` seconds from its
/// acknowledgement and never beyond the deadline of its batch. This holds of
/// a new entry, and it stays true when a batch takes the place of an older
/// one of its partition, as long as the newer batch has no earlier deadline.
pub proof fn lemma_every_n_seconds_bound(
    entries: Seq<CommitEntryView>,
    batch: BatchView,
    seconds: u16,
    now: u64,
)
    requires
        forall|i: int|
            0 <= i < entries.len() ==> within_seconds(#[trigger] entries[i], seconds, now),
        has_key(entries, batch.key()) ==> entries[position_of(
            entries,
            batch.key(),
        )].batch.commit_deadline <= batch.commit_deadline,
    ensures
        spec_fire_at(CommitStrategy::EveryNSeconds(seconds), now, batch.commit_deadline) <= now
            + seconds * 1000,
        spec_fire_at(CommitStrategy::EveryNSeconds(seconds), now, batch.commit_deadline)
            <= batch.commit_deadline,
        forall|i: int|
            0 <= i < spec_record(
                entries,
                batch,
                CommitStrategy::EveryNSeconds(seconds),
                now,
            ).len() ==> within_seconds(
                #[trigger] spec_record(
                    entries,
                    batch,
                    CommitStrategy::EveryNSeconds(seconds),
                    now,
                )[i],
                seconds,
                now,
            ),
{
    let strategy = CommitStrategy::EveryNSeconds(seconds);
    let after = spec_record(entries, batch, strategy, now);
    assert forall|i: int| 0 <= i < after.len() implies within_seconds(
        #[trigger] after[i],
        seconds,
        now,
    ) by {
        if has_key(entries, batch.key()) {
            let p = position_of(entries, batch.key());
            assert(within_seconds(entries[p], seconds, now));
            if i != p {
                assert(within_seconds(entries[i], seconds, now));
            }
        } else {
            if i < entries.len() {
                assert(within_seconds(entries[i], seconds, now));
            }
        }
    }
}

} // verus!
