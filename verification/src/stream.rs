//! Streams of work for the device.
//!
//! Work is numbered when it is queued, handed to the device in batches, and known to
//! be complete when a blocking write behind it has returned. What the device does is
//! not done here: a stream says what to submit and when to wait, and is told how that
//! went.
use crate::runtime::TT_DEFAULT_BUFFER_PAGE_SIZE_BYTES;
use std::collections::HashMap;
use vstd::prelude::*;

verus! {

/// A batch is submitted once this many operations wait for it.
pub const TT_STREAM_PENDING_OP_THRESHOLD: usize = 2048;

/// Completion is awaited once this many operations are submitted and not complete.
pub const TT_STREAM_IN_FLIGHT_THRESHOLD: u64 = 4096;

pub const TT_STREAM_FENCE_SIZE_BYTES: u64 = TT_DEFAULT_BUFFER_PAGE_SIZE_BYTES;

/// What an operation does; a workload is known by its number.
#[derive(Debug)]
pub enum PendingWork {
    Workload,
    WriteReplicated { storage_id: u64, staged: Vec<u8> },
}

/// An operation that was queued and not submitted.
#[derive(Debug)]
pub struct PendingOp {
    pub seq: u64,
    pub work: PendingWork,
}

/// How far a stream has come.
#[derive(Clone, Copy, Debug, PartialEq, Eq, Structural)]
pub struct StreamProgress {
    pub queued: u64,
    pub submitted: u64,
    pub completed: u64,
    pub producer_flushes: u64,
    pub readback_completions: u64,
    pub max_pending_batch_size: usize,
    pub submit_calls: u64,
    pub completion_waits: u64,
}

/// A point that a stream has completed.
#[derive(Clone, Copy, Debug, PartialEq, Eq, Structural)]
pub struct TtEvent {
    pub completed_seq: u64,
}

/// How errors are looked at: whether they are passed over, and whether they are
/// cleared.
#[derive(Clone, Copy, Debug, PartialEq, Eq, Structural)]
pub struct StreamErrorMode {
    pub ignore: bool,
    pub flush: bool,
}

impl StreamErrorMode {
    /// What is reported of the remembered errors.
    pub open spec fn reported(self, errors: Seq<String>) -> Option<Seq<String>> {
        if self.ignore || errors.len() == 0 {
            None
        } else {
            Some(errors)
        }
    }

    /// What is left of the remembered errors.
    pub open spec fn kept(self, errors: Seq<String>) -> Seq<String> {
        if self.flush {
            Seq::empty()
        } else {
            errors
        }
    }
}

/// What has to be done next to complete work.
#[derive(Clone, Copy, Debug, PartialEq, Eq, Structural)]
pub enum SyncStep {
    Done,
    Submit,
    Wait,
}

/// A stream of work.
#[derive(Debug)]
pub struct Stream {
    pub errors: Vec<String>,
    pub pending_ops: Vec<PendingOp>,
    pub last_queued_seq: u64,
    pub last_submitted_seq: u64,
    pub last_completed_seq: u64,
    pub fence_value: u32,
    pub resource_latest_seq: HashMap<u64, u64>,
    pub progress: StreamProgress,
}

pub open spec fn saturated(n: int) -> int {
    if n > u64::MAX {
        u64::MAX as int
    } else {
        n
    }
}

fn next(n: u64) -> (result: u64)
    ensures
        result == saturated(n + 1),
{
    if n == u64::MAX {
        u64::MAX
    } else {
        n + 1
    }
}

/// The four bytes of a word, the lowest first.
pub open spec fn little_endian(word: u32) -> Seq<u8> {
    seq![
        (word % 256) as u8,
        (word / 256 % 256) as u8,
        (word / 65536 % 256) as u8,
        (word / 16777216 % 256) as u8,
    ]
}

/// The page that is written behind submitted work: the number of the fence and zeros.
pub open spec fn fence_page(value: u32) -> Seq<u8> {
    little_endian(value) + Seq::new(
        (TT_STREAM_FENCE_SIZE_BYTES - 4) as nat,
        |i: int| 0u8,
    )
}

/// The larger of two numbers.
pub open spec fn later(a: u64, b: u64) -> u64 {
    if a < b {
        b
    } else {
        a
    }
}

/// The highest number of the first `count` operations, or `floor`.
pub open spec fn highest_seq(ops: Seq<PendingOp>, floor: u64, count: nat) -> u64
    decreases count,
{
    if count == 0 {
        floor
    } else {
        later(highest_seq(ops, floor, (count - 1) as nat), ops[count - 1].seq)
    }
}

impl Stream {
    /// Operations wait in the order of their numbers, up to the last number handed
    /// out, and nothing beyond that number was submitted.
    pub open spec fn wf(self) -> bool {
        &&& self.progress.queued == self.last_queued_seq
        &&& self.last_submitted_seq <= self.last_queued_seq
        &&& forall|i: int, j: int|
            0 <= i <= j < self.pending_ops.len() ==> (#[trigger] self.pending_ops[i]).seq <= (
            #[trigger] self.pending_ops[j]).seq
        &&& self.pending_ops.len() > 0 ==> self.pending_ops[self.pending_ops.len() - 1].seq
            == self.last_queued_seq
    }

    /// Whether all work that was queued and does not wait was submitted: no submission
    /// has failed.
    pub open spec fn intact(self) -> bool {
        self.pending_ops.len() == 0 ==> self.last_submitted_seq == self.last_queued_seq
    }

    /// A new stream, with no work and no errors.
    pub fn new() -> (stream: Self)
        ensures
            stream.wf(),
            stream.intact(),
            stream.errors@ == Seq::<String>::empty(),
            stream.pending_ops@ == Seq::<PendingOp>::empty(),
            stream.last_queued_seq == 0,
            stream.last_submitted_seq == 0,
            stream.last_completed_seq == 0,
            stream.fence_value == 0,
            stream.resource_latest_seq@ == Map::<u64, u64>::empty(),
            stream.progress == (StreamProgress {
                queued: 0,
                submitted: 0,
                completed: 0,
                producer_flushes: 0,
                readback_completions: 0,
                max_pending_batch_size: 0,
                submit_calls: 0,
                completion_waits: 0,
            }),
    {
        broadcast use vstd::std_specs::hash::group_hash_axioms;

        Stream {
            errors: Vec::new(),
            pending_ops: Vec::new(),
            last_queued_seq: 0,
            last_submitted_seq: 0,
            last_completed_seq: 0,
            fence_value: 0,
            resource_latest_seq: HashMap::new(),
            progress: StreamProgress {
                queued: 0,
                submitted: 0,
                completed: 0,
                producer_flushes: 0,
                readback_completions: 0,
                max_pending_batch_size: 0,
                submit_calls: 0,
                completion_waits: 0,
            },
        }
    }

    /// The number of operations that were submitted and are not known to be complete.
    pub fn in_flight_count(&self) -> (count: u64)
        ensures
            count == (if self.last_submitted_seq > self.last_completed_seq {
                self.last_submitted_seq - self.last_completed_seq
            } else {
                0
            }),
    {
        if self.last_submitted_seq > self.last_completed_seq {
            self.last_submitted_seq - self.last_completed_seq
        } else {
            0
        }
    }

    /// Whether enough operations wait for a batch to be submitted.
    pub fn batch_is_full(&self) -> (full: bool)
        ensures
            full == (self.pending_ops.len() >= TT_STREAM_PENDING_OP_THRESHOLD),
    {
        self.pending_ops.len() >= TT_STREAM_PENDING_OP_THRESHOLD
    }

    /// Whether enough operations are submitted for their completion to be awaited.
    pub fn device_is_full(&self) -> (full: bool)
        ensures
            full == (self.last_submitted_seq - self.last_completed_seq
                >= TT_STREAM_IN_FLIGHT_THRESHOLD),
    {
        self.in_flight_count() >= TT_STREAM_IN_FLIGHT_THRESHOLD
    }

    /// What has to be done next to keep the work that waits or runs within its bounds.
    pub open spec fn pressure(self) -> SyncStep {
        if self.pending_ops.len() >= TT_STREAM_PENDING_OP_THRESHOLD {
            SyncStep::Submit
        } else if self.last_submitted_seq - self.last_completed_seq
            >= TT_STREAM_IN_FLIGHT_THRESHOLD {
            SyncStep::Wait
        } else {
            SyncStep::Done
        }
    }

    /// What has to be done next after work was queued: submit a full batch, and await
    /// completion where the device has enough to do.
    pub fn apply_backpressure(&self) -> (step: SyncStep)
        ensures
            step == self.pressure(),
    {
        if self.batch_is_full() {
            SyncStep::Submit
        } else if self.device_is_full() {
            SyncStep::Wait
        } else {
            SyncStep::Done
        }
    }

    pub fn last_queued_seq(&self) -> (seq: u64)
        ensures
            seq == self.last_queued_seq,
    {
        self.last_queued_seq
    }

    pub fn last_completed_seq(&self) -> (seq: u64)
        ensures
            seq == self.last_completed_seq,
    {
        self.last_completed_seq
    }

    pub fn progress(&self) -> (progress: &StreamProgress)
        ensures
            *progress == self.progress,
    {
        &self.progress
    }

    /// Count a flush that another stream's dependency asked for.
    pub fn mark_dependency_flush(&mut self)
        ensures
            *final(self) == (Stream {
                progress: StreamProgress {
                    producer_flushes: saturated(old(self).progress.producer_flushes + 1) as u64,
                    ..old(self).progress
                },
                ..*old(self)
            }),
    {
        self.progress.producer_flushes = next(self.progress.producer_flushes);
    }

    /// Count a completion that a read asked for.
    pub fn mark_readback_completion(&mut self)
        ensures
            *final(self) == (Stream {
                progress: StreamProgress {
                    readback_completions: saturated(
                        old(self).progress.readback_completions + 1,
                    ) as u64,
                    ..old(self).progress
                },
                ..*old(self)
            }),
    {
        self.progress.readback_completions = next(self.progress.readback_completions);
    }

    pub open spec fn resource_seq(self, storage_id: u64) -> u64 {
        if self.resource_latest_seq@.dom().contains(storage_id) {
            self.resource_latest_seq@[storage_id]
        } else {
            0
        }
    }

    /// The number of the last operation that wrote a buffer, or zero.
    pub fn latest_resource_seq(&self, storage_id: u64) -> (seq: u64)
        ensures
            seq == self.resource_seq(storage_id),
    {
        broadcast use vstd::std_specs::hash::group_hash_axioms;

        match self.resource_latest_seq.get(&storage_id) {
            Some(seq) => *seq,
            None => 0,
        }
    }

    /// Remember that an operation writes a buffer.
    pub fn note_resource_sequence(&mut self, storage_id: u64, seq: u64)
        ensures
            final(self).resource_latest_seq@ == old(self).resource_latest_seq@.insert(
                storage_id,
                later(old(self).resource_seq(storage_id), seq),
            ),
            *final(self) == (Stream {
                resource_latest_seq: final(self).resource_latest_seq,
                ..*old(self)
            }),
    {
        broadcast use vstd::std_specs::hash::group_hash_axioms;

        let known: u64 = self.latest_resource_seq(storage_id);
        let latest: u64 = if known < seq {
            seq
        } else {
            known
        };
        self.resource_latest_seq.insert(storage_id, latest);
    }

    /// Remember that a workload writes these buffers.
    pub fn note_workload_outputs(&mut self, seq: u64, storage_ids: &Vec<u64>)
        ensures
            forall|id: u64| #[trigger]
                final(self).resource_seq(id) == (if storage_ids@.contains(id) {
                    later(old(self).resource_seq(id), seq)
                } else {
                    old(self).resource_seq(id)
                }),
            *final(self) == (Stream {
                resource_latest_seq: final(self).resource_latest_seq,
                ..*old(self)
            }),
    {
        let mut i: usize = 0;
        assert(storage_ids@.take(0) =~= Seq::<u64>::empty());
        while i < storage_ids.len()
            invariant
                i <= storage_ids.len(),
                forall|id: u64| #[trigger]
                    self.resource_seq(id) == (if storage_ids@.take(i as int).contains(id) {
                        later(old(self).resource_seq(id), seq)
                    } else {
                        old(self).resource_seq(id)
                    }),
                *self == (Stream {
                    resource_latest_seq: self.resource_latest_seq,
                    ..*old(self)
                }),
            decreases storage_ids.len() - i,
        {
            let ghost before = *self;
            let ghost taken = storage_ids@.take(i as int);
            self.note_resource_sequence(storage_ids[i], seq);
            proof {
                let next_taken = storage_ids@.take(i + 1);
                assert(next_taken =~= taken.push(storage_ids@[i as int]));
                assert forall|id: u64| #[trigger]
                    self.resource_seq(id) == (if next_taken.contains(id) {
                        later(old(self).resource_seq(id), seq)
                    } else {
                        old(self).resource_seq(id)
                    }) by {
                    assert(before.resource_seq(id) == (if taken.contains(id) {
                        later(old(self).resource_seq(id), seq)
                    } else {
                        old(self).resource_seq(id)
                    }));
                    if id == storage_ids@[i as int] {
                        assert(next_taken[i as int] == id);
                        assert(next_taken.contains(id));
                    } else {
                        if taken.contains(id) {
                            let k = choose|k: int| 0 <= k < taken.len() && taken[k] == id;
                            assert(next_taken[k] == id);
                        }
                        if next_taken.contains(id) {
                            let k = choose|k: int| 0 <= k < next_taken.len() && next_taken[k] == id;
                            assert(taken[k] == id);
                        }
                    }
                }
            }
            i += 1;
        }
        assert(storage_ids@.take(i as int) =~= storage_ids@);
    }

    /// The point up to which a buffer depends on this stream: what its memory says, or
    /// the last write to its storage where that is later.
    pub fn binding_cursor(&self, memory_cursor: Option<u64>, storage_id: Option<u64>) -> (cursor: u64)
        ensures
            cursor == later(
                match memory_cursor {
                    Some(cursor) => cursor,
                    None => 0,
                },
                match storage_id {
                    Some(id) => self.resource_seq(id),
                    None => 0,
                },
            ),
    {
        let memory: u64 = match memory_cursor {
            Some(cursor) => cursor,
            None => 0,
        };
        let storage: u64 = match storage_id {
            Some(id) => self.latest_resource_seq(id),
            None => 0,
        };
        if memory < storage {
            storage
        } else {
            memory
        }
    }

    fn next_sequence(&mut self) -> (seq: u64)
        ensures
            seq == saturated(old(self).last_queued_seq + 1),
            *final(self) == (Stream {
                last_queued_seq: seq,
                progress: StreamProgress { queued: seq, ..old(self).progress },
                ..*old(self)
            }),
    {
        self.last_queued_seq = next(self.last_queued_seq);
        self.progress.queued = self.last_queued_seq;
        self.last_queued_seq
    }

    /// Queue an operation behind all others.
    fn enqueue(&mut self, work: PendingWork) -> (seq: u64)
        requires
            old(self).wf(),
        ensures
            final(self).wf(),
            final(self).intact(),
            seq == saturated(old(self).last_queued_seq + 1),
            final(self).pending_ops@ == old(self).pending_ops@.push((PendingOp { seq, work })),
            *final(self) == (Stream {
                last_queued_seq: seq,
                pending_ops: final(self).pending_ops,
                progress: StreamProgress { queued: seq, ..old(self).progress },
                ..*old(self)
            }),
    {
        let seq: u64 = self.next_sequence();
        self.pending_ops.push(PendingOp { seq, work });
        proof {
            assert forall|i: int, j: int| 0 <= i <= j < self.pending_ops.len() implies (
            #[trigger] self.pending_ops[i]).seq <= (#[trigger] self.pending_ops[j]).seq by {
                if j == self.pending_ops.len() - 1 && i < j {
                    assert(old(self).pending_ops[i].seq <= old(self).pending_ops[j - 1].seq);
                } else if i < j {
                    assert(old(self).pending_ops[i].seq <= old(self).pending_ops[j].seq);
                }
            }
        }
        seq
    }

    /// Queue the write of a whole buffer.
    pub fn enqueue_replicated_write(&mut self, storage_id: u64, staged: Vec<u8>) -> (seq: u64)
        requires
            old(self).wf(),
        ensures
            final(self).wf(),
            final(self).intact(),
            seq == saturated(old(self).last_queued_seq + 1),
            final(self).pending_ops@ == old(self).pending_ops@.push(
                (PendingOp { seq, work: PendingWork::WriteReplicated { storage_id, staged } }),
            ),
            final(self).resource_latest_seq@ == old(self).resource_latest_seq@.insert(
                storage_id,
                later(old(self).resource_seq(storage_id), seq),
            ),
            *final(self) == (Stream {
                last_queued_seq: seq,
                pending_ops: final(self).pending_ops,
                resource_latest_seq: final(self).resource_latest_seq,
                progress: StreamProgress { queued: seq, ..old(self).progress },
                ..*old(self)
            }),
            final(self).resource_seq(storage_id) >= seq,
            forall|id: u64|
                id != storage_id ==> #[trigger] final(self).resource_seq(id) == old(
                    self,
                ).resource_seq(id),
    {
        let seq: u64 = self.enqueue(PendingWork::WriteReplicated { storage_id, staged });
        self.note_resource_sequence(storage_id, seq);
        seq
    }

    /// Queue a workload; the caller keeps it under the number that is returned.
    pub fn enqueue_full_mesh_program(&mut self) -> (seq: u64)
        requires
            old(self).wf(),
        ensures
            final(self).wf(),
            final(self).intact(),
            seq == saturated(old(self).last_queued_seq + 1),
            final(self).pending_ops@ == old(self).pending_ops@.push(
                (PendingOp { seq, work: PendingWork::Workload }),
            ),
            *final(self) == (Stream {
                last_queued_seq: seq,
                pending_ops: final(self).pending_ops,
                progress: StreamProgress { queued: seq, ..old(self).progress },
                ..*old(self)
            }),
    {
        self.enqueue(PendingWork::Workload)
    }

}

/// A batch that is being submitted.
#[derive(Debug)]
pub struct Batch {
    pub ops: Vec<PendingOp>,
    /// The number that is known to be submitted once the whole batch is.
    pub highest_seq: u64,
    pub workload_ops: usize,
    pub write_ops: usize,
}

/// The number of workloads among the first `count` operations.
pub open spec fn workloads(ops: Seq<PendingOp>, count: nat) -> nat
    decreases count,
{
    if count == 0 {
        0
    } else {
        workloads(ops, (count - 1) as nat) + (if ops[count - 1].work is Workload {
            1nat
        } else {
            0nat
        })
    }
}

impl Batch {
    pub open spec fn is_of(self, ops: Seq<PendingOp>, submitted: u64) -> bool {
        &&& self.ops@ == ops
        &&& self.highest_seq == highest_seq(ops, submitted, ops.len())
        &&& self.workload_ops == workloads(ops, ops.len())
        &&& self.workload_ops + self.write_ops == ops.len()
    }
}

proof fn lemma_highest_is_last(ops: Seq<PendingOp>, floor: u64, count: nat)
    requires
        0 < count <= ops.len(),
        forall|i: int, j: int|
            0 <= i <= j < ops.len() ==> (#[trigger] ops[i]).seq <= (#[trigger] ops[j]).seq,
    ensures
        highest_seq(ops, floor, count) == later(floor, ops[count - 1].seq),
    decreases count,
{
    assert(highest_seq(ops, floor, 0) == floor);
    if count > 1 {
        lemma_highest_is_last(ops, floor, (count - 1) as nat);
        assert(ops[count - 2].seq <= ops[count - 1].seq);
    }
}

impl Stream {
    /// Take all operations that wait, to hand them to the device in order. Nothing is
    /// known to be submitted until [`Stream::finish_flush`].
    pub fn begin_flush(&mut self) -> (batch: Option<Batch>)
        requires
            old(self).wf(),
        ensures
            final(self).wf(),
            old(self).pending_ops.len() == 0 ==> batch is None && *final(self) == *old(self),
            old(self).pending_ops.len() > 0 ==> {
                &&& batch matches Some(batch)
                &&& batch.is_of(old(self).pending_ops@, old(self).last_submitted_seq)
                &&& batch.highest_seq == old(self).last_queued_seq
                &&& final(self).pending_ops@ == Seq::<PendingOp>::empty()
                &&& *final(self) == (Stream {
                    pending_ops: final(self).pending_ops,
                    progress: StreamProgress {
                        max_pending_batch_size: (if old(self).progress.max_pending_batch_size
                            < old(self).pending_ops.len() {
                            old(self).pending_ops.len()
                        } else {
                            old(self).progress.max_pending_batch_size
                        }),
                        submit_calls: saturated(old(self).progress.submit_calls + 1) as u64,
                        ..old(self).progress
                    },
                    ..*old(self)
                })
            },
    {
        if self.pending_ops.len() == 0 {
            return None;
        }
        let mut ops: Vec<PendingOp> = Vec::new();
        ops.append(&mut self.pending_ops);
        assert(ops@ =~= old(self).pending_ops@);
        let mut highest: u64 = self.last_submitted_seq;
        let mut workload_ops: usize = 0;
        let mut write_ops: usize = 0;
        let mut i: usize = 0;
        while i < ops.len()
            invariant
                i <= ops.len(),
                highest == highest_seq(ops@, self.last_submitted_seq, i as nat),
                workload_ops == workloads(ops@, i as nat),
                workload_ops + write_ops == i,
            decreases ops.len() - i,
        {
            if highest < ops[i].seq {
                highest = ops[i].seq;
            }
            match ops[i].work {
                PendingWork::Workload => {
                    workload_ops += 1;
                },
                PendingWork::WriteReplicated { .. } => {
                    write_ops += 1;
                },
            }
            i += 1;
        }
        proof {
            assert forall|i: int, j: int| 0 <= i <= j < ops.len() implies (#[trigger] ops@[i]).seq
                <= (#[trigger] ops@[j]).seq by {
                assert(old(self).pending_ops[i].seq <= old(self).pending_ops[j].seq);
            }
            lemma_highest_is_last(ops@, self.last_submitted_seq, ops.len() as nat);
        }
        if self.progress.max_pending_batch_size < ops.len() {
            self.progress.max_pending_batch_size = ops.len();
        }
        self.progress.submit_calls = next(self.progress.submit_calls);
        Some(Batch { ops, highest_seq: highest, workload_ops, write_ops })
    }

    /// The whole batch was handed to the device.
    pub fn finish_flush(&mut self, highest_seq: u64)
        requires
            old(self).wf(),
            highest_seq <= old(self).last_queued_seq,
        ensures
            final(self).wf(),
            *final(self) == (Stream { last_submitted_seq: highest_seq, ..*old(self) }),
    {
        self.last_submitted_seq = highest_seq;
    }

    /// The page to write behind submitted work, where some is not known to be complete.
    pub fn begin_fence(&mut self) -> (page: Option<Vec<u8>>)
        requires
            old(self).wf(),
        ensures
            final(self).wf(),
            old(self).last_completed_seq >= old(self).last_submitted_seq ==> page is None
                && *final(self) == *old(self),
            old(self).last_completed_seq < old(self).last_submitted_seq ==> {
                &&& page matches Some(page)
                &&& final(self).fence_value == (old(self).fence_value + 1) % 0x1_0000_0000
                &&& page@ == fence_page(final(self).fence_value)
                &&& *final(self) == (Stream { fence_value: final(self).fence_value, ..*old(self) })
                &&& page_number(page@) == final(self).fence_value
                &&& final(self).fence_value != old(self).fence_value
            },
    {
        if self.last_completed_seq >= self.last_submitted_seq {
            return None;
        }
        let value: u32 = if self.fence_value == u32::MAX {
            0
        } else {
            self.fence_value + 1
        };
        self.fence_value = value;
        let mut page: Vec<u8> = Vec::new();
        page.push((value % 256) as u8);
        page.push((value / 256 % 256) as u8);
        page.push((value / 65536 % 256) as u8);
        page.push((value / 16777216 % 256) as u8);
        assert(page@ =~= little_endian(value));
        let mut i: u64 = 4;
        while i < TT_STREAM_FENCE_SIZE_BYTES
            invariant
                4 <= i <= TT_STREAM_FENCE_SIZE_BYTES,
                page@ == little_endian(value) + Seq::new((i - 4) as nat, |i: int| 0u8),
            decreases TT_STREAM_FENCE_SIZE_BYTES - i,
        {
            let ghost before = page@;
            page.push(0);
            assert(page@ =~= little_endian(value) + Seq::new((i + 1 - 4) as nat, |i: int| 0u8));
            i += 1;
        }
        proof {
            law_fences_hold_their_numbers(value);
        }
        Some(page)
    }

    /// The page was written: all submitted work is complete.
    pub fn finish_fence(&mut self)
        requires
            old(self).wf(),
        ensures
            final(self).wf(),
            *final(self) == (Stream {
                last_completed_seq: old(self).last_submitted_seq,
                progress: StreamProgress {
                    completed: old(self).last_submitted_seq,
                    completion_waits: saturated(old(self).progress.completion_waits + 1) as u64,
                    ..old(self).progress
                },
                ..*old(self)
            }),
            forall|target_seq: u64|
                target_seq <= old(self).last_submitted_seq ==> #[trigger] final(self).sync_step(
                    target_seq,
                ) is Done,
    {
        self.last_completed_seq = self.last_submitted_seq;
        self.progress.completed = self.last_completed_seq;
        self.progress.completion_waits = next(self.progress.completion_waits);
    }

    /// What has to be done next to complete work up to `target_seq`.
    pub open spec fn sync_step(self, target_seq: u64) -> SyncStep {
        if target_seq <= self.last_completed_seq {
            SyncStep::Done
        } else if target_seq > self.last_submitted_seq && self.pending_ops.len() > 0 {
            SyncStep::Submit
        } else if self.last_completed_seq < self.last_submitted_seq {
            SyncStep::Wait
        } else {
            SyncStep::Done
        }
    }

    /// What has to be done next to complete work up to `target_seq`: submit what waits,
    /// where the target waits too, and then await completion.
    pub fn sync_through(&self, target_seq: u64) -> (step: SyncStep)
        ensures
            step == self.sync_step(target_seq),
    {
        if target_seq <= self.last_completed_seq {
            SyncStep::Done
        } else if target_seq > self.last_submitted_seq && self.pending_ops.len() > 0 {
            SyncStep::Submit
        } else if self.last_completed_seq < self.last_submitted_seq {
            SyncStep::Wait
        } else {
            SyncStep::Done
        }
    }

    /// The point that the stream has completed, for other streams to wait for.
    pub fn event(&self) -> (event: TtEvent)
        ensures
            event.completed_seq == self.last_completed_seq,
    {
        TtEvent { completed_seq: self.last_completed_seq }
    }

    /// Another stream has completed this point.
    pub fn wait_event(&mut self, event: TtEvent)
        ensures
            if event.completed_seq > old(self).last_completed_seq {
                *final(self) == (Stream {
                    last_completed_seq: event.completed_seq,
                    progress: StreamProgress {
                        completed: event.completed_seq,
                        ..old(self).progress
                    },
                    ..*old(self)
                })
            } else {
                *final(self) == *old(self)
            },
            final(self).last_completed_seq >= event.completed_seq,
            final(self).last_completed_seq >= old(self).last_completed_seq,
    {
        if event.completed_seq > self.last_completed_seq {
            self.last_completed_seq = event.completed_seq;
            self.progress.completed = self.last_completed_seq;
        }
    }

    /// Remember an error.
    pub fn error(&mut self, error: String)
        ensures
            final(self).errors@ == old(self).errors@.push(error),
            *final(self) == (Stream { errors: final(self).errors, ..*old(self) }),
    {
        self.errors.push(error);
    }

    /// Whether no error is remembered.
    pub fn is_healthy(&self) -> (healthy: bool)
        ensures
            healthy == (self.errors.len() == 0),
    {
        self.errors.len() == 0
    }

    /// Report the remembered errors, unless they are ignored, and clear them, where asked
    /// for.
    pub fn flush_errors(&mut self, mode: StreamErrorMode) -> (result: Result<(), Vec<String>>)
        ensures
            match result {
                Ok(()) => mode.reported(old(self).errors@) is None,
                Err(errors) => mode.reported(old(self).errors@) == Some(errors@),
            },
            final(self).errors@ == mode.kept(old(self).errors@),
            *final(self) == (Stream { errors: final(self).errors, ..*old(self) }),
    {
        if mode.flush {
            let mut errors: Vec<String> = Vec::new();
            errors.append(&mut self.errors);
            assert(errors@ =~= old(self).errors@);
            if !mode.ignore && errors.len() > 0 {
                return Err(errors);
            }
        } else if !mode.ignore && self.errors.len() > 0 {
            let mut errors: Vec<String> = Vec::new();
            let mut i: usize = 0;
            while i < self.errors.len()
                invariant
                    i <= self.errors.len(),
                    *self == *old(self),
                    errors@ == self.errors@.take(i as int),
                decreases self.errors.len() - i,
            {
                errors.push(self.errors[i].clone());
                assert(self.errors@.take(i + 1) =~= self.errors@.take(i as int).push(
                    self.errors@[i as int],
                ));
                i += 1;
            }
            assert(self.errors@.take(i as int) =~= self.errors@);
            return Err(errors);
        }
        Ok(())
    }
}

/// Once a full batch was submitted and the completion awaited that is then asked for,
/// nothing more is asked for. `submitted` and `waited` are the stream after the two
/// steps.
pub proof fn law_pressure_is_relieved(stream: Stream, submitted: Stream, waited: Stream)
    requires
        stream.pressure() is Submit ==> submitted.pending_ops.len() == 0,
        !(stream.pressure() is Submit) ==> submitted == stream,
        submitted.pressure() is Wait ==> waited.last_completed_seq == submitted.last_submitted_seq
            && waited.last_submitted_seq == submitted.last_submitted_seq && waited.pending_ops
            == submitted.pending_ops,
        !(submitted.pressure() is Wait) ==> waited == submitted,
    ensures
        !(submitted.pressure() is Submit),
        waited.pressure() is Done,
{
}

/// Work up to any number that was handed out is complete after at most one submission
/// and one wait: a submission leaves nothing but the wait to do, and the wait completes
/// the target. `submitted` and `waited` are the stream after the two steps.
pub proof fn law_sync_completes_its_target(
    stream: Stream,
    submitted: Stream,
    waited: Stream,
    target_seq: u64,
)
    requires
        stream.wf(),
        stream.intact(),
        target_seq <= stream.last_queued_seq,
        stream.sync_step(target_seq) is Submit ==> submitted.pending_ops.len() == 0
            && submitted.last_submitted_seq == stream.last_queued_seq
            && submitted.last_completed_seq == stream.last_completed_seq,
        !(stream.sync_step(target_seq) is Submit) ==> submitted == stream,
        submitted.sync_step(target_seq) is Wait ==> waited.last_completed_seq
            == submitted.last_submitted_seq,
        !(submitted.sync_step(target_seq) is Wait) ==> waited == submitted,
    ensures
        !(submitted.sync_step(target_seq) is Submit),
        waited.last_completed_seq >= target_seq,
{
}

/// The number that the first four bytes of a page stand for, the lowest first.
pub open spec fn page_number(page: Seq<u8>) -> int {
    page[0] + 256 * (page[1] + 256 * (page[2] + 256 * page[3]))
}

/// A fence page holds its number, and nothing else.
pub proof fn law_fences_hold_their_numbers(value: u32)
    ensures
        fence_page(value).len() == TT_STREAM_FENCE_SIZE_BYTES,
        page_number(fence_page(value)) == value,
        forall|i: int| 4 <= i < fence_page(value).len() ==> #[trigger] fence_page(value)[i] == 0,
{
    let page = fence_page(value);
    assert(page[0] == (value % 256) as u8);
    assert(page[1] == (value / 256 % 256) as u8);
    assert(page[2] == (value / 65536 % 256) as u8);
    assert(page[3] == (value / 16777216 % 256) as u8);
    assert(value % 256 + 256 * (value / 256 % 256 + 256 * (value / 65536 % 256 + 256 * (value
        / 16777216 % 256))) == value) by (bit_vector);
}

/// Nothing is done for a point that is complete; a stream submits only where the point was
/// not submitted, and waits only where work runs.
pub proof fn law_sync_does_no_more_than_it_has_to(stream: Stream, target_seq: u64)
    ensures
        target_seq <= stream.last_completed_seq ==> stream.sync_step(target_seq) is Done,
        stream.sync_step(target_seq) is Submit ==> target_seq > stream.last_submitted_seq
            && stream.pending_ops.len() > 0,
        stream.sync_step(target_seq) is Wait ==> stream.last_completed_seq
            < stream.last_submitted_seq && target_seq > stream.last_completed_seq,
        stream.sync_step(target_seq) is Done && target_seq > stream.last_completed_seq
            ==> stream.last_completed_seq >= stream.last_submitted_seq,
{
}

/// A batch has every operation that waits, and the number that it reaches is that of the
/// last of them.
pub proof fn law_batches_reach_their_last_operation(batch: Batch, ops: Seq<PendingOp>, submitted: u64, at: int)
    requires
        batch.is_of(ops, submitted),
        0 <= at < ops.len(),
    ensures
        batch.ops@ == ops,
        batch.highest_seq >= ops[at].seq,
        batch.highest_seq >= submitted,
        batch.highest_seq == submitted || exists|i: int|
            0 <= i < ops.len() && (#[trigger] ops[i]).seq == batch.highest_seq,
{
    lemma_highest(ops, submitted, ops.len());
}

proof fn lemma_highest(ops: Seq<PendingOp>, floor: u64, count: nat)
    requires
        count <= ops.len(),
    ensures
        forall|i: int| 0 <= i < count ==> (#[trigger] ops[i]).seq <= highest_seq(ops, floor, count),
        highest_seq(ops, floor, count) >= floor,
        highest_seq(ops, floor, count) == floor || exists|i: int|
            0 <= i < count && (#[trigger] ops[i]).seq == highest_seq(ops, floor, count),
    decreases count,
{
    if count > 0 {
        lemma_highest(ops, floor, (count - 1) as nat);
        assert(ops[count - 1] == ops[count - 1]);
    }
}

/// Nothing is asked for as long as what waits and what runs stay within their bounds, and
/// something as soon as they do not: a batch first.
pub proof fn law_pressure_keeps_the_bounds(stream: Stream)
    ensures
        stream.pressure() is Done <==> {
            &&& stream.pending_ops.len() < TT_STREAM_PENDING_OP_THRESHOLD
            &&& stream.last_submitted_seq < stream.last_completed_seq
                + TT_STREAM_IN_FLIGHT_THRESHOLD
        },
        stream.pressure() is Submit <==> stream.pending_ops.len()
            >= TT_STREAM_PENDING_OP_THRESHOLD,
{
}

/// A batch knows how many of its operations are workloads and how many are writes.
pub proof fn law_batches_count_their_operations(batch: Batch, ops: Seq<PendingOp>, submitted: u64)
    requires
        batch.is_of(ops, submitted),
    ensures
        batch.workload_ops == ops.filter(|op: PendingOp| op.work is Workload).len(),
        batch.write_ops == ops.filter(|op: PendingOp| op.work is WriteReplicated).len(),
{
    lemma_workloads(ops, ops.len());
    assert(ops.take(ops.len() as int) =~= ops);
}

proof fn lemma_workloads(ops: Seq<PendingOp>, count: nat)
    requires
        count <= ops.len(),
    ensures
        workloads(ops, count) == ops.take(count as int).filter(
            |op: PendingOp| op.work is Workload,
        ).len(),
        count - workloads(ops, count) == ops.take(count as int).filter(
            |op: PendingOp| op.work is WriteReplicated,
        ).len(),
    decreases count,
{
    reveal(Seq::filter);
    if count > 0 {
        lemma_workloads(ops, (count - 1) as nat);
        assert(ops.take(count as int).drop_last() =~= ops.take(count - 1));
        assert(ops.take(count as int).last() == ops[count - 1]);
    } else {
        assert(ops.take(0).len() == 0);
    }
}

} // verus!
