//! Counters of what launches cost.
use vstd::prelude::*;

verus! {

/// Counters of launches; each stays at its largest value once it is there.
#[derive(Clone, Copy, Debug, PartialEq, Eq, Structural)]
pub struct LaunchProfileSnapshot {
    pub kernel_cube_launches: u64,
    pub queued_launches: u64,
    pub immediate_launches: u64,
    pub prepare_calls: u64,
    pub prepare_ns: u64,
    pub bridge_calls: u64,
    pub bridge_ns: u64,
    pub compile_calls: u64,
    pub compile_ns: u64,
    pub immediate_submit_calls: u64,
    pub immediate_submit_ns: u64,
    pub pending_submit_batches: u64,
    pub pending_submit_ops: u64,
    pub pending_submit_workloads: u64,
    pub pending_submit_writes: u64,
    pub pending_submit_ns: u64,
    pub completion_wait_calls: u64,
    pub completion_wait_ns: u64,
}

/// The sum, or the largest 64-bit number where the sum is larger.
pub open spec fn plus(a: u64, b: int) -> u64 {
    if a + b > u64::MAX {
        u64::MAX
    } else {
        (a + b) as u64
    }
}

fn add_to(a: u64, b: u64) -> (sum: u64)
    ensures
        sum == plus(a, b as int),
{
    if b > u64::MAX - a {
        u64::MAX
    } else {
        a + b
    }
}

/// A time in nanoseconds, or the largest 64-bit number where it is longer.
pub open spec fn clamped(nanos: u128) -> u64 {
    if nanos > u64::MAX {
        u64::MAX
    } else {
        nanos as u64
    }
}

/// A time in nanoseconds, or the largest 64-bit number where it is longer.
pub fn nanos(duration_ns: u128) -> (nanos: u64)
    ensures
        nanos == clamped(duration_ns),
{
    if duration_ns > u64::MAX as u128 {
        u64::MAX
    } else {
        duration_ns as u64
    }
}

impl Default for LaunchProfileSnapshot {
    fn default() -> (snapshot: Self)
        ensures
            snapshot == LaunchProfileSnapshot::zero(),
    {
        LaunchProfileSnapshot {
            kernel_cube_launches: 0,
            queued_launches: 0,
            immediate_launches: 0,
            prepare_calls: 0,
            prepare_ns: 0,
            bridge_calls: 0,
            bridge_ns: 0,
            compile_calls: 0,
            compile_ns: 0,
            immediate_submit_calls: 0,
            immediate_submit_ns: 0,
            pending_submit_batches: 0,
            pending_submit_ops: 0,
            pending_submit_workloads: 0,
            pending_submit_writes: 0,
            pending_submit_ns: 0,
            completion_wait_calls: 0,
            completion_wait_ns: 0,
        }
    }
}

impl LaunchProfileSnapshot {
    pub open spec fn zero() -> LaunchProfileSnapshot {
        LaunchProfileSnapshot {
            kernel_cube_launches: 0,
            queued_launches: 0,
            immediate_launches: 0,
            prepare_calls: 0,
            prepare_ns: 0,
            bridge_calls: 0,
            bridge_ns: 0,
            compile_calls: 0,
            compile_ns: 0,
            immediate_submit_calls: 0,
            immediate_submit_ns: 0,
            pending_submit_batches: 0,
            pending_submit_ops: 0,
            pending_submit_workloads: 0,
            pending_submit_writes: 0,
            pending_submit_ns: 0,
            completion_wait_calls: 0,
            completion_wait_ns: 0,
        }
    }

    /// Count a launch, queued or immediate.
    pub fn record_kernel_cube_launch(&mut self, queued: bool)
        ensures
            *final(self) == (LaunchProfileSnapshot {
                kernel_cube_launches: plus(old(self).kernel_cube_launches, 1),
                queued_launches: (if queued {
                    plus(old(self).queued_launches, 1)
                } else {
                    old(self).queued_launches
                }),
                immediate_launches: (if queued {
                    old(self).immediate_launches
                } else {
                    plus(old(self).immediate_launches, 1)
                }),
                ..*old(self)
            }),
    {
        self.kernel_cube_launches = add_to(self.kernel_cube_launches, 1);
        if queued {
            self.queued_launches = add_to(self.queued_launches, 1);
        } else {
            self.immediate_launches = add_to(self.immediate_launches, 1);
        }
    }

    /// Count the preparation of a launch.
    pub fn record_prepare(&mut self, duration_ns: u128)
        ensures
            *final(self) == (LaunchProfileSnapshot {
                prepare_calls: plus(old(self).prepare_calls, 1),
                prepare_ns: plus(old(self).prepare_ns, clamped(duration_ns) as int),
                ..*old(self)
            }),
    {
        self.prepare_calls = add_to(self.prepare_calls, 1);
        self.prepare_ns = add_to(self.prepare_ns, nanos(duration_ns));
    }

    /// Count the bridging of a launch's buffers.
    pub fn record_bridge(&mut self, duration_ns: u128)
        ensures
            *final(self) == (LaunchProfileSnapshot {
                bridge_calls: plus(old(self).bridge_calls, 1),
                bridge_ns: plus(old(self).bridge_ns, clamped(duration_ns) as int),
                ..*old(self)
            }),
    {
        self.bridge_calls = add_to(self.bridge_calls, 1);
        self.bridge_ns = add_to(self.bridge_ns, nanos(duration_ns));
    }

    /// Count the making of a program.
    pub fn record_compile(&mut self, duration_ns: u128)
        ensures
            *final(self) == (LaunchProfileSnapshot {
                compile_calls: plus(old(self).compile_calls, 1),
                compile_ns: plus(old(self).compile_ns, clamped(duration_ns) as int),
                ..*old(self)
            }),
    {
        self.compile_calls = add_to(self.compile_calls, 1);
        self.compile_ns = add_to(self.compile_ns, nanos(duration_ns));
    }

    /// Count a workload that was submitted at once.
    pub fn record_immediate_submit(&mut self, duration_ns: u128)
        ensures
            *final(self) == (LaunchProfileSnapshot {
                immediate_submit_calls: plus(old(self).immediate_submit_calls, 1),
                immediate_submit_ns: plus(old(self).immediate_submit_ns, clamped(duration_ns) as int),
                ..*old(self)
            }),
    {
        self.immediate_submit_calls = add_to(self.immediate_submit_calls, 1);
        self.immediate_submit_ns = add_to(self.immediate_submit_ns, nanos(duration_ns));
    }

    /// Count a batch that was submitted.
    pub fn record_pending_submit(
        &mut self,
        batch_size: usize,
        workload_ops: usize,
        write_ops: usize,
        duration_ns: u128,
    )
        ensures
            *final(self) == (LaunchProfileSnapshot {
                pending_submit_batches: plus(old(self).pending_submit_batches, 1),
                pending_submit_ops: plus(old(self).pending_submit_ops, batch_size as int),
                pending_submit_workloads: plus(
                    old(self).pending_submit_workloads,
                    workload_ops as int,
                ),
                pending_submit_writes: plus(old(self).pending_submit_writes, write_ops as int),
                pending_submit_ns: plus(old(self).pending_submit_ns, clamped(duration_ns) as int),
                ..*old(self)
            }),
    {
        self.pending_submit_batches = add_to(self.pending_submit_batches, 1);
        self.pending_submit_ops = add_to(self.pending_submit_ops, batch_size as u64);
        self.pending_submit_workloads = add_to(self.pending_submit_workloads, workload_ops as u64);
        self.pending_submit_writes = add_to(self.pending_submit_writes, write_ops as u64);
        self.pending_submit_ns = add_to(self.pending_submit_ns, nanos(duration_ns));
    }

    /// Count a wait for completion.
    pub fn record_completion_wait(&mut self, duration_ns: u128)
        ensures
            *final(self) == (LaunchProfileSnapshot {
                completion_wait_calls: plus(old(self).completion_wait_calls, 1),
                completion_wait_ns: plus(old(self).completion_wait_ns, clamped(duration_ns) as int),
                ..*old(self)
            }),
    {
        self.completion_wait_calls = add_to(self.completion_wait_calls, 1);
        self.completion_wait_ns = add_to(self.completion_wait_ns, nanos(duration_ns));
    }
}

/// A counter never goes down.
pub proof fn law_counters_never_go_down(counter: u64, amount: int)
    requires
        amount >= 0,
    ensures
        plus(counter, amount) >= counter,
{
}

/// Counters add up what is counted, as far as they reach.
pub proof fn law_counters_add_up(counter: u64, first: int, second: int)
    requires
        first >= 0,
        second >= 0,
    ensures
        plus(plus(counter, first), second) == plus(counter, first + second),
        counter + first <= u64::MAX ==> plus(counter, first) == counter + first,
        counter + first > u64::MAX ==> plus(counter, first) == u64::MAX,
{
}

/// A time is counted as it is, as far as the counters reach, and no time counts for more than
/// a longer one.
pub proof fn law_times_are_counted_as_they_are(shorter: u128, longer: u128)
    requires
        shorter <= longer,
    ensures
        clamped(shorter) <= clamped(longer),
        shorter <= u64::MAX ==> clamped(shorter) == shorter,
        clamped(longer) <= longer,
{
}

} // verus!
