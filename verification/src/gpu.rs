//! Control state of the parallel executor: buffer sizing, launch geometry,
//! the iteration counter, and the guarded, retried initialization that
//! falls back to the in-process executor after the last failure.

use crate::params::{spec_executor_for, Executor, SimulationMode};
use crate::record::NODE_RECORD_BYTES;
use vstd::prelude::*;

verus! {

/// Threads per block of the force kernel.
pub const BLOCK_SIZE: u32 = 256;

/// Most nodes the executor accepts.
pub const MAX_NODES: u32 = 1_000_000;

/// Bytes of shared memory per block: one packed record per thread.
pub const SHARED_MEM_SIZE: u32 = 7168;

/// How often initialization is attempted before giving up.
pub const MAX_GPU_INIT_RETRIES: u32 = 3;

/// Base delay before a retry, in milliseconds.
pub const RETRY_DELAY_MS: u64 = 500;

/// The delay before retry `attempt` (counted from zero): doubles each
/// time, 500 ms, then 1000 ms, then 2000 ms.
pub fn retry_delay_ms(attempt: u32) -> (r: u64)
    requires
        attempt < MAX_GPU_INIT_RETRIES,
    ensures
        r == RETRY_DELAY_MS * (1u64 << attempt),
        attempt == 0 ==> r == 500u64,
        attempt == 1 ==> r == 1000u64,
        attempt == 2 ==> r == 2000u64,
{
    proof {
        assert(attempt < 3 ==> (1u64 << attempt) == if attempt == 0 {
            1u64
        } else if attempt == 1 {
            2u64
        } else {
            4u64
        }) by (bit_vector);
    }
    RETRY_DELAY_MS * (1u64 << attempt)
}

/// Device buffer size for a node count: 28 bytes per node.
pub fn buffer_bytes(num_nodes: u32) -> (r: u64)
    requires
        num_nodes <= MAX_NODES,
    ensures
        r == num_nodes * NODE_RECORD_BYTES,
{
    (num_nodes as u64) * (NODE_RECORD_BYTES as u64)
}

/// Kernel launch geometry for a node count: enough blocks of 256 threads
/// to cover every node, at least one block, and one record of shared
/// memory per thread.
pub fn launch_config(num_nodes: u32) -> (r: (u32, u32, u32))
    requires
        num_nodes <= MAX_NODES,
    ensures
        r.1 == BLOCK_SIZE,
        r.2 == SHARED_MEM_SIZE,
        r.0 >= 1,
        (r.0 - 1) * BLOCK_SIZE < if num_nodes == 0 {
            1u32
        } else {
            num_nodes
        },
        num_nodes <= r.0 * BLOCK_SIZE,
{
    let blocks_raw = (num_nodes + BLOCK_SIZE - 1) / BLOCK_SIZE;
    let blocks = if blocks_raw < 1 {
        1
    } else {
        blocks_raw
    };
    proof {
        assert((blocks - 1) * BLOCK_SIZE < if num_nodes == 0 {
            1u32
        } else {
            num_nodes
        } && num_nodes <= blocks * BLOCK_SIZE) by (nonlinear_arith)
            requires
                num_nodes <= MAX_NODES && BLOCK_SIZE == 256 && blocks_raw == (num_nodes + 255)
                    / 256 && blocks == if blocks_raw < 1 {
                    1u32
                } else {
                    blocks_raw
                },
        ;
    }
    (blocks, BLOCK_SIZE, SHARED_MEM_SIZE)
}

/// Host-side control state of the parallel executor: the node count its
/// device buffer was sized for and the step counter handed to the kernel.
#[derive(Debug, Clone, Copy, PartialEq, Eq, Structural)]
pub struct GpuState {
    pub num_nodes: u32,
    pub iteration_count: u32,
}

impl GpuState {
    /// Fresh state sized for a node count. Fails above the node limit.
    pub fn new(num_nodes: u32) -> (r: Result<GpuState, ()>)
        ensures
            num_nodes <= MAX_NODES <==> r is Ok,
            r matches Ok(s) ==> s == (GpuState { num_nodes, iteration_count: 0u32 }),
    {
        if num_nodes > MAX_NODES {
            Err(())
        } else {
            Ok(GpuState { num_nodes, iteration_count: 0 })
        }
    }

    /// Takes a new graph: an unchanged node count keeps buffer and step
    /// counter; a changed one resizes the buffer and restarts the counter.
    pub fn update_graph_data(&mut self, num_nodes: u32) -> (realloc: bool)
        requires
            num_nodes <= MAX_NODES,
        ensures
            realloc == (num_nodes != old(self).num_nodes),
            final(self).num_nodes == num_nodes,
            final(self).iteration_count == if num_nodes != old(self).num_nodes {
                0u32
            } else {
                old(self).iteration_count
            },
    {
        if num_nodes != self.num_nodes {
            self.num_nodes = num_nodes;
            self.iteration_count = 0;
            true
        } else {
            false
        }
    }

    /// One kernel step: the counter the kernel saw this step, counted on
    /// afterwards (wrapping at the integer limit, a diagnostic counter).
    pub fn step_counter(&mut self) -> (seen: u32)
        ensures
            seen == old(self).iteration_count,
            final(self).num_nodes == old(self).num_nodes,
            final(self).iteration_count == if old(self).iteration_count == 0xFFFF_FFFFu32 {
                0u32
            } else {
                (old(self).iteration_count + 1) as u32
            },
    {
        let seen = self.iteration_count;
        if self.iteration_count == 0xFFFF_FFFF {
            self.iteration_count = 0;
        } else {
            self.iteration_count = self.iteration_count + 1;
        }
        seen
    }
}

/// The lifecycle of the guarded initialization: never started, in flight,
/// available, or given up after the last failure.
#[derive(Debug, Clone, Copy, PartialEq, Eq, Structural)]
pub struct GpuInitTracker {
    /// Whether an initialization attempt is in flight.
    pub in_progress: bool,
    /// Attempts that have failed so far.
    pub failures: u32,
    /// Whether the executor came up.
    pub available: bool,
    /// Whether initialization failed for good.
    pub gave_up: bool,
}

/// The tracker after one failed attempt: the slot freed, nothing
/// available, one more failure on record, given up for good when it was
/// the last allowed one.
pub open spec fn spec_failed_attempt(t: GpuInitTracker) -> GpuInitTracker {
    GpuInitTracker {
        in_progress: false,
        failures: (t.failures + 1) as u32,
        available: false,
        gave_up: t.failures + 1 == MAX_GPU_INIT_RETRIES,
    }
}

impl GpuInitTracker {
    /// Before any attempt.
    pub fn new() -> (r: GpuInitTracker)
        ensures
            r == (GpuInitTracker {
                in_progress: false,
                failures: 0u32,
                available: false,
                gave_up: false,
            }),
    {
        GpuInitTracker { in_progress: false, failures: 0, available: false, gave_up: false }
    }

    /// Claims the single in-flight slot. A second claim while one
    /// initialization runs is refused and changes nothing.
    pub fn try_begin(&mut self) -> (r: Result<(), ()>)
        ensures
            old(self).in_progress ==> r is Err && *final(self) == *old(self),
            !old(self).in_progress ==> r is Ok && *final(self) == (GpuInitTracker {
                in_progress: true,
                ..*old(self)
            }),
    {
        if self.in_progress {
            Err(())
        } else {
            self.in_progress = true;
            Ok(())
        }
    }

    /// Records a failed attempt and releases the slot. After the last
    /// allowed failure the tracker gives up for good: the layout service
    /// then runs on the in-process executor only.
    pub fn record_failure(&mut self)
        requires
            old(self).in_progress,
            old(self).failures < MAX_GPU_INIT_RETRIES,
        ensures
            *final(self) == spec_failed_attempt(*old(self)),
            final(self).in_progress == false,
            final(self).available == false,
            final(self).failures == old(self).failures + 1,
            final(self).gave_up == (old(self).failures + 1 == MAX_GPU_INIT_RETRIES),
    {
        self.in_progress = false;
        self.available = false;
        self.failures = self.failures + 1;
        self.gave_up = self.failures == MAX_GPU_INIT_RETRIES;
    }

    /// Records a successful attempt and releases the slot.
    pub fn record_success(&mut self)
        requires
            old(self).in_progress,
        ensures
            *final(self) == (GpuInitTracker {
                in_progress: false,
                failures: old(self).failures,
                available: true,
                gave_up: false,
            }),
    {
        self.in_progress = false;
        self.available = true;
        self.gave_up = false;
    }

    /// Whether another attempt may start.
    pub fn may_retry(&self) -> (r: bool)
        ensures
            r == (!self.gave_up && !self.available && self.failures
                < MAX_GPU_INIT_RETRIES),
    {
        !self.gave_up && !self.available && self.failures < MAX_GPU_INIT_RETRIES
    }
}

/// Failing every allowed attempt exhausts initialization: starting from a
/// fresh tracker, the third recorded failure gives up for good, no further
/// retry may start, and — the executor being unavailable — every
/// simulation mode then runs on the in-process executor.
pub proof fn lemma_three_failures_exhaust(mode: SimulationMode)
    ensures
        ({
            let fresh = GpuInitTracker {
                in_progress: false,
                failures: 0u32,
                available: false,
                gave_up: false,
            };
            let t = spec_failed_attempt(spec_failed_attempt(spec_failed_attempt(fresh)));
            &&& t.failures == MAX_GPU_INIT_RETRIES
            &&& t.gave_up
            &&& !t.available
            &&& !(!t.gave_up && !t.available && t.failures < MAX_GPU_INIT_RETRIES)
            &&& spec_executor_for(mode, t.available) == Executor::Cpu
        }),
{
}

} // verus!
