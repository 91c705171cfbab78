use vstd::prelude::*;

use crate::addr_space::{frames_wf, AddressSpace};
use crate::config::MAX_SYSCALL_NUM;
use crate::frame::FrameAllocator;

verus! {

/// Scheduling states a task can be in.
#[derive(Clone, Copy, Debug, PartialEq, Eq, Structural)]
pub enum TaskStatus {
    Ready,
    Running,
    Exited,
}

/// Everything the surrounding kernel hands a syscall handler about the
/// calling task: its address space, the physical frame pool, its
/// introspection record (status, first-run time, per-syscall counters), and
/// the latest reading of the monotonic microsecond counter. The scheduler
/// and the dispatch path maintain the record and the counter; the handlers
/// read them.
pub struct SyscallContext {
    pub addr_space: AddressSpace,
    pub frame_alloc: FrameAllocator,
    pub status: TaskStatus,
    /// When the task was first scheduled, in milliseconds since boot.
    pub first_run_ms: usize,
    /// How often the task has invoked each syscall identifier.
    pub syscall_times: [u32; MAX_SYSCALL_NUM],
    /// The monotonic counter's value, in microseconds since boot.
    pub now_us: usize,
}

impl SyscallContext {
    /// The context is sound: both owned structures keep their invariants,
    /// each mapped frame backs exactly one page and none sits in the free
    /// pool, and the task was first scheduled no later than now.
    pub open spec fn wf(&self) -> bool {
        &&& self.addr_space.wf()
        &&& self.frame_alloc.wf()
        &&& frames_wf(self.addr_space.page_table@, self.frame_alloc)
        &&& self.first_run_ms <= self.now_us as int / 1000
    }
}

} // verus!
