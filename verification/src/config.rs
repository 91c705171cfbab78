use vstd::prelude::*;

verus! {

/// Bytes in one page of virtual or physical memory.
pub const PAGE_SIZE: usize = 4096;

/// Exclusive upper bound on physical page numbers. Keeping every frame below
/// it guarantees that `ppn * PAGE_SIZE` plus a page offset fits in `usize`.
pub const PPN_LIMIT: usize = 0x100000;

/// Number of distinct syscall identifiers a task's counter table tracks.
pub const MAX_SYSCALL_NUM: usize = 500;

} // verus!
