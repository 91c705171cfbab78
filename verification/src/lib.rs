//! Virtual-memory core of a small cooperative kernel: a page table mapping
//! virtual pages to physical frames, per-task sets of non-overlapping mapping
//! areas, address translation for user pointers, and the syscall handlers
//! built on top of them.

pub mod addr_space;
pub mod config;
pub mod frame;
pub mod laws;
pub mod page_table;
pub mod perm;
pub mod syscall;
pub mod task;
