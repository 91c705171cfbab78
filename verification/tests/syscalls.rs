use vmcore::addr_space::AddressSpace;
use vmcore::config::{MAX_SYSCALL_NUM, PAGE_SIZE};
use vmcore::frame::FrameAllocator;
use vmcore::syscall::{
    sys_exit, sys_get_time, sys_mmap, sys_munmap, sys_set_priority, sys_task_info, sys_yield,
};
use vmcore::task::{SyscallContext, TaskStatus};

fn fresh_ctx() -> SyscallContext {
    SyscallContext {
        addr_space: AddressSpace::new(),
        frame_alloc: FrameAllocator::new(0x100, 0x200),
        status: TaskStatus::Running,
        first_run_ms: 0,
        syscall_times: [0u32; MAX_SYSCALL_NUM],
        now_us: 0,
    }
}

#[test]
fn map_then_unmap_round_trip() {
    let mut ctx = fresh_ctx();
    assert_eq!(sys_mmap(&mut ctx, 0x10000, 2 * PAGE_SIZE, 0x3), 0);
    let areas_before = ctx.addr_space.areas.clone();
    assert_eq!(sys_mmap(&mut ctx, 0x20000, PAGE_SIZE, 0x1), 0);
    assert_eq!(sys_munmap(&mut ctx, 0x20000, PAGE_SIZE), 0);
    assert_eq!(ctx.addr_space.areas, areas_before);
    assert!(ctx.addr_space.page_table.find_pte(0x10).is_some());
    assert!(ctx.addr_space.page_table.find_pte(0x11).is_some());
    assert!(ctx.addr_space.page_table.find_pte(0x20).is_none());
}

#[test]
fn map_rejects_unaligned_start() {
    let mut ctx = fresh_ctx();
    assert_eq!(sys_mmap(&mut ctx, 0x1001, PAGE_SIZE, 0x3), -1);
    assert_eq!(ctx.addr_space.areas.len(), 0);
}

#[test]
fn map_rejects_zero_port() {
    let mut ctx = fresh_ctx();
    assert_eq!(sys_mmap(&mut ctx, 0x1000, PAGE_SIZE, 0x0), -1);
}

#[test]
fn map_rejects_high_port_bits() {
    let mut ctx = fresh_ctx();
    assert_eq!(sys_mmap(&mut ctx, 0x1000, PAGE_SIZE, 0x8), -1);
    assert_eq!(sys_mmap(&mut ctx, 0x1000, PAGE_SIZE, 0xff), -1);
}

#[test]
fn map_rejects_overlap_with_prior_map() {
    let mut ctx = fresh_ctx();
    assert_eq!(sys_mmap(&mut ctx, 0x10000, 3 * PAGE_SIZE, 0x3), 0);
    // overlaps the tail page of the prior mapping
    assert_eq!(sys_mmap(&mut ctx, 0x12000, 2 * PAGE_SIZE, 0x3), -1);
    assert_eq!(ctx.addr_space.areas.len(), 1);
}

#[test]
fn map_accepts_empty_span() {
    let mut ctx = fresh_ctx();
    assert_eq!(sys_mmap(&mut ctx, 0x10000, 0, 0x7), 0);
    assert_eq!(ctx.addr_space.areas.len(), 0);
    assert_eq!(sys_munmap(&mut ctx, 0x10000, 0), 0);
}

#[test]
fn map_sets_permissions_from_port() {
    let mut ctx = fresh_ctx();
    assert_eq!(sys_mmap(&mut ctx, 0x10000, PAGE_SIZE, 0x5), 0);
    let entry = ctx.addr_space.page_table.find_pte(0x10).unwrap();
    assert!(entry.perm.r);
    assert!(!entry.perm.w);
    assert!(entry.perm.x);
    assert!(entry.perm.u);
}

#[test]
fn map_fails_when_frames_run_out() {
    let mut ctx = fresh_ctx();
    ctx.frame_alloc = FrameAllocator::new(0x100, 0x102);
    assert_eq!(sys_mmap(&mut ctx, 0x10000, 3 * PAGE_SIZE, 0x3), -1);
    assert_eq!(ctx.addr_space.areas.len(), 0);
    assert_eq!(sys_mmap(&mut ctx, 0x10000, 2 * PAGE_SIZE, 0x3), 0);
}

#[test]
fn unmap_rejects_unaligned_start() {
    let mut ctx = fresh_ctx();
    assert_eq!(sys_mmap(&mut ctx, 0x10000, PAGE_SIZE, 0x3), 0);
    assert_eq!(sys_munmap(&mut ctx, 0x10001, PAGE_SIZE), -1);
    assert!(ctx.addr_space.page_table.find_pte(0x10).is_some());
}

#[test]
fn unmap_rejects_unmapped_page_and_touches_nothing() {
    let mut ctx = fresh_ctx();
    assert_eq!(sys_mmap(&mut ctx, 0x10000, PAGE_SIZE, 0x3), 0);
    assert_eq!(sys_mmap(&mut ctx, 0x30000, PAGE_SIZE, 0x3), 0);
    // the middle range was never mapped
    assert_eq!(sys_munmap(&mut ctx, 0x20000, PAGE_SIZE), -1);
    // a range reaching past a mapping fails too, and unmaps nothing
    assert_eq!(sys_munmap(&mut ctx, 0x10000, 2 * PAGE_SIZE), -1);
    assert_eq!(ctx.addr_space.areas.len(), 2);
    assert!(ctx.addr_space.page_table.find_pte(0x10).is_some());
    assert!(ctx.addr_space.page_table.find_pte(0x30).is_some());
}

#[test]
fn map_rejects_wrapping_range() {
    let mut ctx = fresh_ctx();
    let start = usize::MAX - (PAGE_SIZE - 1);
    assert_eq!(sys_mmap(&mut ctx, start, 2 * PAGE_SIZE, 0x3), -1);
    assert_eq!(sys_munmap(&mut ctx, start, 2 * PAGE_SIZE), -1);
    assert_eq!(ctx.addr_space.areas.len(), 0);
}

#[test]
fn unmap_first_page_trims_the_area() {
    let mut ctx = fresh_ctx();
    assert_eq!(sys_mmap(&mut ctx, 0x10000, 3 * PAGE_SIZE, 0x3), 0);
    assert_eq!(sys_munmap(&mut ctx, 0x10000, PAGE_SIZE), 0);
    assert!(ctx.addr_space.page_table.find_pte(0x10).is_none());
    assert!(ctx.addr_space.page_table.find_pte(0x11).is_some());
    assert!(ctx.addr_space.page_table.find_pte(0x12).is_some());
    assert_eq!(ctx.addr_space.areas.len(), 1);
    assert_eq!(ctx.addr_space.areas[0].start_vpn, 0x11);
    assert_eq!(ctx.addr_space.areas[0].end_vpn, 0x13);
}

#[test]
fn unmap_middle_page_splits_the_area() {
    let mut ctx = fresh_ctx();
    assert_eq!(sys_mmap(&mut ctx, 0x10000, 3 * PAGE_SIZE, 0x7), 0);
    assert_eq!(sys_munmap(&mut ctx, 0x11000, PAGE_SIZE), 0);
    assert!(ctx.addr_space.page_table.find_pte(0x10).is_some());
    assert!(ctx.addr_space.page_table.find_pte(0x11).is_none());
    assert!(ctx.addr_space.page_table.find_pte(0x12).is_some());
    assert_eq!(ctx.addr_space.areas.len(), 2);
    assert_eq!(ctx.addr_space.areas[0].start_vpn, 0x10);
    assert_eq!(ctx.addr_space.areas[0].end_vpn, 0x11);
    assert_eq!(ctx.addr_space.areas[1].start_vpn, 0x12);
    assert_eq!(ctx.addr_space.areas[1].end_vpn, 0x13);
    // both halves keep the area's permissions
    assert!(ctx.addr_space.areas[0].perm.x && ctx.addr_space.areas[1].perm.x);
}

#[test]
fn unmap_spanning_two_whole_areas_succeeds() {
    let mut ctx = fresh_ctx();
    assert_eq!(sys_mmap(&mut ctx, 0x10000, PAGE_SIZE, 0x3), 0);
    assert_eq!(sys_mmap(&mut ctx, 0x11000, PAGE_SIZE, 0x1), 0);
    assert_eq!(sys_munmap(&mut ctx, 0x10000, 2 * PAGE_SIZE), 0);
    assert_eq!(ctx.addr_space.areas.len(), 0);
    assert!(ctx.addr_space.page_table.find_pte(0x10).is_none());
    assert!(ctx.addr_space.page_table.find_pte(0x11).is_none());
}

#[test]
fn unmap_frees_frames_for_reuse() {
    let mut ctx = fresh_ctx();
    ctx.frame_alloc = FrameAllocator::new(0x100, 0x101);
    assert_eq!(sys_mmap(&mut ctx, 0x10000, PAGE_SIZE, 0x3), 0);
    assert_eq!(sys_mmap(&mut ctx, 0x20000, PAGE_SIZE, 0x3), -1);
    assert_eq!(sys_munmap(&mut ctx, 0x10000, PAGE_SIZE), 0);
    assert_eq!(sys_mmap(&mut ctx, 0x20000, PAGE_SIZE, 0x3), 0);
}

#[test]
fn get_time_splits_microseconds() {
    let mut ctx = fresh_ctx();
    assert_eq!(sys_mmap(&mut ctx, 0x10000, PAGE_SIZE, 0x3), 0);
    ctx.now_us = 1_500_000;
    let (r, write) = sys_get_time(&ctx, 0x10008, 0);
    assert_eq!(r, 0);
    let w = write.unwrap();
    assert_eq!(w.val.sec, 1);
    assert_eq!(w.val.usec, 500_000);
    // frames 0x100 and up back the first mapping in order
    assert_eq!(w.pa, 0x100 * PAGE_SIZE + 8);
}

#[test]
fn get_time_fails_on_unmapped_pointer() {
    let ctx = fresh_ctx();
    let (r, write) = sys_get_time(&ctx, 0x10008, 0);
    assert_eq!(r, -1);
    assert!(write.is_none());
}

#[test]
fn task_info_reports_running_and_elapsed_time() {
    let mut ctx = fresh_ctx();
    assert_eq!(sys_mmap(&mut ctx, 0x10000, PAGE_SIZE, 0x3), 0);
    ctx.first_run_ms = 200;
    ctx.now_us = 1_500_000;
    ctx.syscall_times[169] = 3;
    let (r, write) = sys_task_info(&ctx, 0x10000);
    assert_eq!(r, 0);
    let w = write.unwrap();
    assert_eq!(w.val.status, TaskStatus::Running);
    assert_eq!(w.val.time, 1300);
    assert_eq!(w.val.syscall_times[169], 3);
    assert_eq!(w.val.syscall_times[0], 0);
}

#[test]
fn task_info_fails_on_unmapped_pointer() {
    let ctx = fresh_ctx();
    let (r, write) = sys_task_info(&ctx, 0x999000);
    assert_eq!(r, -1);
    assert!(write.is_none());
}

#[test]
fn set_priority_always_fails() {
    assert_eq!(sys_set_priority(-1), -1);
    assert_eq!(sys_set_priority(0), -1);
    assert_eq!(sys_set_priority(5), -1);
    assert_eq!(sys_set_priority(isize::MAX), -1);
}

#[test]
fn yield_returns_zero() {
    assert_eq!(sys_yield(), 0);
}

#[test]
fn exit_carries_the_exit_code() {
    let req = sys_exit(7);
    assert_eq!(req.exit_code, 7);
    assert_eq!(sys_exit(-3).exit_code, -3);
}
