use vstd::prelude::*;

use crate::addr_space::{clip_areas, MapArea};
use crate::config::{MAX_SYSCALL_NUM, PAGE_SIZE};
use crate::page_table::{is_page_aligned, translate_addr, translate_va, vpn_ceil, vpn_floor};
use crate::perm::{perm_of_port, port_is_valid, MapPermission};
use crate::task::{SyscallContext, TaskStatus};

verus! {

/// Microseconds in one second.
pub const MICROS_PER_SEC: usize = 1000000;

/// Microseconds in one millisecond.
pub const MICROS_PER_MILLI: usize = 1000;

/// Elapsed time since boot, split into whole seconds and the microseconds
/// within the current second.
#[derive(Clone, Copy, Debug, PartialEq, Eq, Structural)]
pub struct TimeVal {
    pub sec: usize,
    pub usec: usize,
}

/// What `sys_task_info` reports about the calling task.
#[derive(Clone, Copy, Debug)]
pub struct TaskInfo {
    pub status: TaskStatus,
    pub syscall_times: [u32; MAX_SYSCALL_NUM],
    pub time: usize,
}

/// A value a handler asks to have stored at a physical address: the result
/// of translating a user pointer. The surrounding kernel, which can reach
/// physical memory, performs the raw store.
#[derive(Debug)]
pub struct UserWrite<T> {
    pub pa: usize,
    pub val: T,
}

/// A task's request to terminate, consumed by the scheduler; control never
/// returns to the requesting task.
#[derive(Clone, Copy, Debug, PartialEq, Eq, Structural)]
pub struct ExitRequest {
    pub exit_code: i32,
}

/// Ends the calling task. The surrounding kernel hands the request to the
/// scheduler and never resumes the caller.
pub fn sys_exit(exit_code: i32) -> (r: ExitRequest)
    ensures
        r.exit_code == exit_code,
{
    ExitRequest { exit_code }
}

/// Gives the processor up so another ready task may run; reports success
/// once the scheduler resumes the caller.
pub fn sys_yield() -> (r: isize)
    ensures
        r == 0,
{
    0
}

/// Priority scheduling is not part of this stage: every request is refused.
pub fn sys_set_priority(_prio: isize) -> (r: isize)
    ensures
        r == -1,
{
    -1
}

/// Reads the microsecond counter, splits it into seconds and microseconds,
/// and asks for the pair to be stored through the translated user pointer
/// `ts`. Fails only when `ts` points into an unmapped page.
pub fn sys_get_time(ctx: &SyscallContext, ts: usize, _tz: usize) -> (r: (
    isize,
    Option<UserWrite<TimeVal>>,
))
    requires
        ctx.wf(),
    ensures
        r.0 == 0 || r.0 == -1,
        (r.0 == 0) == (translate_va(ctx.addr_space.page_table@, ts) is Some),
        r.0 == -1 ==> r.1 is None,
        r.0 == 0 ==> (r.1 matches Some(w) && translate_va(ctx.addr_space.page_table@, ts)
            == Some(w.pa as int) && w.val.sec == ctx.now_us as int / (MICROS_PER_SEC as int)
            && w.val.usec == ctx.now_us as int % (MICROS_PER_SEC as int)),
{
    match translate_addr(&ctx.addr_space.page_table, ts) {
        Some(pa) => {
            let us = ctx.now_us;
            (
                0,
                Some(
                    UserWrite {
                        pa,
                        val: TimeVal { sec: us / MICROS_PER_SEC, usec: us % MICROS_PER_SEC },
                    },
                ),
            )
        },
        None => (-1, None),
    }
}

/// Composes the calling task's introspection record: it is running, its
/// syscall counters are as the dispatch path left them, and its elapsed time
/// is the difference between now and its first scheduling, in milliseconds.
/// Asks for the record to be stored through the translated user pointer
/// `ti`; fails only when `ti` points into an unmapped page.
pub fn sys_task_info(ctx: &SyscallContext, ti: usize) -> (r: (
    isize,
    Option<UserWrite<TaskInfo>>,
))
    requires
        ctx.wf(),
    ensures
        r.0 == 0 || r.0 == -1,
        (r.0 == 0) == (translate_va(ctx.addr_space.page_table@, ti) is Some),
        r.0 == -1 ==> r.1 is None,
        r.0 == 0 ==> (r.1 matches Some(w) && translate_va(ctx.addr_space.page_table@, ti)
            == Some(w.pa as int) && w.val.status == TaskStatus::Running
            && w.val.syscall_times == ctx.syscall_times && w.val.time == ctx.now_us as int
            / (MICROS_PER_MILLI as int) - ctx.first_run_ms),
{
    match translate_addr(&ctx.addr_space.page_table, ti) {
        Some(pa) => {
            let now_ms = ctx.now_us / MICROS_PER_MILLI;
            let time = now_ms - ctx.first_run_ms;
            (
                0,
                Some(
                    UserWrite {
                        pa,
                        val: TaskInfo {
                            status: TaskStatus::Running,
                            syscall_times: ctx.syscall_times,
                            time,
                        },
                    },
                ),
            )
        },
        None => (-1, None),
    }
}

/// When a `map` request is accepted: the range's end does not wrap the
/// address width, the start is page-aligned, the mask names valid
/// permissions, no page of the range is mapped yet, and the frame pool can
/// back every page of the range.
pub open spec fn mmap_accepts(c: SyscallContext, start: usize, len: usize, port: usize) -> bool {
    &&& start + len <= usize::MAX
    &&& is_page_aligned(start)
    &&& port_is_valid(port)
    &&& forall|vpn: usize|
        vpn_floor(start) <= vpn < vpn_ceil(start + len)
            ==> !(#[trigger] c.addr_space.page_table@.dom().contains(vpn))
    &&& vpn_ceil(start + len) - vpn_floor(start) <= c.frame_alloc.avail()
}

/// How a successful `map` changes the context. An empty page span changes
/// nothing. Otherwise one new area covers exactly the requested range, each
/// of its pages is mapped with the mask's permissions, every other page and
/// every other part of the context are untouched, and one frame per page
/// has left the pool.
pub open spec fn mmap_updates(
    c0: SyscallContext,
    c1: SyscallContext,
    start: usize,
    len: usize,
    port: usize,
) -> bool {
    let s = vpn_floor(start);
    let e = vpn_ceil(start + len);
    if s == e {
        c1 == c0
    } else {
        &&& c1.addr_space.areas@ == c0.addr_space.areas@.push(
            MapArea { start_vpn: s as usize, end_vpn: e as usize, perm: perm_of_port(port) },
        )
        &&& forall|vpn: usize|
            s <= vpn < e ==> (#[trigger] c1.addr_space.page_table@.dom().contains(vpn))
                && c1.addr_space.page_table@[vpn].perm == perm_of_port(port)
        &&& forall|vpn: usize|
            !(s <= vpn < e) ==> ((#[trigger] c1.addr_space.page_table@.dom().contains(vpn))
                == c0.addr_space.page_table@.dom().contains(vpn)
                && (c0.addr_space.page_table@.dom().contains(vpn)
                    ==> c1.addr_space.page_table@[vpn] == c0.addr_space.page_table@[vpn]))
        &&& c1.frame_alloc.avail() == c0.frame_alloc.avail() - (e - s)
        &&& c1.status == c0.status
        &&& c1.first_run_ms == c0.first_run_ms
        &&& c1.syscall_times == c0.syscall_times
        &&& c1.now_us == c0.now_us
    }
}

/// Handles the `mmap` syscall: validates the arguments and the range, then
/// maps it. Returns 0 exactly when the request is accepted and -1 otherwise;
/// a refused request leaves the context untouched.
pub fn sys_mmap(ctx: &mut SyscallContext, start: usize, len: usize, port: usize) -> (r: isize)
    requires
        old(ctx).wf(),
    ensures
        final(ctx).wf(),
        r == 0 || r == -1,
        (r == 0) == mmap_accepts(*old(ctx), start, len, port),
        r == 0 ==> mmap_updates(*old(ctx), *final(ctx), start, len, port),
        r == -1 ==> *final(ctx) == *old(ctx),
{
    if start % PAGE_SIZE != 0 {
        return -1;
    }
    if !MapPermission::port_valid(port) {
        return -1;
    }
    let sum = match start.checked_add(len) {
        Some(sum) => sum,
        None => {
            return -1;
        },
    };
    let svpn = start / PAGE_SIZE;
    let evpn = if sum % PAGE_SIZE == 0 {
        sum / PAGE_SIZE
    } else {
        sum / PAGE_SIZE + 1
    };
    proof {
        assert(svpn == vpn_floor(start));
        assert(evpn == vpn_ceil(sum as int));
        assert(svpn <= evpn);
    }
    let mut vpn = svpn;
    while vpn < evpn
        invariant
            *ctx == *old(ctx),
            old(ctx).wf(),
            start + len <= usize::MAX,
            is_page_aligned(start),
            port_is_valid(port),
            svpn == vpn_floor(start),
            evpn == vpn_ceil(start + len),
            svpn <= vpn <= evpn,
            forall|v: usize|
                svpn <= v < vpn ==> !(#[trigger] ctx.addr_space.page_table@.dom().contains(v)),
        decreases evpn - vpn,
    {
        if let Some(_entry) = ctx.addr_space.page_table.find_pte(vpn) {
            return -1;
        }
        vpn = vpn + 1;
    }
    let count = evpn - svpn;
    let fresh = ctx.frame_alloc.end - ctx.frame_alloc.current;
    if count > fresh && count - fresh > ctx.frame_alloc.recycled.len() {
        return -1;
    }
    if svpn < evpn {
        let perm = MapPermission::from_port(port);
        ctx.addr_space.insert_framed_area(&mut ctx.frame_alloc, svpn, evpn, perm);
    }
    proof {
        assert(mmap_updates(*old(ctx), *ctx, start, len, port));
    }
    0
}

/// When an `unmap` request is accepted: the range's end does not wrap the
/// address width, the start is page-aligned, and every page of the span is
/// mapped.
pub open spec fn munmap_accepts(c: SyscallContext, start: usize, len: usize) -> bool {
    &&& start + len <= usize::MAX
    &&& is_page_aligned(start)
    &&& forall|vpn: usize|
        vpn_floor(start) <= vpn < vpn_ceil(start + len)
            ==> (#[trigger] c.addr_space.page_table@.dom().contains(vpn))
}

/// How a successful `unmap` changes the context. An empty page span changes
/// nothing. Otherwise every area is clipped against the span in place — one
/// wholly inside it disappears, one straddling a boundary keeps the parts
/// outside — every page of the span becomes unmapped, every other page and
/// every other part of the context are untouched, and one freed frame per
/// page goes back to the pool.
pub open spec fn munmap_updates(
    c0: SyscallContext,
    c1: SyscallContext,
    start: usize,
    len: usize,
) -> bool {
    let s = vpn_floor(start);
    let e = vpn_ceil(start + len);
    if s == e {
        c1 == c0
    } else {
        &&& c1.addr_space.areas@ == clip_areas(c0.addr_space.areas@, s as usize, e as usize)
        &&& forall|vpn: usize|
            s <= vpn < e ==> !(#[trigger] c1.addr_space.page_table@.dom().contains(vpn))
        &&& forall|vpn: usize|
            !(s <= vpn < e) ==> ((#[trigger] c1.addr_space.page_table@.dom().contains(vpn))
                == c0.addr_space.page_table@.dom().contains(vpn)
                && (c0.addr_space.page_table@.dom().contains(vpn)
                    ==> c1.addr_space.page_table@[vpn] == c0.addr_space.page_table@[vpn]))
        &&& c1.frame_alloc.avail() == c0.frame_alloc.avail() + (e - s)
        &&& c1.frame_alloc.current == c0.frame_alloc.current
        &&& c1.frame_alloc.end == c0.frame_alloc.end
        &&& c1.status == c0.status
        &&& c1.first_run_ms == c0.first_run_ms
        &&& c1.syscall_times == c0.syscall_times
        &&& c1.now_us == c0.now_us
    }
}

/// Handles the `munmap` syscall: validates that the whole page span is
/// mapped, then unmaps it, trimming any area that straddles a boundary of
/// the span. Returns 0 exactly when the request is accepted and -1
/// otherwise; a refused request leaves the context untouched, so a partial
/// unmap never happens.
pub fn sys_munmap(ctx: &mut SyscallContext, start: usize, len: usize) -> (r: isize)
    requires
        old(ctx).wf(),
    ensures
        final(ctx).wf(),
        r == 0 || r == -1,
        (r == 0) == munmap_accepts(*old(ctx), start, len),
        r == 0 ==> munmap_updates(*old(ctx), *final(ctx), start, len),
        r == -1 ==> *final(ctx) == *old(ctx),
{
    if start % PAGE_SIZE != 0 {
        return -1;
    }
    let sum = match start.checked_add(len) {
        Some(sum) => sum,
        None => {
            return -1;
        },
    };
    let svpn = start / PAGE_SIZE;
    let evpn = if sum % PAGE_SIZE == 0 {
        sum / PAGE_SIZE
    } else {
        sum / PAGE_SIZE + 1
    };
    proof {
        assert(svpn == vpn_floor(start));
        assert(evpn == vpn_ceil(sum as int));
        assert(svpn <= evpn);
    }
    if svpn == evpn {
        return 0;
    }
    let mut vpn = svpn;
    while vpn < evpn
        invariant
            *ctx == *old(ctx),
            old(ctx).wf(),
            start + len <= usize::MAX,
            is_page_aligned(start),
            svpn == vpn_floor(start),
            evpn == vpn_ceil(start + len),
            svpn < evpn,
            svpn <= vpn <= evpn,
            forall|v: usize|
                svpn <= v < vpn ==> (#[trigger] ctx.addr_space.page_table@.dom().contains(v)),
        decreases evpn - vpn,
    {
        if ctx.addr_space.page_table.find_pte(vpn).is_none() {
            return -1;
        }
        vpn = vpn + 1;
    }
    ctx.addr_space.remove_span(&mut ctx.frame_alloc, svpn, evpn);
    proof {
        assert forall|vpn: usize| !(vpn_floor(start) <= vpn < vpn_ceil(start + len))
            implies ((#[trigger] ctx.addr_space.page_table@.dom().contains(vpn))
                == old(ctx).addr_space.page_table@.dom().contains(vpn)
            && (old(ctx).addr_space.page_table@.dom().contains(vpn)
                ==> ctx.addr_space.page_table@[vpn]
                    == old(ctx).addr_space.page_table@[vpn])) by {
            assert(!(svpn <= vpn < evpn));
            assert(ctx.addr_space.page_table@.dom().contains(vpn)
                == old(ctx).addr_space.page_table@.dom().contains(vpn));
        }
        assert(munmap_updates(*old(ctx), *ctx, start, len));
    }
    0
}

} // verus!
