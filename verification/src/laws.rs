use vstd::prelude::*;

use crate::addr_space::{
    area_overlaps_range, clip_area, clip_areas, covered_by_areas, lemma_clip_areas_all_outside,
    lemma_clip_areas_push, MapArea,
};
use crate::page_table::{vpn_ceil, vpn_floor};
use crate::perm::perm_of_port;
use crate::syscall::{mmap_accepts, mmap_updates, munmap_accepts, munmap_updates};
use crate::task::SyscallContext;

verus! {

/// After a successful `map`, the matching `unmap` of the same `start` and
/// `len` is always accepted: the whole page span is mapped.
pub proof fn lemma_unmap_after_map_accepted(
    c0: SyscallContext,
    c1: SyscallContext,
    start: usize,
    len: usize,
    port: usize,
)
    requires
        c0.wf(),
        mmap_accepts(c0, start, len, port),
        mmap_updates(c0, c1, start, len, port),
    ensures
        munmap_accepts(c1, start, len),
{
    let s = vpn_floor(start);
    let e = vpn_ceil(start + len);
    assert forall|vpn: usize| s <= vpn < e implies (
    #[trigger] c1.addr_space.page_table@.dom().contains(vpn)) by {
        assert(s != e);
    }
}

/// Round trip: mapping a page span and then unmapping exactly that span
/// restores both the mapped-area set and the page table to what they were
/// before the `map`.
pub proof fn lemma_map_unmap_round_trip(
    c0: SyscallContext,
    c1: SyscallContext,
    c2: SyscallContext,
    start: usize,
    len: usize,
    port: usize,
)
    requires
        c0.wf(),
        mmap_accepts(c0, start, len, port),
        mmap_updates(c0, c1, start, len, port),
        munmap_updates(c1, c2, start, len),
    ensures
        c2.addr_space.areas@ == c0.addr_space.areas@,
        c2.addr_space.page_table@ == c0.addr_space.page_table@,
{
    let s = vpn_floor(start);
    let e = vpn_ceil(start + len);
    if s == e {
        assert(c1 == c0 && c2 == c1);
    } else {
        let su = s as usize;
        let eu = e as usize;
        let s0 = c0.addr_space.areas@;
        let new_area = MapArea { start_vpn: su, end_vpn: eu, perm: perm_of_port(port) };
        assert forall|i: int| 0 <= i < s0.len() implies !area_overlaps_range(
            #[trigger] s0[i],
            su,
            eu,
        ) by {
            if area_overlaps_range(s0[i], su, eu) {
                let a = s0[i];
                let w: usize = if a.start_vpn >= su {
                    a.start_vpn
                } else {
                    su
                };
                assert(a.covers(w));
                assert(covered_by_areas(s0, w));
                assert(c0.addr_space.page_table@.dom().contains(w));
                assert(false);
            }
        }
        lemma_clip_areas_push(s0, su, eu, new_area);
        lemma_clip_areas_all_outside(s0, su, eu);
        assert(clip_area(new_area, su, eu) =~= Seq::<MapArea>::empty());
        assert(clip_areas(s0.push(new_area), su, eu) =~= s0);
        assert(c2.addr_space.areas@ == s0);
        let m0 = c0.addr_space.page_table@;
        let m2 = c2.addr_space.page_table@;
        assert forall|vpn: usize|
            (#[trigger] m2.dom().contains(vpn)) == m0.dom().contains(vpn) by {
            if s <= vpn < e {
                assert(!m2.dom().contains(vpn));
                assert(!m0.dom().contains(vpn));
            } else {
                assert(m2.dom().contains(vpn) == c1.addr_space.page_table@.dom().contains(vpn));
            }
        }
        assert forall|vpn: usize| #[trigger] m2.dom().contains(vpn) implies m2[vpn] == m0[vpn] by {
            assert(!(s <= vpn < e));
            assert(m2[vpn] == c1.addr_space.page_table@[vpn]);
        }
        assert(m2 =~= m0);
    }
}

} // verus!
