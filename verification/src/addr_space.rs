use vstd::prelude::*;

use crate::config::PPN_LIMIT;
use crate::frame::FrameAllocator;
use crate::page_table::{PageTable, PageTableEntry};
use crate::perm::MapPermission;

verus! {

/// A contiguous half-open range of virtual pages `[start_vpn, end_vpn)`
/// mapped with one permission set and backed by allocated frames.
#[derive(Clone, Copy, Debug, PartialEq, Eq, Structural)]
pub struct MapArea {
    pub start_vpn: usize,
    pub end_vpn: usize,
    pub perm: MapPermission,
}

impl MapArea {
    /// Whether the area's page range holds `vpn`.
    pub open spec fn covers(&self, vpn: usize) -> bool {
        self.start_vpn <= vpn && vpn < self.end_vpn
    }
}

/// Two areas overlap when some page lies in both ranges.
pub open spec fn area_overlap(a: MapArea, b: MapArea) -> bool {
    a.start_vpn < b.end_vpn && b.start_vpn < a.end_vpn
}

/// Whether some area of the sequence covers `vpn`.
pub open spec fn covered_by_areas(s: Seq<MapArea>, vpn: usize) -> bool {
    exists|i: int| 0 <= i < s.len() && (#[trigger] s[i]).covers(vpn)
}

/// Frame soundness across one page table and the allocator that backs it:
/// every mapped frame backs exactly one page, and none of them is still in
/// the free pool (neither recycled nor in the fresh range).
pub open spec fn frames_wf(m: Map<usize, PageTableEntry>, fa: FrameAllocator) -> bool {
    &&& forall|v1: usize, v2: usize|
        m.dom().contains(v1) && m.dom().contains(v2) && v1 != v2 ==> (#[trigger] m[v1]).ppn != (
        #[trigger] m[v2]).ppn
    &&& forall|v: usize|
        #[trigger] m.dom().contains(v) ==> m[v].ppn < fa.current && !fa.in_recycled(m[v].ppn)
}

/// The area shares at least a page position with the range `[lo, hi)`.
pub open spec fn area_overlaps_range(a: MapArea, lo: usize, hi: usize) -> bool {
    a.start_vpn < hi && lo < a.end_vpn
}

/// What is left of one area after the page range `[lo, hi)` is unmapped: the
/// whole area when the range misses it, else the parts of it on either side
/// of the range, each keeping the area's permissions.
pub open spec fn clip_area(a: MapArea, lo: usize, hi: usize) -> Seq<MapArea> {
    if !area_overlaps_range(a, lo, hi) {
        seq![a]
    } else {
        (if a.start_vpn < lo {
            seq![MapArea { start_vpn: a.start_vpn, end_vpn: lo, perm: a.perm }]
        } else {
            Seq::empty()
        }) + (if hi < a.end_vpn {
            seq![MapArea { start_vpn: hi, end_vpn: a.end_vpn, perm: a.perm }]
        } else {
            Seq::empty()
        })
    }
}

/// What is left of a sequence of areas after the page range `[lo, hi)` is
/// unmapped: each area clipped in place, order kept.
pub open spec fn clip_areas(s: Seq<MapArea>, lo: usize, hi: usize) -> Seq<MapArea>
    decreases s.len(),
{
    if s.len() == 0 {
        Seq::empty()
    } else {
        clip_areas(s.drop_last(), lo, hi) + clip_area(s.last(), lo, hi)
    }
}

/// Clipping distributes over appending one area.
pub proof fn lemma_clip_areas_push(s: Seq<MapArea>, lo: usize, hi: usize, a: MapArea)
    ensures
        clip_areas(s.push(a), lo, hi) == clip_areas(s, lo, hi) + clip_area(a, lo, hi),
{
    assert(s.push(a).drop_last() =~= s);
    assert(s.push(a).last() == a);
}

/// Clipping a sequence of areas that the range misses entirely changes
/// nothing.
pub proof fn lemma_clip_areas_all_outside(s: Seq<MapArea>, lo: usize, hi: usize)
    requires
        forall|i: int| 0 <= i < s.len() ==> !area_overlaps_range(#[trigger] s[i], lo, hi),
    ensures
        clip_areas(s, lo, hi) == s,
    decreases s.len(),
{
    if s.len() == 0 {
        assert(clip_areas(s, lo, hi) =~= s);
    } else {
        assert forall|i: int| 0 <= i < s.drop_last().len() implies !area_overlaps_range(
            #[trigger] s.drop_last()[i],
            lo,
            hi,
        ) by {
            assert(s.drop_last()[i] == s[i]);
        }
        lemma_clip_areas_all_outside(s.drop_last(), lo, hi);
        assert(clip_area(s.last(), lo, hi) == seq![s.last()]);
        assert(clip_areas(s, lo, hi) =~= s);
    }
}

/// One task's address space: an ordered set of non-overlapping, non-empty
/// mapping areas, each backed page by page in the owned page table.
pub struct AddressSpace {
    pub page_table: PageTable,
    pub areas: Vec<MapArea>,
}

impl AddressSpace {
    /// The address space's invariant: a sound page table, non-empty and
    /// pairwise non-overlapping areas, and a page mapped exactly when some
    /// area covers it.
    pub open spec fn wf(&self) -> bool {
        &&& self.page_table.wf()
        &&& forall|i: int|
            0 <= i < self.areas@.len() ==> (#[trigger] self.areas@[i]).start_vpn
                < self.areas@[i].end_vpn
        &&& forall|i: int, j: int|
            0 <= i < self.areas@.len() && 0 <= j < self.areas@.len() && i != j ==> !area_overlap(
                #[trigger] self.areas@[i],
                #[trigger] self.areas@[j],
            )
        &&& forall|vpn: usize|
            (#[trigger] self.page_table@.dom().contains(vpn)) == covered_by_areas(
                self.areas@,
                vpn,
            )
    }

    /// An empty address space with nothing mapped.
    pub fn new() -> (a: AddressSpace)
        ensures
            a.wf(),
            a.areas@.len() == 0,
            a.page_table@ == Map::<usize, PageTableEntry>::empty(),
    {
        let a = AddressSpace { page_table: PageTable::new(), areas: Vec::new() };
        proof {
            assert forall|vpn: usize|
                (#[trigger] a.page_table@.dom().contains(vpn)) == covered_by_areas(
                    a.areas@,
                    vpn,
                ) by {
                assert(!a.page_table@.dom().contains(vpn));
            }
        }
        a
    }

    /// Maps the pages `[start_vpn, end_vpn)` with `perm`, taking one frame
    /// per page from the allocator, and records the new area. The caller has
    /// checked that no page of the range is mapped and that enough frames
    /// are left, so the operation cannot fail halfway.
    pub fn insert_framed_area(
        &mut self,
        fa: &mut FrameAllocator,
        start_vpn: usize,
        end_vpn: usize,
        perm: MapPermission,
    )
        requires
            old(self).wf(),
            old(fa).wf(),
            start_vpn < end_vpn,
            forall|vpn: usize|
                start_vpn <= vpn < end_vpn
                    ==> !(#[trigger] old(self).page_table@.dom().contains(vpn)),
            end_vpn - start_vpn <= old(fa).avail(),
            frames_wf(old(self).page_table@, *old(fa)),
        ensures
            final(self).wf(),
            final(fa).wf(),
            frames_wf(final(self).page_table@, *final(fa)),
            final(self).areas@ == old(self).areas@.push(
                MapArea { start_vpn, end_vpn, perm },
            ),
            forall|vpn: usize|
                start_vpn <= vpn < end_vpn
                    ==> (#[trigger] final(self).page_table@.dom().contains(vpn))
                    && final(self).page_table@[vpn].perm == perm,
            forall|vpn: usize|
                !(start_vpn <= vpn < end_vpn)
                    ==> ((#[trigger] final(self).page_table@.dom().contains(vpn))
                        == old(self).page_table@.dom().contains(vpn)
                    && (old(self).page_table@.dom().contains(vpn)
                        ==> final(self).page_table@[vpn] == old(self).page_table@[vpn])),
            final(fa).avail() == old(fa).avail() - (end_vpn - start_vpn),
    {
        let mut vpn = start_vpn;
        while vpn < end_vpn
            invariant
                start_vpn <= vpn <= end_vpn,
                self.areas@ == old(self).areas@,
                self.page_table.wf(),
                fa.wf(),
                frames_wf(self.page_table@, *fa),
                fa.avail() == old(fa).avail() - (vpn - start_vpn),
                end_vpn - start_vpn <= old(fa).avail(),
                forall|v: usize|
                    start_vpn <= v < vpn ==> (#[trigger] self.page_table@.dom().contains(v))
                        && self.page_table@[v].perm == perm,
                forall|v: usize|
                    !(start_vpn <= v < vpn)
                        ==> ((#[trigger] self.page_table@.dom().contains(v))
                            == old(self).page_table@.dom().contains(v)
                        && (old(self).page_table@.dom().contains(v)
                            ==> self.page_table@[v] == old(self).page_table@[v])),
                forall|v: usize|
                    start_vpn <= v < end_vpn
                        ==> !(#[trigger] old(self).page_table@.dom().contains(v)),
            decreases end_vpn - vpn,
        {
            let ghost fa_pre = *fa;
            let ghost m_pre = self.page_table@;
            let ppn = match fa.alloc_frame() {
                Some(p) => p,
                None => {
                    proof {
                        assert(false);
                    }
                    0
                },
            };
            proof {
                assert forall|v: usize| #[trigger] m_pre.dom().contains(v) implies (
                m_pre[v].ppn < fa.current && !fa.in_recycled(m_pre[v].ppn) && m_pre[v].ppn
                    != ppn) by {
                    assert(m_pre[v].ppn < fa_pre.current && !fa_pre.in_recycled(m_pre[v].ppn));
                    if fa.in_recycled(m_pre[v].ppn) {
                        let i = choose|i: int|
                            0 <= i < fa.recycled@.len() && fa.recycled@[i] == m_pre[v].ppn;
                        assert(fa_pre.recycled@[i] == m_pre[v].ppn);
                        assert(fa_pre.in_recycled(m_pre[v].ppn));
                        assert(false);
                    }
                    if m_pre[v].ppn == ppn {
                        if fa_pre.recycled@.len() > 0 {
                            assert(ppn == fa_pre.recycled@.last());
                            assert(fa_pre.recycled@[fa_pre.recycled@.len() - 1] == ppn);
                            assert(fa_pre.in_recycled(ppn));
                            assert(false);
                        } else {
                            assert(ppn == fa_pre.current);
                            assert(false);
                        }
                    }
                }
            }
            self.page_table.map_page(vpn, ppn, perm);
            proof {
                let m_new = self.page_table@;
                assert forall|v1: usize, v2: usize|
                    m_new.dom().contains(v1) && m_new.dom().contains(v2) && v1 != v2
                        implies (#[trigger] m_new[v1]).ppn != (#[trigger] m_new[v2]).ppn by {
                    if v1 != vpn && v2 != vpn {
                        assert(m_new[v1] == m_pre[v1] && m_new[v2] == m_pre[v2]);
                    } else if v1 == vpn {
                        assert(m_new[v1].ppn == ppn && m_new[v2] == m_pre[v2]);
                    } else {
                        assert(m_new[v2].ppn == ppn && m_new[v1] == m_pre[v1]);
                    }
                }
                assert forall|v: usize| #[trigger] m_new.dom().contains(v) implies (
                m_new[v].ppn < fa.current && !fa.in_recycled(m_new[v].ppn)) by {
                    if v != vpn {
                        assert(m_new[v] == m_pre[v]);
                    } else {
                        assert(m_new[v].ppn == ppn);
                    }
                }
            }
            vpn = vpn + 1;
        }
        self.areas.push(MapArea { start_vpn, end_vpn, perm });
        proof {
            let new_area = MapArea { start_vpn, end_vpn, perm };
            let s_old = old(self).areas@;
            let s_new = self.areas@;
            assert(s_new == s_old.push(new_area));
            assert forall|i: int| 0 <= i < s_old.len() implies !area_overlap(
                #[trigger] s_old[i],
                new_area,
            ) by {
                if area_overlap(s_old[i], new_area) {
                    let w: usize = if s_old[i].start_vpn >= start_vpn {
                        s_old[i].start_vpn
                    } else {
                        start_vpn
                    };
                    assert(s_old[i].covers(w));
                    assert(covered_by_areas(s_old, w));
                    assert(old(self).page_table@.dom().contains(w));
                    assert(false);
                }
            }
            assert forall|i: int, j: int|
                0 <= i < s_new.len() && 0 <= j < s_new.len() && i != j implies !area_overlap(
                #[trigger] s_new[i],
                #[trigger] s_new[j],
            ) by {
                if i < s_old.len() && j < s_old.len() {
                    assert(s_new[i] == s_old[i] && s_new[j] == s_old[j]);
                } else if i < s_old.len() {
                    assert(s_new[j] == new_area && s_new[i] == s_old[i]);
                } else {
                    assert(s_new[i] == new_area && s_new[j] == s_old[j]);
                }
            }
            assert forall|vpn: usize|
                (#[trigger] self.page_table@.dom().contains(vpn)) == covered_by_areas(
                    s_new,
                    vpn,
                ) by {
                if start_vpn <= vpn < end_vpn {
                    assert(self.page_table@.dom().contains(vpn));
                    assert(s_new[s_old.len() as int] == new_area);
                    assert(new_area.covers(vpn));
                    assert(covered_by_areas(s_new, vpn));
                } else {
                    if covered_by_areas(s_new, vpn) {
                        let i = choose|i: int|
                            0 <= i < s_new.len() && (#[trigger] s_new[i]).covers(vpn);
                        assert(i < s_old.len());
                        assert(s_old[i].covers(vpn));
                        assert(covered_by_areas(s_old, vpn));
                    }
                    if covered_by_areas(s_old, vpn) {
                        let i = choose|i: int|
                            0 <= i < s_old.len() && (#[trigger] s_old[i]).covers(vpn);
                        assert(s_new[i] == s_old[i]);
                        assert(covered_by_areas(s_new, vpn));
                    }
                }
            }
        }
    }

    /// Unmaps every page of `[lo, hi)` and hands each page's frame back to
    /// the allocator. Touches only the page table.
    fn remove_area_pages(&mut self, fa: &mut FrameAllocator, lo: usize, hi: usize)
        requires
            old(self).page_table.wf(),
            old(fa).wf(),
            lo <= hi,
            forall|x: usize|
                lo <= x < hi ==> (#[trigger] old(self).page_table@.dom().contains(x)),
            frames_wf(old(self).page_table@, *old(fa)),
        ensures
            final(self).page_table.wf(),
            final(fa).wf(),
            frames_wf(final(self).page_table@, *final(fa)),
            final(self).areas@ == old(self).areas@,
            final(fa).avail() == old(fa).avail() + (hi - lo),
            final(fa).current == old(fa).current,
            final(fa).end == old(fa).end,
            forall|x: usize|
                (#[trigger] final(self).page_table@.dom().contains(x))
                    == (old(self).page_table@.dom().contains(x) && !(lo <= x < hi)),
            forall|x: usize|
                (#[trigger] final(self).page_table@.dom().contains(x))
                    ==> final(self).page_table@[x] == old(self).page_table@[x],
    {
        let mut v = lo;
        while v < hi
            invariant
                lo <= v <= hi,
                self.page_table.wf(),
                fa.wf(),
                frames_wf(self.page_table@, *fa),
                self.areas@ == old(self).areas@,
                fa.avail() == old(fa).avail() + (v - lo),
                fa.current == old(fa).current,
                fa.end == old(fa).end,
                forall|x: usize|
                    lo <= x < hi ==> (#[trigger] old(self).page_table@.dom().contains(x)),
                forall|x: usize|
                    (#[trigger] self.page_table@.dom().contains(x))
                        == (old(self).page_table@.dom().contains(x) && !(lo <= x < v)),
                forall|x: usize|
                    (#[trigger] self.page_table@.dom().contains(x))
                        ==> self.page_table@[x] == old(self).page_table@[x],
            decreases hi - v,
        {
            proof {
                assert(self.page_table@.dom().contains(v));
                assert(self.page_table@[v].ppn < PPN_LIMIT);
            }
            let ghost m_pre = self.page_table@;
            let ghost fa_pre = *fa;
            let entry = self.page_table.unmap_page(v);
            fa.dealloc_frame(entry.ppn);
            proof {
                let m_new = self.page_table@;
                assert forall|v1: usize, v2: usize|
                    m_new.dom().contains(v1) && m_new.dom().contains(v2) && v1 != v2
                        implies (#[trigger] m_new[v1]).ppn != (#[trigger] m_new[v2]).ppn by {
                    assert(m_new[v1] == m_pre[v1] && m_new[v2] == m_pre[v2]);
                }
                assert forall|x: usize| #[trigger] m_new.dom().contains(x) implies (
                m_new[x].ppn < fa.current && !fa.in_recycled(m_new[x].ppn)) by {
                    assert(x != v && m_new[x] == m_pre[x]);
                    assert(m_pre[x].ppn != m_pre[v].ppn);
                    if fa.in_recycled(m_new[x].ppn) {
                        let i = choose|i: int|
                            0 <= i < fa.recycled@.len() && fa.recycled@[i] == m_new[x].ppn;
                        if i < fa_pre.recycled@.len() {
                            assert(fa_pre.in_recycled(m_new[x].ppn));
                            assert(false);
                        } else {
                            assert(fa.recycled@[i] == entry.ppn);
                            assert(false);
                        }
                    }
                }
            }
            v = v + 1;
        }
    }

    /// Builds the area list left after unmapping the page range `[lo, hi)`:
    /// each area clipped against the range, in place and in order.
    fn clip_area_vec(areas: &Vec<MapArea>, lo: usize, hi: usize) -> (kept: Vec<MapArea>)
        requires
            lo < hi,
            forall|i: int|
                0 <= i < areas@.len() ==> (#[trigger] areas@[i]).start_vpn < areas@[i].end_vpn,
            forall|i: int, j: int|
                0 <= i < areas@.len() && 0 <= j < areas@.len() && i != j ==> !area_overlap(
                    #[trigger] areas@[i],
                    #[trigger] areas@[j],
                ),
        ensures
            kept@ == clip_areas(areas@, lo, hi),
            forall|i: int|
                0 <= i < kept@.len() ==> (#[trigger] kept@[i]).start_vpn < kept@[i].end_vpn,
            forall|i: int|
                0 <= i < kept@.len() ==> !area_overlaps_range(#[trigger] kept@[i], lo, hi),
            forall|i1: int, i2: int|
                0 <= i1 < kept@.len() && 0 <= i2 < kept@.len() && i1 != i2 ==> !area_overlap(
                    #[trigger] kept@[i1],
                    #[trigger] kept@[i2],
                ),
            forall|i: int|
                0 <= i < kept@.len() ==> exists|k: int|
                    0 <= k < areas@.len() && areas@[k].start_vpn <= (
                    #[trigger] kept@[i]).start_vpn && kept@[i].end_vpn <= areas@[k].end_vpn,
            forall|k: int, x: usize|
                0 <= k < areas@.len() && (#[trigger] areas@[k].covers(x)) && !(lo <= x < hi)
                    ==> covered_by_areas(kept@, x),
    {
        let mut kept: Vec<MapArea> = Vec::new();
        let mut j: usize = 0;
        proof {
            assert(areas@.subrange(0, 0) =~= Seq::<MapArea>::empty());
            assert(kept@ =~= clip_areas(areas@.subrange(0, 0), lo, hi));
        }
        while j < areas.len()
            invariant
                lo < hi,
                j <= areas@.len(),
                forall|i: int|
                    0 <= i < areas@.len() ==> (#[trigger] areas@[i]).start_vpn
                        < areas@[i].end_vpn,
                forall|i1: int, i2: int|
                    0 <= i1 < areas@.len() && 0 <= i2 < areas@.len() && i1 != i2
                        ==> !area_overlap(#[trigger] areas@[i1], #[trigger] areas@[i2]),
                kept@ == clip_areas(areas@.subrange(0, j as int), lo, hi),
                forall|i: int|
                    0 <= i < kept@.len() ==> (#[trigger] kept@[i]).start_vpn < kept@[i].end_vpn,
                forall|i: int|
                    0 <= i < kept@.len() ==> !area_overlaps_range(#[trigger] kept@[i], lo, hi),
                forall|i1: int, i2: int|
                    0 <= i1 < kept@.len() && 0 <= i2 < kept@.len() && i1 != i2 ==> !area_overlap(
                        #[trigger] kept@[i1],
                        #[trigger] kept@[i2],
                    ),
                forall|i: int|
                    0 <= i < kept@.len() ==> exists|k: int|
                        0 <= k < j && areas@[k].start_vpn <= (#[trigger] kept@[i]).start_vpn
                            && kept@[i].end_vpn <= areas@[k].end_vpn,
                forall|k: int, x: usize|
                    0 <= k < j && (#[trigger] areas@[k].covers(x)) && !(lo <= x < hi)
                        ==> covered_by_areas(kept@, x),
            decreases areas@.len() - j,
        {
            let a = areas[j];
            let ghost kept_before = kept@;
            if a.end_vpn <= lo || hi <= a.start_vpn {
                kept.push(a);
                proof {
                    assert(!area_overlaps_range(a, lo, hi));
                    assert(kept@ =~= kept_before + clip_area(a, lo, hi));
                }
            } else {
                if a.start_vpn < lo {
                    kept.push(MapArea { start_vpn: a.start_vpn, end_vpn: lo, perm: a.perm });
                }
                if hi < a.end_vpn {
                    kept.push(MapArea { start_vpn: hi, end_vpn: a.end_vpn, perm: a.perm });
                }
                proof {
                    assert(area_overlaps_range(a, lo, hi));
                    assert(kept@ =~= kept_before + clip_area(a, lo, hi));
                }
            }
            proof {
                assert(areas@.subrange(0, j as int + 1) =~= areas@.subrange(0, j as int).push(
                    areas@[j as int],
                ));
                lemma_clip_areas_push(areas@.subrange(0, j as int), lo, hi, areas@[j as int]);
                assert forall|i: int| 0 <= i < kept@.len() implies ((#[trigger] kept@[i]).start_vpn
                    < kept@[i].end_vpn && !area_overlaps_range(kept@[i], lo, hi)
                    && areas@[j as int].start_vpn <= kept@[i].start_vpn
                        && kept@[i].end_vpn <= areas@[j as int].end_vpn || i
                    < kept_before.len()) by {
                    if i < kept_before.len() {
                        assert(kept@[i] == kept_before[i]);
                    } else {
                        assert(kept@[i] == clip_area(areas@[j as int], lo, hi)[i - kept_before.len()]);
                    }
                }
                assert forall|i: int| 0 <= i < kept@.len() implies exists|k: int|
                    0 <= k < j as int + 1 && areas@[k].start_vpn <= (
                #[trigger] kept@[i]).start_vpn && kept@[i].end_vpn <= areas@[k].end_vpn by {
                    if i < kept_before.len() {
                        assert(kept@[i] == kept_before[i]);
                        let k = choose|k: int|
                            0 <= k < j as int && areas@[k].start_vpn <= kept_before[i].start_vpn
                                && kept_before[i].end_vpn <= areas@[k].end_vpn;
                        assert(0 <= k < j as int + 1 && areas@[k].start_vpn <= kept@[i].start_vpn
                            && kept@[i].end_vpn <= areas@[k].end_vpn);
                    } else {
                        assert(areas@[j as int].start_vpn <= kept@[i].start_vpn
                            && kept@[i].end_vpn <= areas@[j as int].end_vpn);
                    }
                }
                assert forall|i1: int, i2: int|
                    0 <= i1 < kept@.len() && 0 <= i2 < kept@.len() && i1 != i2
                        implies !area_overlap(#[trigger] kept@[i1], #[trigger] kept@[i2]) by {
                    if i1 < kept_before.len() && i2 < kept_before.len() {
                        assert(kept@[i1] == kept_before[i1] && kept@[i2] == kept_before[i2]);
                    } else if i1 < kept_before.len() || i2 < kept_before.len() {
                        let io: int = if i1 < kept_before.len() {
                            i1
                        } else {
                            i2
                        };
                        let inew: int = if i1 < kept_before.len() {
                            i2
                        } else {
                            i1
                        };
                        assert(kept@[io] == kept_before[io]);
                        let k = choose|k: int|
                            0 <= k < j as int && areas@[k].start_vpn <= kept_before[io].start_vpn
                                && kept_before[io].end_vpn <= areas@[k].end_vpn;
                        assert(!area_overlap(areas@[k], areas@[j as int]));
                        assert(areas@[j as int].start_vpn <= kept@[inew].start_vpn
                            && kept@[inew].end_vpn <= areas@[j as int].end_vpn);
                    } else {
                        assert(kept@[i1] == clip_area(areas@[j as int], lo, hi)[i1 - kept_before.len()]);
                        assert(kept@[i2] == clip_area(areas@[j as int], lo, hi)[i2 - kept_before.len()]);
                    }
                }
                assert forall|k: int, x: usize|
                    0 <= k < j as int + 1 && (#[trigger] areas@[k].covers(x)) && !(lo <= x < hi)
                        implies covered_by_areas(kept@, x) by {
                    if k < j as int {
                        assert(covered_by_areas(kept_before, x));
                        let i = choose|i: int|
                            0 <= i < kept_before.len() && (#[trigger] kept_before[i]).covers(x);
                        assert(kept@[i] == kept_before[i]);
                        assert(covered_by_areas(kept@, x));
                    } else {
                        let aj = areas@[j as int];
                        if !area_overlaps_range(aj, lo, hi) {
                            assert(kept@[kept_before.len() as int] == aj);
                            assert(covered_by_areas(kept@, x));
                        } else if x < lo {
                            assert(aj.start_vpn < lo);
                            assert(kept@[kept_before.len() as int] == MapArea {
                                start_vpn: aj.start_vpn,
                                end_vpn: lo,
                                perm: aj.perm,
                            });
                            assert(kept@[kept_before.len() as int].covers(x));
                            assert(covered_by_areas(kept@, x));
                        } else {
                            assert(hi <= x && hi < aj.end_vpn);
                            let ri: int = if aj.start_vpn < lo {
                                kept_before.len() as int + 1
                            } else {
                                kept_before.len() as int
                            };
                            assert(kept@[ri] == MapArea {
                                start_vpn: hi,
                                end_vpn: aj.end_vpn,
                                perm: aj.perm,
                            });
                            assert(kept@[ri].covers(x));
                            assert(covered_by_areas(kept@, x));
                        }
                    }
                }
            }
            j = j + 1;
        }
        proof {
            assert(areas@.subrange(0, areas@.len() as int) =~= areas@);
        }
        kept
    }

    /// Unmaps every page of `[start_vpn, end_vpn)`, which the caller has
    /// checked to be fully mapped, hands the freed frames back to the
    /// allocator, and clips the recorded areas against the range: an area
    /// wholly inside it disappears, one straddling a boundary keeps the part
    /// that stays mapped.
    pub fn remove_span(&mut self, fa: &mut FrameAllocator, start_vpn: usize, end_vpn: usize)
        requires
            old(self).wf(),
            old(fa).wf(),
            start_vpn < end_vpn,
            forall|x: usize|
                start_vpn <= x < end_vpn
                    ==> (#[trigger] old(self).page_table@.dom().contains(x)),
            frames_wf(old(self).page_table@, *old(fa)),
        ensures
            final(self).wf(),
            final(fa).wf(),
            frames_wf(final(self).page_table@, *final(fa)),
            final(self).areas@ == clip_areas(old(self).areas@, start_vpn, end_vpn),
            forall|x: usize|
                start_vpn <= x < end_vpn
                    ==> !(#[trigger] final(self).page_table@.dom().contains(x)),
            forall|x: usize|
                !(start_vpn <= x < end_vpn)
                    ==> ((#[trigger] final(self).page_table@.dom().contains(x))
                        == old(self).page_table@.dom().contains(x)
                    && (old(self).page_table@.dom().contains(x)
                        ==> final(self).page_table@[x] == old(self).page_table@[x])),
            final(fa).avail() == old(fa).avail() + (end_vpn - start_vpn),
            final(fa).current == old(fa).current,
            final(fa).end == old(fa).end,
    {
        self.remove_area_pages(fa, start_vpn, end_vpn);
        let kept = Self::clip_area_vec(&self.areas, start_vpn, end_vpn);
        self.areas = kept;
        proof {
            let s_old = old(self).areas@;
            let s_new = self.areas@;
            assert forall|x: usize|
                (#[trigger] self.page_table@.dom().contains(x)) == covered_by_areas(
                    s_new,
                    x,
                ) by {
                if self.page_table@.dom().contains(x) {
                    assert(!(start_vpn <= x < end_vpn));
                    assert(old(self).page_table@.dom().contains(x));
                    assert(covered_by_areas(s_old, x));
                    let k = choose|k: int| 0 <= k < s_old.len() && (#[trigger] s_old[k]).covers(x);
                    assert(s_old[k].covers(x) && !(start_vpn <= x < end_vpn));
                    assert(covered_by_areas(s_new, x));
                } else {
                    if covered_by_areas(s_new, x) {
                        let i = choose|i: int|
                            0 <= i < s_new.len() && (#[trigger] s_new[i]).covers(x);
                        assert(!area_overlaps_range(s_new[i], start_vpn, end_vpn));
                        assert(!(start_vpn <= x < end_vpn));
                        let k = choose|k: int|
                            0 <= k < s_old.len() && s_old[k].start_vpn <= s_new[i].start_vpn
                                && s_new[i].end_vpn <= s_old[k].end_vpn;
                        assert(s_old[k].covers(x));
                        assert(covered_by_areas(s_old, x));
                        assert(old(self).page_table@.dom().contains(x));
                        assert(self.page_table@.dom().contains(x));
                        assert(false);
                    }
                }
            }
        }
    }
}

} // verus!
