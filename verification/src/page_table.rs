use vstd::prelude::*;

use std::collections::HashMap;

use crate::config::{PAGE_SIZE, PPN_LIMIT};
use crate::perm::MapPermission;

verus! {

broadcast use vstd::std_specs::hash::group_hash_axioms;

/// A page-aligned virtual address has no offset within its page.
pub open spec fn is_page_aligned(va: usize) -> bool {
    va % PAGE_SIZE == 0
}

/// The page holding a virtual address: the floor of `va / PAGE_SIZE`.
pub open spec fn vpn_floor(va: usize) -> int {
    va as int / PAGE_SIZE as int
}

/// The first page boundary at or above an address bound: the ceiling of
/// `addr / PAGE_SIZE`.
pub open spec fn vpn_ceil(addr: int) -> int {
    if addr % (PAGE_SIZE as int) == 0 {
        addr / (PAGE_SIZE as int)
    } else {
        addr / (PAGE_SIZE as int) + 1
    }
}

/// One page-table entry: the physical frame a virtual page maps to, with its
/// permission flags. An unmapped page has no entry at all.
#[derive(Clone, Copy, Debug, PartialEq, Eq, Structural)]
pub struct PageTableEntry {
    pub ppn: usize,
    pub perm: MapPermission,
}

/// Maps virtual page numbers to entries for one address space. Point lookup,
/// insert and remove; at most one entry per page.
pub struct PageTable {
    table: HashMap<usize, PageTableEntry>,
}

impl View for PageTable {
    type V = Map<usize, PageTableEntry>;

    closed spec fn view(&self) -> Map<usize, PageTableEntry> {
        self.table@
    }
}

impl PageTable {
    /// Every mapped frame lies below the physical pool's bound.
    pub open spec fn wf(&self) -> bool {
        forall|vpn: usize| #[trigger] self@.dom().contains(vpn) ==> self@[vpn].ppn < PPN_LIMIT
    }

    /// An empty table with nothing mapped.
    pub fn new() -> (pt: PageTable)
        ensures
            pt@ == Map::<usize, PageTableEntry>::empty(),
            pt.wf(),
    {
        PageTable { table: HashMap::new() }
    }

    /// Point lookup of one virtual page.
    pub fn find_pte(&self, vpn: usize) -> (r: Option<PageTableEntry>)
        ensures
            r == if self@.dom().contains(vpn) {
                Some(self@[vpn])
            } else {
                None::<PageTableEntry>
            },
    {
        match self.table.get(&vpn) {
            Some(e) => Some(*e),
            None => None,
        }
    }

    /// Inserts a mapping for a page that has none.
    pub fn map_page(&mut self, vpn: usize, ppn: usize, perm: MapPermission)
        requires
            old(self).wf(),
            !old(self)@.dom().contains(vpn),
            ppn < PPN_LIMIT,
        ensures
            final(self).wf(),
            final(self)@ == old(self)@.insert(vpn, PageTableEntry { ppn, perm }),
    {
        self.table.insert(vpn, PageTableEntry { ppn, perm });
    }

    /// Removes the mapping of a mapped page, handing the entry back so the
    /// caller can release its frame.
    pub fn unmap_page(&mut self, vpn: usize) -> (r: PageTableEntry)
        requires
            old(self).wf(),
            old(self)@.dom().contains(vpn),
        ensures
            final(self).wf(),
            final(self)@ == old(self)@.remove(vpn),
            r == old(self)@[vpn],
    {
        match self.table.remove(&vpn) {
            Some(e) => e,
            None => {
                proof {
                    assert(false);
                }
                PageTableEntry { ppn: 0, perm: MapPermission { r: false, w: false, x: false, u: false } }
            },
        }
    }
}

/// The physical address a virtual address reaches through a table: the base
/// of its page's frame plus the offset within the page; absent when the page
/// is unmapped.
pub open spec fn translate_va(m: Map<usize, PageTableEntry>, va: usize) -> Option<int> {
    if m.dom().contains((va as int / PAGE_SIZE as int) as usize) {
        Some(m[(va as int / PAGE_SIZE as int) as usize].ppn * PAGE_SIZE + (va as int % PAGE_SIZE as int))
    } else {
        None
    }
}

/// Turns a user virtual address into the physical address it reaches through
/// a task's page table, or `None` when the page is unmapped. Every syscall
/// that takes a user pointer goes through this before touching memory.
pub fn translate_addr(pt: &PageTable, va: usize) -> (r: Option<usize>)
    requires
        pt.wf(),
    ensures
        match r {
            Some(pa) => translate_va(pt@, va) == Some(pa as int),
            None => translate_va(pt@, va) is None,
        },
{
    match pt.find_pte(va / PAGE_SIZE) {
        Some(e) => Some(e.ppn * PAGE_SIZE + va % PAGE_SIZE),
        None => None,
    }
}

} // verus!
