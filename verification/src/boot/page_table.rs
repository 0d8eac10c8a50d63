//! The page table built while booting.
//!
//! Every table the bootstrap page table creates is recorded together with the
//! indices it serves, so that a later mapping through the same indices reuses
//! it. The record also holds the contents of the table, which belong in the
//! frame the record names.
use crate::arch::{spec_p1, spec_p2, spec_p3, spec_p4, PhysAddr, VirtAddr};
use crate::boot::frame_allocator::{
    alloc_iter, alloc_next, can_allocate, lemma_alloc_iter_add, lemma_alloc_iter_total, lemma_can_allocate_join,
    lemma_can_allocate_split,
    lemma_step_is_next,
    BootstrapFrameAllocator, LOW_MEMORY_LIMIT,
};
use crate::boot::memory_map::usable_total;
use crate::mm::mappings::PAGE_TABLE_START;
use crate::mm::page_table::{spec_entry, PageTable, PageTableEntry, PageTableFlags};
use crate::mm::paging::{PhysFrame, Size2MiB, Size4KiB};
use vstd::prelude::*;

verus! {

/// The level-4 index that maps the level-4 table onto itself.
pub const RECURSIVE_INDEX: usize = 510;

/// The entry that links a table to the next-level table in `frame`: present and
/// writable.
pub open spec fn link_entry(frame: nat) -> u64 {
    spec_entry(frame as u64, 3)
}

/// A level-3 table and the level-4 index it serves.
pub struct PdptTable {
    pub frame: PhysFrame<Size4KiB>,
    pub addr: VirtAddr,
    pub pml4_index: usize,
    pub table: PageTable,
}

/// A level-2 table and the indices it serves.
pub struct PdTable {
    pub frame: PhysFrame<Size4KiB>,
    pub addr: VirtAddr,
    pub pml4_index: usize,
    pub pdpt_index: usize,
    pub table: PageTable,
}

/// A level-1 table and the indices it serves.
pub struct PtTable {
    pub frame: PhysFrame<Size4KiB>,
    pub addr: VirtAddr,
    pub pml4_index: usize,
    pub pdpt_index: usize,
    pub pd_index: usize,
    pub table: PageTable,
}

/// The page table built while booting.
pub struct BootstrapPageTable {
    pml4_phys: PhysFrame<Size4KiB>,
    pml4: PageTable,
    pdpts: Vec<PdptTable>,
    pds: Vec<PdTable>,
    pts: Vec<PtTable>,
    hhdm_offset: u64,
}

impl BootstrapPageTable {
    /// The frame of the level-4 table.
    pub closed spec fn spec_pml4_frame(&self) -> nat {
        self.pml4_phys.spec_start()
    }

    /// The entries of the level-4 table.
    pub closed spec fn spec_pml4(&self) -> Seq<PageTableEntry> {
        self.pml4@
    }

    /// The offset of the direct map that the bootloader set up.
    pub closed spec fn spec_hhdm(&self) -> nat {
        self.hhdm_offset as nat
    }

    /// The frames of the level-3 tables, in the order they were made.
    pub closed spec fn spec_pdpt_frames(&self) -> Seq<nat> {
        self.pdpts@.map_values(|t: PdptTable| t.frame.spec_start())
    }

    /// The frames of the level-2 tables, in the order they were made.
    pub closed spec fn spec_pd_frames(&self) -> Seq<nat> {
        self.pds@.map_values(|t: PdTable| t.frame.spec_start())
    }

    /// The frames of the level-1 tables, in the order they were made.
    pub closed spec fn spec_pt_frames(&self) -> Seq<nat> {
        self.pts@.map_values(|t: PtTable| t.frame.spec_start())
    }

    /// Whether a level-1 table serves the indices `(i4, i3, i2)`.
    pub closed spec fn has_pt(&self, i4: nat, i3: nat, i2: nat) -> bool {
        exists|k: int|
            0 <= k < self.pts@.len() && (#[trigger] self.pts@[k]).pml4_index == i4 && self.pts@[k].pdpt_index == i3
                && self.pts@[k].pd_index == i2
    }

    /// Whether a level-2 table serves the indices `(i4, i3)`.
    pub closed spec fn has_pd(&self, i4: nat, i3: nat) -> bool {
        exists|k: int| 0 <= k < self.pds@.len() && (#[trigger] self.pds@[k]).pml4_index == i4 && self.pds@[k].pdpt_index == i3
    }

    /// Whether a level-3 table serves the index `i4`.
    pub closed spec fn has_pdpt(&self, i4: nat) -> bool {
        exists|k: int| 0 <= k < self.pdpts@.len() && (#[trigger] self.pdpts@[k]).pml4_index == i4
    }

    /// The level-1 entry reached through the indices `(i4, i3, i2, i1)`, if a
    /// level-1 table serves `(i4, i3, i2)`.
    pub closed spec fn spec_leaf(&self, i4: nat, i3: nat, i2: nat, i1: nat) -> Option<u64> {
        if self.has_pt(i4, i3, i2) {
            let k = choose|k: int|
                0 <= k < self.pts@.len() && (#[trigger] self.pts@[k]).pml4_index == i4 && self.pts@[k].pdpt_index
                    == i3 && self.pts@[k].pd_index == i2;
            Some(self.pts@[k].table@[i1 as int]@)
        } else {
            None
        }
    }

    spec fn pdpt_ok(&self, k: int) -> bool {
        let r = self.pdpts@[k];
        &&& r.pml4_index < 512
        &&& r.pml4_index != RECURSIVE_INDEX
        &&& r.table.wf()
        &&& r.frame.spec_start() < LOW_MEMORY_LIMIT
        &&& r.frame.spec_start() % 4096 == 0
        &&& self.pml4@[r.pml4_index as int]@ == link_entry(r.frame.spec_start())
    }

    spec fn pd_ok(&self, k: int) -> bool {
        let d = self.pds@[k];
        &&& d.pml4_index < 512
        &&& d.pdpt_index < 512
        &&& d.table.wf()
        &&& d.frame.spec_start() < LOW_MEMORY_LIMIT
        &&& d.frame.spec_start() % 4096 == 0
        &&& exists|p: int| 0 <= p < self.pdpts@.len() && (#[trigger] self.pdpts@[p]).pml4_index == d.pml4_index
        &&& forall|p: int|
            0 <= p < self.pdpts@.len() && (#[trigger] self.pdpts@[p]).pml4_index == d.pml4_index
                ==> self.pdpts@[p].table@[d.pdpt_index as int]@ == link_entry(d.frame.spec_start())
    }

    spec fn pt_ok(&self, k: int) -> bool {
        let t = self.pts@[k];
        &&& t.pml4_index < 512
        &&& t.pdpt_index < 512
        &&& t.pd_index < 512
        &&& t.table.wf()
        &&& t.frame.spec_start() < LOW_MEMORY_LIMIT
        &&& t.frame.spec_start() % 4096 == 0
        &&& exists|p: int|
            0 <= p < self.pds@.len() && (#[trigger] self.pds@[p]).pml4_index == t.pml4_index && self.pds@[p].pdpt_index
                == t.pdpt_index
        &&& forall|p: int|
            0 <= p < self.pds@.len() && (#[trigger] self.pds@[p]).pml4_index == t.pml4_index && self.pds@[p].pdpt_index
                == t.pdpt_index ==> self.pds@[p].table@[t.pd_index as int]@ == link_entry(t.frame.spec_start())
    }

    /// The tables are consistent: every recorded table is linked from its
    /// parent, no two records serve the same indices, and the level-4 table maps
    /// itself at [`RECURSIVE_INDEX`].
    pub closed spec fn wf(&self) -> bool {
        &&& self.pml4.wf()
        &&& self.pml4_phys.spec_start() < LOW_MEMORY_LIMIT
        &&& self.pml4_phys.spec_start() % 4096 == 0
        &&& self.hhdm_offset + LOW_MEMORY_LIMIT <= u64::MAX
        &&& self.pml4@[RECURSIVE_INDEX as int]@ == link_entry(self.pml4_phys.spec_start())
        &&& forall|k: int| 0 <= k < self.pdpts@.len() ==> #[trigger] self.pdpt_ok(k)
        &&& forall|k: int| 0 <= k < self.pds@.len() ==> #[trigger] self.pd_ok(k)
        &&& forall|k: int| 0 <= k < self.pts@.len() ==> #[trigger] self.pt_ok(k)
        &&& forall|a: int, b: int|
            0 <= a < self.pdpts@.len() && 0 <= b < self.pdpts@.len() && a != b ==> (#[trigger] self.pdpts@[a]).pml4_index
                != (#[trigger] self.pdpts@[b]).pml4_index
        &&& forall|a: int, b: int|
            0 <= a < self.pds@.len() && 0 <= b < self.pds@.len() && a != b ==> !((#[trigger] self.pds@[a]).pml4_index
                == (#[trigger] self.pds@[b]).pml4_index && self.pds@[a].pdpt_index == self.pds@[b].pdpt_index)
        &&& forall|a: int, b: int|
            0 <= a < self.pts@.len() && 0 <= b < self.pts@.len() && a != b ==> !((#[trigger] self.pts@[a]).pml4_index
                == (#[trigger] self.pts@[b]).pml4_index && self.pts@[a].pdpt_index == self.pts@[b].pdpt_index
                && self.pts@[a].pd_index == self.pts@[b].pd_index)
    }

    /// Creates an empty page table whose level-4 table lives in a fresh frame
    /// below 4GiB; that table maps itself at [`RECURSIVE_INDEX`].
    pub fn new(hhdm_offset: u64, frame_allocator: &mut BootstrapFrameAllocator) -> (r: Self)
        requires
            hhdm_offset + LOW_MEMORY_LIMIT <= u64::MAX,
            can_allocate(old(frame_allocator).spec_map(), 1),
        ensures
            r.wf(),
            final(frame_allocator).spec_map() == alloc_next(old(frame_allocator).spec_map(), 4096, true),
            r.spec_hhdm() == hhdm_offset,
            forall|i4: nat, i3: nat, i2: nat, i1: nat| #[trigger] r.spec_leaf(i4, i3, i2, i1) is None,
    {
        let ghost s0 = frame_allocator.spec_map();
        let allocated = frame_allocator.allocate_mapped_frame();
        proof {
            lemma_step_is_next(
                s0,
                frame_allocator.spec_map(),
                4096,
                true,
                match allocated {
                    Some(f) => Some(f.spec_start()),
                    None => None,
                },
            );
        }
        let pml4_phys = allocated.unwrap();
        proof {
            lemma_step_is_next(s0, frame_allocator.spec_map(), 4096, true, Some(pml4_phys.spec_start()));
            crate::boot::frame_allocator::lemma_frame_low(s0, 4096);
            crate::boot::frame_allocator::lemma_frame_aligned(s0, 4096, true);
        }
        let mut pml4 = PageTable::new();
        let mut entry = PageTableEntry::new();
        entry.set_frame(pml4_phys, PageTableFlags::present().union(PageTableFlags::writable()));
        pml4.set(RECURSIVE_INDEX, entry);
        proof {
            assert(1u64 << 0u64 | 1u64 << 1u64 == 3) by (bit_vector);
        }
        Self { pml4_phys, pml4, pdpts: Vec::new(), pds: Vec::new(), pts: Vec::new(), hhdm_offset }
    }
}

impl BootstrapPageTable {
    /// The number of tables a mapping through `(i4, i3, i2)` has to create.
    pub closed spec fn missing_tables(&self, i4: nat, i3: nat, i2: nat) -> nat {
        if self.has_pt(i4, i3, i2) {
            0
        } else if self.has_pd(i4, i3) {
            1
        } else if self.has_pdpt(i4) {
            2
        } else {
            3
        }
    }

    proof fn lemma_leaf(&self, k: int, i1: nat)
        requires
            self.wf(),
            0 <= k < self.pts@.len(),
        ensures
            self.has_pt(self.pts@[k].pml4_index as nat, self.pts@[k].pdpt_index as nat, self.pts@[k].pd_index as nat),
            self.spec_leaf(self.pts@[k].pml4_index as nat, self.pts@[k].pdpt_index as nat, self.pts@[k].pd_index as nat, i1)
                == Some(self.pts@[k].table@[i1 as int]@),
    {
        let t = self.pts@[k];
        assert(self.has_pt(t.pml4_index as nat, t.pdpt_index as nat, t.pd_index as nat));
        let c = choose|c: int|
            0 <= c < self.pts@.len() && (#[trigger] self.pts@[c]).pml4_index == t.pml4_index as nat
                && self.pts@[c].pdpt_index == t.pdpt_index as nat && self.pts@[c].pd_index == t.pd_index as nat;
        if c != k {
            assert(self.pts@[c].pml4_index == self.pts@[k].pml4_index);
        }
    }

    /// Takes a frame below 4GiB for a new table.
    fn allocate_table_frame(frame_allocator: &mut BootstrapFrameAllocator) -> (r: PhysFrame<Size4KiB>)
        requires
            can_allocate(old(frame_allocator).spec_map(), 1),
        ensures
            final(frame_allocator).spec_map() == alloc_next(old(frame_allocator).spec_map(), 4096, true),
            r.spec_start() < LOW_MEMORY_LIMIT,
            r.spec_start() % 4096 == 0,
    {
        let ghost s0 = frame_allocator.spec_map();
        let allocated = frame_allocator.allocate_mapped_frame();
        proof {
            lemma_step_is_next(
                s0,
                frame_allocator.spec_map(),
                4096,
                true,
                match allocated {
                    Some(f) => Some(f.spec_start()),
                    None => None,
                },
            );
            crate::boot::frame_allocator::lemma_frame_low(s0, 4096);
            crate::boot::frame_allocator::lemma_frame_aligned(s0, 4096, true);
        }
        allocated.unwrap()
    }

    fn try_get_pdpt(&self, pml4_index: usize) -> (r: Option<usize>)
        ensures
            match r {
                Some(k) => k < self.pdpts@.len() && self.pdpts@[k as int].pml4_index == pml4_index,
                None => !self.has_pdpt(pml4_index as nat),
            },
    {
        let mut i: usize = 0;
        while i < self.pdpts.len()
            invariant
                i <= self.pdpts@.len(),
                forall|j: int| 0 <= j < i ==> (#[trigger] self.pdpts@[j]).pml4_index != pml4_index,
            decreases self.pdpts@.len() - i,
        {
            if self.pdpts[i].pml4_index == pml4_index {
                return Some(i);
            }
            i = i + 1;
        }
        None
    }

    fn try_get_pd(&self, pml4_index: usize, pdpt_index: usize) -> (r: Option<usize>)
        ensures
            match r {
                Some(k) => k < self.pds@.len() && self.pds@[k as int].pml4_index == pml4_index
                    && self.pds@[k as int].pdpt_index == pdpt_index,
                None => !self.has_pd(pml4_index as nat, pdpt_index as nat),
            },
    {
        let mut i: usize = 0;
        while i < self.pds.len()
            invariant
                i <= self.pds@.len(),
                forall|j: int|
                    0 <= j < i ==> !((#[trigger] self.pds@[j]).pml4_index == pml4_index && self.pds@[j].pdpt_index
                        == pdpt_index),
            decreases self.pds@.len() - i,
        {
            if self.pds[i].pml4_index == pml4_index && self.pds[i].pdpt_index == pdpt_index {
                return Some(i);
            }
            i = i + 1;
        }
        None
    }

    fn try_get_pt(&self, pml4_index: usize, pdpt_index: usize, pd_index: usize) -> (r: Option<usize>)
        ensures
            match r {
                Some(k) => k < self.pts@.len() && self.pts@[k as int].pml4_index == pml4_index
                    && self.pts@[k as int].pdpt_index == pdpt_index && self.pts@[k as int].pd_index == pd_index,
                None => !self.has_pt(pml4_index as nat, pdpt_index as nat, pd_index as nat),
            },
    {
        let mut i: usize = 0;
        while i < self.pts.len()
            invariant
                i <= self.pts@.len(),
                forall|j: int|
                    0 <= j < i ==> !((#[trigger] self.pts@[j]).pml4_index == pml4_index && self.pts@[j].pdpt_index
                        == pdpt_index && self.pts@[j].pd_index == pd_index),
            decreases self.pts@.len() - i,
        {
            if self.pts[i].pml4_index == pml4_index && self.pts[i].pdpt_index == pdpt_index && self.pts[i].pd_index
                == pd_index {
                return Some(i);
            }
            i = i + 1;
        }
        None
    }

    fn get_or_create_pdpt(&mut self, pml4_index: usize, frame_allocator: &mut BootstrapFrameAllocator) -> (r: usize)
        requires
            old(self).wf(),
            pml4_index < 512,
            pml4_index != RECURSIVE_INDEX,
            !old(self).has_pdpt(pml4_index as nat) ==> can_allocate(old(frame_allocator).spec_map(), 1),
        ensures
            final(self).wf(),
            r < final(self).pdpts@.len(),
            final(self).pdpts@[r as int].pml4_index == pml4_index,
            final(self).pds@ == old(self).pds@,
            final(self).pts@ == old(self).pts@,
            final(self).pml4_phys == old(self).pml4_phys,
            final(self).hhdm_offset == old(self).hhdm_offset,
            final(self).pdpts@.len() >= old(self).pdpts@.len(),
            forall|j: int| 0 <= j < old(self).pdpts@.len() ==> #[trigger] final(self).pdpts@[j] == old(self).pdpts@[j],
            forall|j: int|
                old(self).pdpts@.len() <= j < final(self).pdpts@.len() ==> (#[trigger] final(self).pdpts@[j]).pml4_index
                    == pml4_index,
            final(frame_allocator).spec_map() == if old(self).has_pdpt(pml4_index as nat) {
                old(frame_allocator).spec_map()
            } else {
                alloc_next(old(frame_allocator).spec_map(), 4096, true)
            },
            old(self).has_pdpt(pml4_index as nat) ==> final(self).pdpts@ == old(self).pdpts@,
    {
        match self.try_get_pdpt(pml4_index) {
            Some(k) => {
                proof {
                    assert(self.pdpts@[k as int].pml4_index == pml4_index);
                    assert(self.has_pdpt(pml4_index as nat));
                }
                k
            },
            None => {
                let frame = Self::allocate_table_frame(frame_allocator);
                let addr = VirtAddr::new(frame.start_address().as_u64() + self.hhdm_offset);
                let table = PdptTable { frame, addr, pml4_index, table: PageTable::new() };
                let ghost old_self = *self;
                self.pdpts.push(table);
                let mut entry = PageTableEntry::new();
                entry.set_frame(frame, PageTableFlags::present().union(PageTableFlags::writable()));
                self.pml4.set(pml4_index, entry);
                proof {
                    assert(1u64 << 0u64 | 1u64 << 1u64 == 3) by (bit_vector);
                    let n = old_self.pdpts@.len();
                    assert forall|k: int| 0 <= k < self.pdpts@.len() implies #[trigger] self.pdpt_ok(k) by {
                        if k < n {
                            assert(old_self.pdpt_ok(k));
                            assert(self.pdpts@[k] == old_self.pdpts@[k]);
                            if self.pdpts@[k].pml4_index == pml4_index {
                                assert(old_self.has_pdpt(pml4_index as nat));
                            }
                        }
                    }
                    assert forall|k: int| 0 <= k < self.pds@.len() implies #[trigger] self.pd_ok(k) by {
                        assert(old_self.pd_ok(k));
                        let d = self.pds@[k];
                        let p0 = choose|p: int| 0 <= p < old_self.pdpts@.len() && (#[trigger] old_self.pdpts@[p]).pml4_index == d.pml4_index;
                        assert(self.pdpts@[p0] == old_self.pdpts@[p0]);
                        assert forall|p: int|
                            0 <= p < self.pdpts@.len() && (#[trigger] self.pdpts@[p]).pml4_index == d.pml4_index
                            implies self.pdpts@[p].table@[d.pdpt_index as int]@ == link_entry(d.frame.spec_start()) by {
                            if p == n {
                                assert(old_self.has_pdpt(pml4_index as nat));
                            } else {
                                assert(self.pdpts@[p] == old_self.pdpts@[p]);
                            }
                        }
                    }
                    assert forall|k: int| 0 <= k < self.pts@.len() implies #[trigger] self.pt_ok(k) by {
                        assert(old_self.pt_ok(k));
                    }
                    assert forall|a: int, b: int|
                        0 <= a < self.pdpts@.len() && 0 <= b < self.pdpts@.len() && a != b implies (#[trigger] self.pdpts@[a]).pml4_index
                            != (#[trigger] self.pdpts@[b]).pml4_index by {
                        if a == n {
                            assert(self.pdpts@[b] == old_self.pdpts@[b]);
                        } else if b == n {
                            assert(self.pdpts@[a] == old_self.pdpts@[a]);
                        } else {
                            assert(self.pdpts@[a] == old_self.pdpts@[a]);
                            assert(self.pdpts@[b] == old_self.pdpts@[b]);
                        }
                    }
                }
                self.pdpts.len() - 1
            },
        }
    }
}

impl BootstrapPageTable {
    fn get_or_create_pd(
        &mut self,
        pml4_index: usize,
        pdpt_index: usize,
        frame_allocator: &mut BootstrapFrameAllocator,
    ) -> (r: usize)
        requires
            old(self).wf(),
            pml4_index < 512,
            pdpt_index < 512,
            old(self).has_pdpt(pml4_index as nat),
            !old(self).has_pd(pml4_index as nat, pdpt_index as nat) ==> can_allocate(old(frame_allocator).spec_map(), 1),
        ensures
            final(self).wf(),
            r < final(self).pds@.len(),
            final(self).pds@[r as int].pml4_index == pml4_index,
            final(self).pds@[r as int].pdpt_index == pdpt_index,
            final(self).pts@ == old(self).pts@,
            final(self).pml4_phys == old(self).pml4_phys,
            final(self).hhdm_offset == old(self).hhdm_offset,
            final(self).pds@.len() >= old(self).pds@.len(),
            forall|j: int| 0 <= j < old(self).pds@.len() ==> #[trigger] final(self).pds@[j] == old(self).pds@[j],
            forall|j: int|
                old(self).pds@.len() <= j < final(self).pds@.len() ==> (#[trigger] final(self).pds@[j]).pml4_index
                    == pml4_index && final(self).pds@[j].pdpt_index == pdpt_index,
            final(self).pdpts@.len() == old(self).pdpts@.len(),
            forall|j: int| 0 <= j < old(self).pdpts@.len() ==> (#[trigger] final(self).pdpts@[j]).pml4_index == old(self).pdpts@[j].pml4_index
                && final(self).pdpts@[j].frame == old(self).pdpts@[j].frame,
            final(frame_allocator).spec_map() == if old(self).has_pd(pml4_index as nat, pdpt_index as nat) {
                old(frame_allocator).spec_map()
            } else {
                alloc_next(old(frame_allocator).spec_map(), 4096, true)
            },
            old(self).has_pd(pml4_index as nat, pdpt_index as nat) ==> final(self).pds@.len() == old(self).pds@.len(),
    {
        match self.try_get_pd(pml4_index, pdpt_index) {
            Some(k) => {
                proof {
                    assert(self.pds@[k as int].pml4_index == pml4_index);
                    assert(self.has_pd(pml4_index as nat, pdpt_index as nat));
                }
                k
            },
            None => {
                let frame = Self::allocate_table_frame(frame_allocator);
                let addr = VirtAddr::new(frame.start_address().as_u64() + self.hhdm_offset);
                let table = PdTable { frame, addr, pml4_index, pdpt_index, table: PageTable::new() };
                let ghost old_self = *self;
                self.pds.push(table);
                let p = self.try_get_pdpt(pml4_index).unwrap();
                let mut entry = PageTableEntry::new();
                entry.set_frame(frame, PageTableFlags::present().union(PageTableFlags::writable()));
                proof {
                    assert(old_self.pdpt_ok(p as int));
                }
                self.pdpts[p].table.set(pdpt_index, entry);
                proof {
                    assert(1u64 << 0u64 | 1u64 << 1u64 == 3) by (bit_vector);
                    let n = old_self.pds@.len();
                    assert forall|k: int| 0 <= k < self.pdpts@.len() implies #[trigger] self.pdpt_ok(k) by {
                        assert(old_self.pdpt_ok(k));
                    }
                    assert forall|k: int| 0 <= k < self.pds@.len() implies #[trigger] self.pd_ok(k) by {
                        let d = self.pds@[k];
                        if k < n {
                            assert(old_self.pd_ok(k));
                            assert(d == old_self.pds@[k]);
                            let p0 = choose|q: int| 0 <= q < old_self.pdpts@.len() && (#[trigger] old_self.pdpts@[q]).pml4_index == d.pml4_index;
                            assert(self.pdpts@[p0].pml4_index == d.pml4_index);
                            assert forall|q: int|
                                0 <= q < self.pdpts@.len() && (#[trigger] self.pdpts@[q]).pml4_index == d.pml4_index
                                implies self.pdpts@[q].table@[d.pdpt_index as int]@ == link_entry(d.frame.spec_start()) by {
                                assert(old_self.pdpts@[q].pml4_index == d.pml4_index);
                                if q == p && d.pdpt_index == pdpt_index {
                                    assert(old_self.has_pd(pml4_index as nat, pdpt_index as nat));
                                }
                            }
                        } else {
                            assert(self.pdpts@[p as int].pml4_index == d.pml4_index);
                            assert forall|q: int|
                                0 <= q < self.pdpts@.len() && (#[trigger] self.pdpts@[q]).pml4_index == d.pml4_index
                                implies self.pdpts@[q].table@[d.pdpt_index as int]@ == link_entry(d.frame.spec_start()) by {
                                if q != p {
                                    assert(old_self.pdpts@[q].pml4_index == old_self.pdpts@[p as int].pml4_index);
                                }
                            }
                        }
                    }
                    assert forall|k: int| 0 <= k < self.pts@.len() implies #[trigger] self.pt_ok(k) by {
                        assert(old_self.pt_ok(k));
                        let t = self.pts@[k];
                        let p0 = choose|q: int| 0 <= q < old_self.pds@.len() && (#[trigger] old_self.pds@[q]).pml4_index
                            == t.pml4_index && old_self.pds@[q].pdpt_index == t.pdpt_index;
                        assert(self.pds@[p0] == old_self.pds@[p0]);
                        assert forall|q: int|
                            0 <= q < self.pds@.len() && (#[trigger] self.pds@[q]).pml4_index == t.pml4_index && self.pds@[q].pdpt_index
                                == t.pdpt_index implies self.pds@[q].table@[t.pd_index as int]@ == link_entry(t.frame.spec_start()) by {
                            if q == n {
                                assert(old_self.has_pd(pml4_index as nat, pdpt_index as nat));
                            } else {
                                assert(self.pds@[q] == old_self.pds@[q]);
                            }
                        }
                    }
                    assert forall|a: int, b: int|
                        0 <= a < self.pdpts@.len() && 0 <= b < self.pdpts@.len() && a != b implies (#[trigger] self.pdpts@[a]).pml4_index
                            != (#[trigger] self.pdpts@[b]).pml4_index by {
                        assert(old_self.pdpts@[a].pml4_index != old_self.pdpts@[b].pml4_index);
                    }
                    assert forall|a: int, b: int|
                        0 <= a < self.pds@.len() && 0 <= b < self.pds@.len() && a != b implies !((#[trigger] self.pds@[a]).pml4_index
                            == (#[trigger] self.pds@[b]).pml4_index && self.pds@[a].pdpt_index == self.pds@[b].pdpt_index) by {
                        if a == n {
                            assert(self.pds@[b] == old_self.pds@[b]);
                        } else if b == n {
                            assert(self.pds@[a] == old_self.pds@[a]);
                        } else {
                            assert(self.pds@[a] == old_self.pds@[a]);
                            assert(self.pds@[b] == old_self.pds@[b]);
                        }
                    }
                }
                self.pds.len() - 1
            },
        }
    }
}

impl BootstrapPageTable {
    fn get_or_create_pt(
        &mut self,
        pml4_index: usize,
        pdpt_index: usize,
        pd_index: usize,
        frame_allocator: &mut BootstrapFrameAllocator,
    ) -> (r: usize)
        requires
            old(self).wf(),
            pml4_index < 512,
            pdpt_index < 512,
            pd_index < 512,
            old(self).has_pd(pml4_index as nat, pdpt_index as nat),
            !old(self).has_pt(pml4_index as nat, pdpt_index as nat, pd_index as nat) ==> can_allocate(
                old(frame_allocator).spec_map(),
                1,
            ),
        ensures
            final(self).wf(),
            r < final(self).pts@.len(),
            final(self).pts@[r as int].pml4_index == pml4_index,
            final(self).pts@[r as int].pdpt_index == pdpt_index,
            final(self).pts@[r as int].pd_index == pd_index,
            final(self).pml4_phys == old(self).pml4_phys,
            final(self).hhdm_offset == old(self).hhdm_offset,
            final(self).pts@.len() >= old(self).pts@.len(),
            forall|j: int| 0 <= j < old(self).pts@.len() ==> #[trigger] final(self).pts@[j] == old(self).pts@[j],
            forall|j: int|
                old(self).pts@.len() <= j < final(self).pts@.len() ==> (#[trigger] final(self).pts@[j]).pml4_index
                    == pml4_index && final(self).pts@[j].pdpt_index == pdpt_index && final(self).pts@[j].pd_index
                    == pd_index,
            final(self).pds@.len() == old(self).pds@.len(),
            forall|j: int|
                0 <= j < old(self).pds@.len() ==> (#[trigger] final(self).pds@[j]).pml4_index == old(self).pds@[j].pml4_index
                    && final(self).pds@[j].pdpt_index == old(self).pds@[j].pdpt_index && final(self).pds@[j].frame
                    == old(self).pds@[j].frame,
            final(self).pdpts@ == old(self).pdpts@,
            old(self).has_pt(pml4_index as nat, pdpt_index as nat, pd_index as nat) ==> final(self).pts@.len() == old(self).pts@.len(),
            !old(self).has_pt(pml4_index as nat, pdpt_index as nat, pd_index as nat) ==> final(self).pts@.len() == old(self).pts@.len() + 1
                && forall|i: int| 0 <= i < 512 ==> (#[trigger] final(self).pts@[r as int].table@[i])@ == 0,
            final(frame_allocator).spec_map() == if old(self).has_pt(pml4_index as nat, pdpt_index as nat, pd_index as nat) {
                old(frame_allocator).spec_map()
            } else {
                alloc_next(old(frame_allocator).spec_map(), 4096, true)
            },
    {
        match self.try_get_pt(pml4_index, pdpt_index, pd_index) {
            Some(k) => {
                proof {
                    assert(self.pts@[k as int].pml4_index == pml4_index);
                    assert(self.has_pt(pml4_index as nat, pdpt_index as nat, pd_index as nat));
                }
                k
            },
            None => {
                let frame = Self::allocate_table_frame(frame_allocator);
                let addr = VirtAddr::new(frame.start_address().as_u64() + self.hhdm_offset);
                let table = PtTable { frame, addr, pml4_index, pdpt_index, pd_index, table: PageTable::new() };
                let ghost old_self = *self;
                self.pts.push(table);
                let p = self.try_get_pd(pml4_index, pdpt_index).unwrap();
                let mut entry = PageTableEntry::new();
                entry.set_frame(frame, PageTableFlags::present().union(PageTableFlags::writable()));
                proof {
                    assert(old_self.pd_ok(p as int));
                }
                self.pds[p].table.set(pd_index, entry);
                proof {
                    assert(1u64 << 0u64 | 1u64 << 1u64 == 3) by (bit_vector);
                    let n = old_self.pts@.len();
                    assert forall|k: int| 0 <= k < self.pdpts@.len() implies #[trigger] self.pdpt_ok(k) by {
                        assert(old_self.pdpt_ok(k));
                    }
                    assert forall|k: int| 0 <= k < self.pds@.len() implies #[trigger] self.pd_ok(k) by {
                        assert(old_self.pd_ok(k));
                        let d = self.pds@[k];
                        let p0 = choose|q: int| 0 <= q < old_self.pdpts@.len() && (#[trigger] old_self.pdpts@[q]).pml4_index == d.pml4_index;
                        assert(self.pdpts@[p0] == old_self.pdpts@[p0]);
                        assert forall|q: int|
                            0 <= q < self.pdpts@.len() && (#[trigger] self.pdpts@[q]).pml4_index == d.pml4_index
                            implies self.pdpts@[q].table@[d.pdpt_index as int]@ == link_entry(d.frame.spec_start()) by {
                            assert(self.pdpts@[q] == old_self.pdpts@[q]);
                        }
                    }
                    assert forall|k: int| 0 <= k < self.pts@.len() implies #[trigger] self.pt_ok(k) by {
                        let t = self.pts@[k];
                        if k < n {
                            assert(old_self.pt_ok(k));
                            assert(t == old_self.pts@[k]);
                            let p0 = choose|q: int| 0 <= q < old_self.pds@.len() && (#[trigger] old_self.pds@[q]).pml4_index
                                == t.pml4_index && old_self.pds@[q].pdpt_index == t.pdpt_index;
                            assert(self.pds@[p0].pml4_index == t.pml4_index);
                            assert forall|q: int|
                                0 <= q < self.pds@.len() && (#[trigger] self.pds@[q]).pml4_index == t.pml4_index && self.pds@[q].pdpt_index
                                    == t.pdpt_index implies self.pds@[q].table@[t.pd_index as int]@ == link_entry(t.frame.spec_start()) by {
                                assert(old_self.pds@[q].pml4_index == t.pml4_index);
                                if q == p && t.pd_index == pd_index {
                                    assert(old_self.has_pt(pml4_index as nat, pdpt_index as nat, pd_index as nat));
                                }
                            }
                        } else {
                            assert(self.pds@[p as int].pml4_index == t.pml4_index);
                            assert forall|q: int|
                                0 <= q < self.pds@.len() && (#[trigger] self.pds@[q]).pml4_index == t.pml4_index && self.pds@[q].pdpt_index
                                    == t.pdpt_index implies self.pds@[q].table@[t.pd_index as int]@ == link_entry(t.frame.spec_start()) by {
                                if q != p {
                                    assert(old_self.pds@[q].pml4_index == old_self.pds@[p as int].pml4_index);
                                }
                            }
                        }
                    }
                    assert forall|a: int, b: int|
                        0 <= a < self.pdpts@.len() && 0 <= b < self.pdpts@.len() && a != b implies (#[trigger] self.pdpts@[a]).pml4_index
                            != (#[trigger] self.pdpts@[b]).pml4_index by {
                        assert(old_self.pdpts@[a].pml4_index != old_self.pdpts@[b].pml4_index);
                    }
                    assert forall|a: int, b: int|
                        0 <= a < self.pds@.len() && 0 <= b < self.pds@.len() && a != b implies !((#[trigger] self.pds@[a]).pml4_index
                            == (#[trigger] self.pds@[b]).pml4_index && self.pds@[a].pdpt_index == self.pds@[b].pdpt_index) by {
                        assert(!(old_self.pds@[a].pml4_index == old_self.pds@[b].pml4_index && old_self.pds@[a].pdpt_index
                            == old_self.pds@[b].pdpt_index));
                    }
                    assert forall|a: int, b: int|
                        0 <= a < self.pts@.len() && 0 <= b < self.pts@.len() && a != b implies !((#[trigger] self.pts@[a]).pml4_index
                            == (#[trigger] self.pts@[b]).pml4_index && self.pts@[a].pdpt_index == self.pts@[b].pdpt_index
                            && self.pts@[a].pd_index == self.pts@[b].pd_index) by {
                        if a == n {
                            assert(self.pts@[b] == old_self.pts@[b]);
                        } else if b == n {
                            assert(self.pts@[a] == old_self.pts@[a]);
                        } else {
                            assert(self.pts@[a] == old_self.pts@[a]);
                            assert(self.pts@[b] == old_self.pts@[b]);
                        }
                    }
                }
                self.pts.len() - 1
            },
        }
    }
}

impl BootstrapPageTable {
    proof fn lemma_pdpts_grow(t0: Self, t1: Self, i4: nat)
        requires
            t1.pdpts@.len() >= t0.pdpts@.len(),
            forall|j: int| 0 <= j < t0.pdpts@.len() ==> (#[trigger] t1.pdpts@[j]).pml4_index == t0.pdpts@[j].pml4_index,
            forall|j: int| t0.pdpts@.len() <= j < t1.pdpts@.len() ==> (#[trigger] t1.pdpts@[j]).pml4_index == i4,
        ensures
            forall|a: nat| #[trigger] t1.has_pdpt(a) == (t0.has_pdpt(a) || (a == i4 && t1.pdpts@.len() > t0.pdpts@.len())),
    {
        assert forall|a: nat| #[trigger] t1.has_pdpt(a) == (t0.has_pdpt(a) || (a == i4 && t1.pdpts@.len() > t0.pdpts@.len())) by {
            if t1.has_pdpt(a) {
                let k = choose|k: int| 0 <= k < t1.pdpts@.len() && (#[trigger] t1.pdpts@[k]).pml4_index == a;
                if k < t0.pdpts@.len() {
                    assert(t0.pdpts@[k].pml4_index == a);
                }
            }
            if t0.has_pdpt(a) {
                let k = choose|k: int| 0 <= k < t0.pdpts@.len() && (#[trigger] t0.pdpts@[k]).pml4_index == a;
                assert(t1.pdpts@[k].pml4_index == a);
            }
            if a == i4 && t1.pdpts@.len() > t0.pdpts@.len() {
                assert(t1.pdpts@[t0.pdpts@.len() as int].pml4_index == a);
            }
        }
    }

    proof fn lemma_pds_grow(t0: Self, t1: Self, i4: nat, i3: nat)
        requires
            t1.pds@.len() >= t0.pds@.len(),
            forall|j: int|
                0 <= j < t0.pds@.len() ==> (#[trigger] t1.pds@[j]).pml4_index == t0.pds@[j].pml4_index
                    && t1.pds@[j].pdpt_index == t0.pds@[j].pdpt_index,
            forall|j: int|
                t0.pds@.len() <= j < t1.pds@.len() ==> (#[trigger] t1.pds@[j]).pml4_index == i4 && t1.pds@[j].pdpt_index
                    == i3,
        ensures
            forall|a: nat, b: nat|
                #[trigger] t1.has_pd(a, b) == (t0.has_pd(a, b) || (a == i4 && b == i3 && t1.pds@.len() > t0.pds@.len())),
    {
        assert forall|a: nat, b: nat|
            #[trigger] t1.has_pd(a, b) == (t0.has_pd(a, b) || (a == i4 && b == i3 && t1.pds@.len() > t0.pds@.len())) by {
            if t1.has_pd(a, b) {
                let k = choose|k: int| 0 <= k < t1.pds@.len() && (#[trigger] t1.pds@[k]).pml4_index == a && t1.pds@[k].pdpt_index == b;
                if k < t0.pds@.len() {
                    assert(t0.pds@[k].pml4_index == a && t0.pds@[k].pdpt_index == b);
                }
            }
            if t0.has_pd(a, b) {
                let k = choose|k: int| 0 <= k < t0.pds@.len() && (#[trigger] t0.pds@[k]).pml4_index == a && t0.pds@[k].pdpt_index == b;
                assert(t1.pds@[k].pml4_index == a && t1.pds@[k].pdpt_index == b);
            }
            if a == i4 && b == i3 && t1.pds@.len() > t0.pds@.len() {
                assert(t1.pds@[t0.pds@.len() as int].pml4_index == a);
            }
        }
    }

    proof fn lemma_pts_grow(t0: Self, t1: Self, i4: nat, i3: nat, i2: nat)
        requires
            t1.pts@.len() >= t0.pts@.len(),
            forall|j: int|
                0 <= j < t0.pts@.len() ==> (#[trigger] t1.pts@[j]).pml4_index == t0.pts@[j].pml4_index
                    && t1.pts@[j].pdpt_index == t0.pts@[j].pdpt_index && t1.pts@[j].pd_index == t0.pts@[j].pd_index,
            forall|j: int|
                t0.pts@.len() <= j < t1.pts@.len() ==> (#[trigger] t1.pts@[j]).pml4_index == i4 && t1.pts@[j].pdpt_index
                    == i3 && t1.pts@[j].pd_index == i2,
        ensures
            forall|a: nat, b: nat, c: nat|
                #[trigger] t1.has_pt(a, b, c) == (t0.has_pt(a, b, c) || (a == i4 && b == i3 && c == i2 && t1.pts@.len()
                    > t0.pts@.len())),
    {
        assert forall|a: nat, b: nat, c: nat|
            #[trigger] t1.has_pt(a, b, c) == (t0.has_pt(a, b, c) || (a == i4 && b == i3 && c == i2 && t1.pts@.len()
                > t0.pts@.len())) by {
            if t1.has_pt(a, b, c) {
                let k = choose|k: int|
                    0 <= k < t1.pts@.len() && (#[trigger] t1.pts@[k]).pml4_index == a && t1.pts@[k].pdpt_index == b
                        && t1.pts@[k].pd_index == c;
                if k < t0.pts@.len() {
                    assert(t0.pts@[k].pml4_index == a && t0.pts@[k].pdpt_index == b && t0.pts@[k].pd_index == c);
                }
            }
            if t0.has_pt(a, b, c) {
                let k = choose|k: int|
                    0 <= k < t0.pts@.len() && (#[trigger] t0.pts@[k]).pml4_index == a && t0.pts@[k].pdpt_index == b
                        && t0.pts@[k].pd_index == c;
                assert(t1.pts@[k].pml4_index == a && t1.pts@[k].pdpt_index == b && t1.pts@[k].pd_index == c);
            }
            if a == i4 && b == i3 && c == i2 && t1.pts@.len() > t0.pts@.len() {
                assert(t1.pts@[t0.pts@.len() as int].pml4_index == a);
            }
        }
    }
}

impl BootstrapPageTable {
    /// Maps the 4KiB page at `addr` to `frame` with `flags`, creating the
    /// tables on the way from frames below 4GiB where they are missing.
    pub fn map(
        &mut self,
        addr: VirtAddr,
        frame: PhysFrame<Size4KiB>,
        flags: PageTableFlags,
        frame_allocator: &mut BootstrapFrameAllocator,
    )
        requires
            old(self).wf(),
            spec_p4(addr@) != RECURSIVE_INDEX,
            can_allocate(
                old(frame_allocator).spec_map(),
                old(self).missing_tables(spec_p4(addr@), spec_p3(addr@), spec_p2(addr@)),
            ),
        ensures
            final(self).wf(),
            final(self).spec_leaf(spec_p4(addr@), spec_p3(addr@), spec_p2(addr@), spec_p1(addr@)) == Some(
                spec_entry(frame.spec_start() as u64, flags@),
            ),
            forall|i4: nat, i3: nat, i2: nat, i1: nat|
                i1 < 512 && !(i4 == spec_p4(addr@) && i3 == spec_p3(addr@) && i2 == spec_p2(addr@) && i1 == spec_p1(
                    addr@,
                )) ==> #[trigger] final(self).spec_leaf(i4, i3, i2, i1) == old(self).spec_leaf(i4, i3, i2, i1) || (
                old(self).spec_leaf(i4, i3, i2, i1) is None && final(self).spec_leaf(i4, i3, i2, i1) == Some(0u64)),
            final(frame_allocator).spec_map() == alloc_iter(
                old(frame_allocator).spec_map(),
                old(self).missing_tables(spec_p4(addr@), spec_p3(addr@), spec_p2(addr@)),
            ),
            final(self).spec_hhdm() == old(self).spec_hhdm(),
            final(self).spec_pml4_frame() == old(self).spec_pml4_frame(),
            forall|a: nat| #[trigger] final(self).has_pdpt(a) == (old(self).has_pdpt(a) || a == spec_p4(addr@)),
            forall|a: nat, b: nat|
                #[trigger] final(self).has_pd(a, b) == (old(self).has_pd(a, b) || (a == spec_p4(addr@) && b == spec_p3(
                    addr@,
                ))),
            final(self).spec_pdpt_frames().len() >= old(self).spec_pdpt_frames().len(),
            forall|j: int|
                0 <= j < old(self).spec_pdpt_frames().len() ==> #[trigger] final(self).spec_pdpt_frames()[j] == old(
                    self,
                ).spec_pdpt_frames()[j],
            final(self).spec_pd_frames().len() >= old(self).spec_pd_frames().len(),
            forall|j: int|
                0 <= j < old(self).spec_pd_frames().len() ==> #[trigger] final(self).spec_pd_frames()[j] == old(
                    self,
                ).spec_pd_frames()[j],
            final(self).spec_pt_frames().len() >= old(self).spec_pt_frames().len(),
            forall|j: int|
                0 <= j < old(self).spec_pt_frames().len() ==> #[trigger] final(self).spec_pt_frames()[j] == old(
                    self,
                ).spec_pt_frames()[j],
            forall|a: nat, b: nat, c: nat|
                #[trigger] final(self).has_pt(a, b, c) == (old(self).has_pt(a, b, c) || (a == spec_p4(addr@) && b
                    == spec_p3(addr@) && c == spec_p2(addr@))),
            old(self).has_pt(spec_p4(addr@), spec_p3(addr@), spec_p2(addr@)) ==> {
                &&& final(self).spec_pdpt_frames() == old(self).spec_pdpt_frames()
                &&& final(self).spec_pd_frames() == old(self).spec_pd_frames()
                &&& final(self).spec_pt_frames() == old(self).spec_pt_frames()
            },
    {
        let ghost s0 = frame_allocator.spec_map();
        let ghost t0 = *self;
        let pml4_index = addr.p4_index();
        let pdpt_index = addr.p3_index();
        let pd_index = addr.p2_index();
        let ghost miss = t0.missing_tables(pml4_index as nat, pdpt_index as nat, pd_index as nat);
        proof {
            if t0.has_pd(pml4_index as nat, pdpt_index as nat) {
                let q = choose|q: int| 0 <= q < t0.pds@.len() && (#[trigger] t0.pds@[q]).pml4_index == pml4_index
                    && t0.pds@[q].pdpt_index == pdpt_index;
                assert(t0.pd_ok(q));
                let p0 = choose|p: int| 0 <= p < t0.pdpts@.len() && (#[trigger] t0.pdpts@[p]).pml4_index == t0.pds@[q].pml4_index;
                assert(t0.has_pdpt(pml4_index as nat));
            }
            if t0.has_pt(pml4_index as nat, pdpt_index as nat, pd_index as nat) {
                let q = choose|q: int| 0 <= q < t0.pts@.len() && (#[trigger] t0.pts@[q]).pml4_index == pml4_index
                    && t0.pts@[q].pdpt_index == pdpt_index && t0.pts@[q].pd_index == pd_index;
                assert(t0.pt_ok(q));
                let p0 = choose|p: int| 0 <= p < t0.pds@.len() && (#[trigger] t0.pds@[p]).pml4_index == t0.pts@[q].pml4_index
                    && t0.pds@[p].pdpt_index == t0.pts@[q].pdpt_index;
                assert(t0.has_pd(pml4_index as nat, pdpt_index as nat));
            }
        }
        let ghost n1: nat = if t0.has_pdpt(pml4_index as nat) { 0 } else { 1 };
        proof {
            lemma_can_allocate_split(s0, n1, (miss - n1) as nat);
        }
        let _pdpt = self.get_or_create_pdpt(pml4_index, frame_allocator);
        let ghost t1 = *self;
        let ghost s1 = frame_allocator.spec_map();
        proof {
            assert(alloc_iter(alloc_next(s0, 4096, true), 0) == alloc_next(s0, 4096, true));
            assert(s1 == alloc_iter(s0, n1));
            assert(t1.has_pdpt(pml4_index as nat));
            if t0.has_pd(pml4_index as nat, pdpt_index as nat) {
                assert(t1.has_pd(pml4_index as nat, pdpt_index as nat));
            } else {
                assert(!t1.has_pd(pml4_index as nat, pdpt_index as nat));
            }
        }
        let ghost n2: nat = if t0.has_pd(pml4_index as nat, pdpt_index as nat) { 0 } else { 1 };
        proof {
            lemma_can_allocate_split(s1, n2, (miss - n1 - n2) as nat);
        }
        let _pd = self.get_or_create_pd(pml4_index, pdpt_index, frame_allocator);
        let ghost t2 = *self;
        let ghost s2 = frame_allocator.spec_map();
        proof {
            assert(alloc_iter(alloc_next(s1, 4096, true), 0) == alloc_next(s1, 4096, true));
            assert(s2 == alloc_iter(s1, n2));
            lemma_alloc_iter_add(s0, n1, n2);
            assert(t2.has_pd(pml4_index as nat, pdpt_index as nat));
            assert(t2.pts@ == t0.pts@);
        }
        let ghost n3: nat = if t0.has_pt(pml4_index as nat, pdpt_index as nat, pd_index as nat) { 0 } else { 1 };
        let k = self.get_or_create_pt(pml4_index, pdpt_index, pd_index, frame_allocator);
        let ghost t3 = *self;
        proof {
            assert(alloc_iter(alloc_next(s2, 4096, true), 0) == alloc_next(s2, 4096, true));
            assert(frame_allocator.spec_map() == alloc_iter(s2, n3));
            lemma_alloc_iter_add(s0, n1 + n2, n3);
            assert(n1 + n2 + n3 == miss);
        }
        let pt_index = addr.p1_index();
        let mut entry = PageTableEntry::new();
        entry.set_frame(frame, flags);
        proof {
            assert(t3.pt_ok(k as int));
        }
        self.pts[k].table.set(pt_index, entry);
        proof {
            let n = t0.pts@.len();
            assert forall|j: int| 0 <= j < self.pts@.len() && j != k implies #[trigger] self.pts@[j] == t3.pts@[j] by {}
            assert(self.pds@ == t3.pds@);
            assert(self.pdpts@ == t3.pdpts@);
            assert(self.pml4 == t3.pml4);
            assert forall|i: int| 0 <= i < self.pdpts@.len() implies #[trigger] self.pdpt_ok(i) by {
                assert(t3.pdpt_ok(i));
            }
            assert forall|i: int| 0 <= i < self.pds@.len() implies #[trigger] self.pd_ok(i) by {
                assert(t3.pd_ok(i));
            }
            assert forall|i: int| 0 <= i < self.pts@.len() implies #[trigger] self.pt_ok(i) by {
                assert(t3.pt_ok(i));
                let t = t3.pts@[i];
                assert(self.pts@[i].pml4_index == t.pml4_index && self.pts@[i].pdpt_index == t.pdpt_index
                    && self.pts@[i].pd_index == t.pd_index && self.pts@[i].frame == t.frame);
                assert(self.pts@[i].table.wf());
            }
            assert forall|a: int, b: int|
                0 <= a < self.pts@.len() && 0 <= b < self.pts@.len() && a != b implies !((#[trigger] self.pts@[a]).pml4_index
                    == (#[trigger] self.pts@[b]).pml4_index && self.pts@[a].pdpt_index == self.pts@[b].pdpt_index
                    && self.pts@[a].pd_index == self.pts@[b].pd_index) by {
                assert(!(t3.pts@[a].pml4_index == t3.pts@[b].pml4_index && t3.pts@[a].pdpt_index == t3.pts@[b].pdpt_index
                    && t3.pts@[a].pd_index == t3.pts@[b].pd_index));
            }
            assert(self.wf());
            Self::lemma_pdpts_grow(t0, t1, pml4_index as nat);
            Self::lemma_pdpts_grow(t1, t2, pml4_index as nat);
            Self::lemma_pdpts_grow(t2, *self, pml4_index as nat);
            Self::lemma_pds_grow(t0, t1, pml4_index as nat, pdpt_index as nat);
            Self::lemma_pds_grow(t1, t2, pml4_index as nat, pdpt_index as nat);
            Self::lemma_pds_grow(t2, *self, pml4_index as nat, pdpt_index as nat);
            Self::lemma_pts_grow(t0, t1, pml4_index as nat, pdpt_index as nat, pd_index as nat);
            Self::lemma_pts_grow(t1, t2, pml4_index as nat, pdpt_index as nat, pd_index as nat);
            Self::lemma_pts_grow(t2, *self, pml4_index as nat, pdpt_index as nat, pd_index as nat);
            assert(self.has_pdpt(pml4_index as nat));
            assert(self.has_pd(pml4_index as nat, pdpt_index as nat));
            assert(self.has_pt(pml4_index as nat, pdpt_index as nat, pd_index as nat));
            if t0.has_pt(pml4_index as nat, pdpt_index as nat, pd_index as nat) {
                assert(self.spec_pdpt_frames() =~= t0.spec_pdpt_frames());
                assert(self.spec_pd_frames() =~= t0.spec_pd_frames());
                assert(self.spec_pt_frames() =~= t0.spec_pt_frames());
            }
            self.lemma_leaf(k as int, pt_index as nat);
            assert(1u64 << 0u64 | 1u64 << 1u64 == 3) by (bit_vector);
            assert forall|i4: nat, i3: nat, i2: nat, i1: nat|
                i1 < 512 && !(i4 == pml4_index && i3 == pdpt_index && i2 == pd_index && i1 == pt_index)
                implies #[trigger] self.spec_leaf(i4, i3, i2, i1) == t0.spec_leaf(i4, i3, i2, i1) || (
                t0.spec_leaf(i4, i3, i2, i1) is None && self.spec_leaf(i4, i3, i2, i1) == Some(0u64)) by {
                if t0.has_pt(i4, i3, i2) {
                    let c = choose|c: int|
                        0 <= c < t0.pts@.len() && (#[trigger] t0.pts@[c]).pml4_index == i4 && t0.pts@[c].pdpt_index == i3
                            && t0.pts@[c].pd_index == i2;
                    t0.lemma_leaf(c, i1);
                    self.lemma_leaf(c, i1);
                    assert(t3.pts@[c] == t0.pts@[c]);
                } else if self.has_pt(i4, i3, i2) {
                    let c = choose|c: int|
                        0 <= c < self.pts@.len() && (#[trigger] self.pts@[c]).pml4_index == i4 && self.pts@[c].pdpt_index == i3
                            && self.pts@[c].pd_index == i2;
                    self.lemma_leaf(c, i1);
                    if c < n {
                        assert(t0.pts@[c] == t3.pts@[c]);
                        assert(t0.has_pt(i4, i3, i2));
                    }
                    assert(c == k);
                }
            }
        }
    }
}

impl BootstrapPageTable {
    /// The level-2 entry reached through the indices `(i4, i3, i2)`, if a
    /// level-2 table serves `(i4, i3)`.
    pub closed spec fn spec_pd_entry(&self, i4: nat, i3: nat, i2: nat) -> Option<u64> {
        if self.has_pd(i4, i3) {
            let k = choose|k: int| 0 <= k < self.pds@.len() && (#[trigger] self.pds@[k]).pml4_index == i4 && self.pds@[k].pdpt_index == i3;
            Some(self.pds@[k].table@[i2 as int]@)
        } else {
            None
        }
    }

    proof fn lemma_pd_entry(&self, k: int, i2: nat)
        requires
            self.wf(),
            0 <= k < self.pds@.len(),
        ensures
            self.spec_pd_entry(self.pds@[k].pml4_index as nat, self.pds@[k].pdpt_index as nat, i2) == Some(
                self.pds@[k].table@[i2 as int]@,
            ),
    {
        let d = self.pds@[k];
        assert(self.has_pd(d.pml4_index as nat, d.pdpt_index as nat));
        let c = choose|c: int| 0 <= c < self.pds@.len() && (#[trigger] self.pds@[c]).pml4_index == d.pml4_index as nat
            && self.pds@[c].pdpt_index == d.pdpt_index as nat;
        if c != k {
            assert(self.pds@[c].pml4_index == self.pds@[k].pml4_index);
        }
    }

    /// The level-1 entry that maps `addr`, if its level-1 table exists.
    pub fn lookup(&self, addr: VirtAddr) -> (r: Option<PageTableEntry>)
        requires
            self.wf(),
        ensures
            match r {
                Some(e) => self.spec_leaf(spec_p4(addr@), spec_p3(addr@), spec_p2(addr@), spec_p1(addr@)) == Some(e@),
                None => self.spec_leaf(spec_p4(addr@), spec_p3(addr@), spec_p2(addr@), spec_p1(addr@)) is None,
            },
    {
        match self.try_get_pt(addr.p4_index(), addr.p3_index(), addr.p2_index()) {
            Some(k) => {
                proof {
                    self.lemma_leaf(k as int, spec_p1(addr@));
                    assert(self.pt_ok(k as int));
                }
                Some(self.pts[k].table.index(addr.p1_index()))
            },
            None => None,
        }
    }

    /// The physical address of the level-4 table, to be loaded into CR3.
    pub fn as_phys_addr(self) -> (r: PhysAddr)
        ensures
            r@ == self.spec_pml4_frame(),
    {
        self.pml4_phys.start_address()
    }

    /// Maps the 2MiB page at `addr` to `frame` with `flags` in the level-2
    /// table, creating the level-3 and level-2 tables where they are missing.
    /// No level-1 table may serve the page yet.
    pub fn map_2mib(
        &mut self,
        addr: VirtAddr,
        frame: PhysFrame<Size2MiB>,
        flags: PageTableFlags,
        frame_allocator: &mut BootstrapFrameAllocator,
    )
        requires
            old(self).wf(),
            spec_p4(addr@) != RECURSIVE_INDEX,
            frame.spec_start() % 4096 == 0,
            !old(self).has_pt(spec_p4(addr@), spec_p3(addr@), spec_p2(addr@)),
            can_allocate(old(frame_allocator).spec_map(), (old(self).missing_tables(spec_p4(addr@), spec_p3(addr@), spec_p2(addr@)) - 1) as nat),
        ensures
            final(self).wf(),
            final(self).spec_pd_entry(spec_p4(addr@), spec_p3(addr@), spec_p2(addr@)) == Some(
                spec_entry(frame.spec_start() as u64, flags@),
            ),
            forall|i4: nat, i3: nat, i2: nat, i1: nat| #[trigger] final(self).spec_leaf(i4, i3, i2, i1) == old(self).spec_leaf(i4, i3, i2, i1),
            final(frame_allocator).spec_map() == alloc_iter(
                old(frame_allocator).spec_map(),
                (old(self).missing_tables(spec_p4(addr@), spec_p3(addr@), spec_p2(addr@)) - 1) as nat,
            ),
            final(self).spec_hhdm() == old(self).spec_hhdm(),
            final(self).spec_pml4_frame() == old(self).spec_pml4_frame(),
    {
        let ghost s0 = frame_allocator.spec_map();
        let ghost t0 = *self;
        let pml4_index = addr.p4_index();
        let pdpt_index = addr.p3_index();
        let pd_index = addr.p2_index();
        proof {
            if t0.has_pd(pml4_index as nat, pdpt_index as nat) {
                let q = choose|q: int| 0 <= q < t0.pds@.len() && (#[trigger] t0.pds@[q]).pml4_index == pml4_index
                    && t0.pds@[q].pdpt_index == pdpt_index;
                assert(t0.pd_ok(q));
                let p0 = choose|p: int| 0 <= p < t0.pdpts@.len() && (#[trigger] t0.pdpts@[p]).pml4_index == t0.pds@[q].pml4_index;
                assert(t0.has_pdpt(pml4_index as nat));
            }
        }
        let ghost miss = (t0.missing_tables(pml4_index as nat, pdpt_index as nat, pd_index as nat) - 1) as nat;
        let ghost n1: nat = if t0.has_pdpt(pml4_index as nat) { 0 } else { 1 };
        proof {
            lemma_can_allocate_split(s0, n1, (miss - n1) as nat);
        }
        let _pdpt = self.get_or_create_pdpt(pml4_index, frame_allocator);
        let ghost t1 = *self;
        let ghost s1 = frame_allocator.spec_map();
        proof {
            assert(alloc_iter(alloc_next(s0, 4096, true), 0) == alloc_next(s0, 4096, true));
            assert(s1 == alloc_iter(s0, n1));
            assert(t1.has_pdpt(pml4_index as nat));
            if t0.has_pd(pml4_index as nat, pdpt_index as nat) {
                assert(t1.has_pd(pml4_index as nat, pdpt_index as nat));
            } else {
                assert(!t1.has_pd(pml4_index as nat, pdpt_index as nat));
            }
        }
        let ghost n2: nat = if t0.has_pd(pml4_index as nat, pdpt_index as nat) { 0 } else { 1 };
        let k = self.get_or_create_pd(pml4_index, pdpt_index, frame_allocator);
        let ghost t2 = *self;
        proof {
            assert(alloc_iter(alloc_next(s1, 4096, true), 0) == alloc_next(s1, 4096, true));
            assert(frame_allocator.spec_map() == alloc_iter(s1, n2));
            lemma_alloc_iter_add(s0, n1, n2);
            assert(t2.pts@ == t0.pts@);
            assert(t2.pd_ok(k as int));
        }
        let mut entry = PageTableEntry::new();
        entry.set_addr(frame.start_address(), flags);
        self.pds[k].table.set(pd_index, entry);
        proof {
            assert(self.pdpts@ == t2.pdpts@);
            assert(self.pts@ == t2.pts@);
            assert(self.pml4 == t2.pml4);
            assert forall|j: int| 0 <= j < self.pds@.len() && j != k implies #[trigger] self.pds@[j] == t2.pds@[j] by {}
            assert forall|i: int| 0 <= i < self.pdpts@.len() implies #[trigger] self.pdpt_ok(i) by {
                assert(t2.pdpt_ok(i));
            }
            assert forall|i: int| 0 <= i < self.pds@.len() implies #[trigger] self.pd_ok(i) by {
                assert(t2.pd_ok(i));
                let d = t2.pds@[i];
                assert(self.pds@[i].pml4_index == d.pml4_index && self.pds@[i].pdpt_index == d.pdpt_index
                    && self.pds@[i].frame == d.frame);
                assert(self.pds@[i].table.wf());
            }
            assert forall|i: int| 0 <= i < self.pts@.len() implies #[trigger] self.pt_ok(i) by {
                assert(t2.pt_ok(i));
                let t = t2.pts@[i];
                let p0 = choose|q: int| 0 <= q < t2.pds@.len() && (#[trigger] t2.pds@[q]).pml4_index
                    == t.pml4_index && t2.pds@[q].pdpt_index == t.pdpt_index;
                assert(self.pds@[p0].pml4_index == t.pml4_index);
                assert forall|q: int|
                    0 <= q < self.pds@.len() && (#[trigger] self.pds@[q]).pml4_index == t.pml4_index && self.pds@[q].pdpt_index
                        == t.pdpt_index implies self.pds@[q].table@[t.pd_index as int]@ == link_entry(t.frame.spec_start()) by {
                    assert(t2.pds@[q].pml4_index == t.pml4_index);
                    if q == k && t.pd_index == pd_index {
                        assert(t0.pts@[i] == t);
                        assert(t0.has_pt(pml4_index as nat, pdpt_index as nat, pd_index as nat));
                    }
                }
            }
            assert forall|a: int, b: int|
                0 <= a < self.pds@.len() && 0 <= b < self.pds@.len() && a != b implies !((#[trigger] self.pds@[a]).pml4_index
                    == (#[trigger] self.pds@[b]).pml4_index && self.pds@[a].pdpt_index == self.pds@[b].pdpt_index) by {
                assert(!(t2.pds@[a].pml4_index == t2.pds@[b].pml4_index && t2.pds@[a].pdpt_index == t2.pds@[b].pdpt_index));
            }
            assert(self.wf());
            self.lemma_pd_entry(k as int, pd_index as nat);
            assert forall|i4: nat, i3: nat, i2: nat, i1: nat| #[trigger] self.spec_leaf(i4, i3, i2, i1) == t0.spec_leaf(i4, i3, i2, i1) by {
                assert(self.pts@ == t0.pts@);
            }
        }
    }
}


/// The indices the tables of a page table serve: level-3 tables by level-4
/// index, level-2 tables by level-4 and level-3 index, level-1 tables by all
/// three.
pub type TableIndices = (Set<nat>, Set<(nat, nat)>, Set<(nat, nat, nat)>);

/// The number of tables a mapping of address `a` creates when the tables of
/// `ts` exist.
pub open spec fn tables_missing(ts: TableIndices, a: nat) -> nat {
    if ts.2.contains((spec_p4(a), spec_p3(a), spec_p2(a))) {
        0
    } else if ts.1.contains((spec_p4(a), spec_p3(a))) {
        1
    } else if ts.0.contains(spec_p4(a)) {
        2
    } else {
        3
    }
}

/// The tables that exist once address `a` is mapped.
pub open spec fn tables_with(ts: TableIndices, a: nat) -> TableIndices {
    (
        ts.0.insert(spec_p4(a)),
        ts.1.insert((spec_p4(a), spec_p3(a))),
        ts.2.insert((spec_p4(a), spec_p3(a), spec_p2(a))),
    )
}

/// The number of tables that mapping the `count` pages from `virt`, in order,
/// creates.
pub open spec fn range_tables(ts: TableIndices, virt: nat, count: nat) -> nat
    decreases count,
{
    if count == 0 {
        0
    } else {
        range_tables(ts, virt, (count - 1) as nat) + tables_missing(
            range_indices(ts, virt, (count - 1) as nat),
            virt + ((count - 1) as nat) * 4096,
        )
    }
}

/// The tables that exist once the `count` pages from `virt` are mapped.
pub open spec fn range_indices(ts: TableIndices, virt: nat, count: nat) -> TableIndices
    decreases count,
{
    if count == 0 {
        ts
    } else {
        tables_with(range_indices(ts, virt, (count - 1) as nat), virt + ((count - 1) as nat) * 4096)
    }
}

/// The `count` pages from `virt` lie in one 256TiB window of the address
/// space, so that no two of them share their table indices.
pub open spec fn in_one_window(virt: nat, count: nat) -> bool {
    (virt / 4096) % 0x10_0000_0000 + count <= 0x10_0000_0000
}

/// The table indices `(i4, i3, i2, i1)` are those of one of the `count` pages
/// from `virt`.
pub open spec fn in_range(virt: nat, count: nat, i4: nat, i3: nat, i2: nat, i1: nat) -> bool {
    exists|i: nat|
        i < count && #[trigger] spec_p4(virt + i * 4096) == i4 && spec_p3(virt + i * 4096) == i3 && spec_p2(
            virt + i * 4096,
        ) == i2 && spec_p1(virt + i * 4096) == i1
}

/// Pages `i` and `j` of a range in one window have different table indices.
pub(crate) proof fn lemma_pages_distinct(virt: nat, count: nat, i: nat, j: nat)
    requires
        in_one_window(virt, count),
        i < j < count,
        virt + count * 4096 <= 0x1_0000_0000_0000_0000,
    ensures
        !(spec_p4(virt + i * 4096) == spec_p4(virt + j * 4096) && spec_p3(virt + i * 4096) == spec_p3(virt + j * 4096)
            && spec_p2(virt + i * 4096) == spec_p2(virt + j * 4096) && spec_p1(virt + i * 4096) == spec_p1(
            virt + j * 4096,
        )),
{
    let a: nat = virt + i * 4096;
    let b: nat = virt + j * 4096;
    assert(a / 4096 == virt / 4096 + i) by (nonlinear_arith)
        requires a == virt + i * 4096;
    assert(b / 4096 == virt / 4096 + j) by (nonlinear_arith)
        requires b == virt + j * 4096;
    let v = virt / 4096;
    assert((v + i) % 0x10_0000_0000 == v % 0x10_0000_0000 + i) by (nonlinear_arith)
        requires v % 0x10_0000_0000 + i < 0x10_0000_0000;
    assert((v + j) % 0x10_0000_0000 == v % 0x10_0000_0000 + j) by (nonlinear_arith)
        requires v % 0x10_0000_0000 + j < 0x10_0000_0000;
    let x = a as u64;
    let y = b as u64;
    assert(x == a && y == b);
    assert(((x / 0x80_0000_0000) % 512 == (y / 0x80_0000_0000) % 512 && (x / 0x4000_0000) % 512 == (y / 0x4000_0000)
        % 512 && (x / 0x20_0000) % 512 == (y / 0x20_0000) % 512 && (x / 0x1000) % 512 == (y / 0x1000) % 512) ==> (x
        / 0x1000) % 0x10_0000_0000 == (y / 0x1000) % 0x10_0000_0000) by (bit_vector);
}

impl BootstrapPageTable {
    /// The indices the tables of this page table serve.
    pub closed spec fn table_indices(&self) -> TableIndices {
        (
            Set::new(|a: nat| self.has_pdpt(a)),
            Set::new(|p: (nat, nat)| self.has_pd(p.0, p.1)),
            Set::new(|t: (nat, nat, nat)| self.has_pt(t.0, t.1, t.2)),
        )
    }

    /// A level-1 table comes with its level-2 table, and that with its level-3
    /// table.
    proof fn lemma_nesting(&self, i4: nat, i3: nat, i2: nat)
        requires
            self.wf(),
        ensures
            self.has_pt(i4, i3, i2) ==> self.has_pd(i4, i3),
            self.has_pd(i4, i3) ==> self.has_pdpt(i4),
    {
        if self.has_pd(i4, i3) {
            let q = choose|q: int| 0 <= q < self.pds@.len() && (#[trigger] self.pds@[q]).pml4_index == i4 && self.pds@[q].pdpt_index == i3;
            assert(self.pd_ok(q));
            let p0 = choose|p: int| 0 <= p < self.pdpts@.len() && (#[trigger] self.pdpts@[p]).pml4_index == self.pds@[q].pml4_index;
            assert(self.pdpts@[p0].pml4_index == i4);
        }
        if self.has_pt(i4, i3, i2) {
            let q = choose|q: int|
                0 <= q < self.pts@.len() && (#[trigger] self.pts@[q]).pml4_index == i4 && self.pts@[q].pdpt_index == i3
                    && self.pts@[q].pd_index == i2;
            assert(self.pt_ok(q));
            let p0 = choose|p: int|
                0 <= p < self.pds@.len() && (#[trigger] self.pds@[p]).pml4_index == self.pts@[q].pml4_index
                    && self.pds@[p].pdpt_index == self.pts@[q].pdpt_index;
            assert(self.pds@[p0].pml4_index == i4 && self.pds@[p0].pdpt_index == i3);
        }
    }

    /// The tables a mapping of `a` creates are those it misses.
    proof fn lemma_missing(&self, a: nat)
        requires
            self.wf(),
        ensures
            self.missing_tables(spec_p4(a), spec_p3(a), spec_p2(a)) == tables_missing(self.table_indices(), a),
    {
        self.lemma_nesting(spec_p4(a), spec_p3(a), spec_p2(a));
        let ts = self.table_indices();
        assert(ts.0.contains(spec_p4(a)) == self.has_pdpt(spec_p4(a)));
        assert(ts.1.contains((spec_p4(a), spec_p3(a))) == self.has_pd(spec_p4(a), spec_p3(a)));
        assert(ts.2.contains((spec_p4(a), spec_p3(a), spec_p2(a))) == self.has_pt(spec_p4(a), spec_p3(a), spec_p2(a)));
    }

    /// Mapping `a` adds the tables of `a` to those that exist.
    pub(crate) proof fn lemma_indices_step(t0: Self, t1: Self, a: nat)
        requires
            forall|x: nat| #[trigger] t1.has_pdpt(x) == (t0.has_pdpt(x) || x == spec_p4(a)),
            forall|x: nat, y: nat|
                #[trigger] t1.has_pd(x, y) == (t0.has_pd(x, y) || (x == spec_p4(a) && y == spec_p3(a))),
            forall|x: nat, y: nat, z: nat|
                #[trigger] t1.has_pt(x, y, z) == (t0.has_pt(x, y, z) || (x == spec_p4(a) && y == spec_p3(a) && z
                    == spec_p2(a))),
        ensures
            t1.table_indices() == tables_with(t0.table_indices(), a),
    {
        let ts1 = t1.table_indices();
        let want = tables_with(t0.table_indices(), a);
        assert(ts1.0 =~= want.0);
        assert(ts1.1 =~= want.1);
        assert(ts1.2 =~= want.2);
    }

    /// The first `n` pages from `virt` map the frames from `phys` with `flags`.
    #[verifier::opaque]
    spec fn range_mapped(&self, virt: nat, phys: nat, n: nat, flags: u64) -> bool {
        forall|k: nat|
            k < n ==> #[trigger] self.spec_leaf(
                spec_p4(virt + k * 4096),
                spec_p3(virt + k * 4096),
                spec_p2(virt + k * 4096),
                spec_p1(virt + k * 4096),
            ) == Some(spec_entry((phys + k * 4096) as u64, flags))
    }

    /// Every leaf outside the first `n` pages from `virt` is as in `before`, or
    /// a fresh empty entry.
    #[verifier::opaque]
    spec fn others_kept(&self, before: Self, virt: nat, n: nat) -> bool {
        forall|i4: nat, i3: nat, i2: nat, i1: nat|
            i1 < 512 && !in_range(virt, n, i4, i3, i2, i1) ==> #[trigger] self.spec_leaf(i4, i3, i2, i1)
                == before.spec_leaf(i4, i3, i2, i1) || (before.spec_leaf(i4, i3, i2, i1) is None && self.spec_leaf(
                i4,
                i3,
                i2,
                i1,
            ) == Some(0u64))
    }

    /// One step of mapping a range: the leaves of the pages mapped so far stay,
    /// and every other leaf keeps its value or is a fresh empty entry.
    proof fn lemma_range_step(t_old: Self, t0: Self, t1: Self, virt: nat, phys: nat, count: nat, i: nat, flags: u64)
        requires
            i < count,
            in_one_window(virt, count),
            virt + count * 4096 <= 0x1_0000_0000_0000_0000,
            t1.spec_leaf(spec_p4(virt + i * 4096), spec_p3(virt + i * 4096), spec_p2(virt + i * 4096), spec_p1(virt + i * 4096))
                == Some(spec_entry((phys + i * 4096) as u64, flags)),
            forall|i4: nat, i3: nat, i2: nat, i1: nat|
                i1 < 512 && !(i4 == spec_p4(virt + i * 4096) && i3 == spec_p3(virt + i * 4096) && i2 == spec_p2(
                    virt + i * 4096,
                ) && i1 == spec_p1(virt + i * 4096)) ==> #[trigger] t1.spec_leaf(i4, i3, i2, i1) == t0.spec_leaf(
                    i4,
                    i3,
                    i2,
                    i1,
                ) || (t0.spec_leaf(i4, i3, i2, i1) is None && t1.spec_leaf(i4, i3, i2, i1) == Some(0u64)),
            t0.range_mapped(virt, phys, i, flags),
            t0.others_kept(t_old, virt, i),
        ensures
            t1.range_mapped(virt, phys, i + 1, flags),
            t1.others_kept(t_old, virt, i + 1),
    {
        reveal(BootstrapPageTable::range_mapped);
        reveal(BootstrapPageTable::others_kept);
        assert forall|k: nat|
            k < i + 1 implies #[trigger] t1.spec_leaf(
                spec_p4(virt + k * 4096),
                spec_p3(virt + k * 4096),
                spec_p2(virt + k * 4096),
                spec_p1(virt + k * 4096),
            ) == Some(spec_entry((phys + k * 4096) as u64, flags)) by {
            if k < i {
                lemma_pages_distinct(virt, count, k, i);
                assert(spec_p1(virt + k * 4096) < 512);
                assert(t0.spec_leaf(
                    spec_p4(virt + k * 4096),
                    spec_p3(virt + k * 4096),
                    spec_p2(virt + k * 4096),
                    spec_p1(virt + k * 4096),
                ) == Some(spec_entry((phys + k * 4096) as u64, flags)));
            }
        }
        assert forall|i4: nat, i3: nat, i2: nat, i1: nat|
            i1 < 512 && !in_range(virt, i + 1, i4, i3, i2, i1) implies #[trigger] t1.spec_leaf(i4, i3, i2, i1)
                == t_old.spec_leaf(i4, i3, i2, i1) || (t_old.spec_leaf(i4, i3, i2, i1) is None && t1.spec_leaf(
                i4,
                i3,
                i2,
                i1,
            ) == Some(0u64)) by {
            if in_range(virt, i, i4, i3, i2, i1) {
                let w = choose|w: nat|
                    w < i && #[trigger] spec_p4(virt + w * 4096) == i4 && spec_p3(virt + w * 4096) == i3 && spec_p2(
                        virt + w * 4096,
                    ) == i2 && spec_p1(virt + w * 4096) == i1;
                assert(w < i + 1);
            }
            if i4 == spec_p4(virt + i * 4096) && i3 == spec_p3(virt + i * 4096) && i2 == spec_p2(virt + i * 4096) && i1
                == spec_p1(virt + i * 4096) {
                assert(spec_p4(virt + i * 4096) == i4);
            }
        }
    }

    /// Maps the `count` 4KiB pages from `virt` to the frames from `phys`, in
    /// order, with `flags`, creating the tables on the way where they are
    /// missing.
    #[verifier::spinoff_prover]
    pub fn map_range(
        &mut self,
        virt: VirtAddr,
        phys: PhysAddr,
        count: u64,
        flags: PageTableFlags,
        frame_allocator: &mut BootstrapFrameAllocator,
    )
        requires
            old(self).wf(),
            phys@ % 4096 == 0,
            virt@ + count * 4096 <= 0x1_0000_0000_0000_0000,
            phys@ + count * 4096 <= 0x1_0000_0000_0000_0000,
            in_one_window(virt@, count as nat),
            forall|i: nat| i < count ==> #[trigger] spec_p4(virt@ + i * 4096) != RECURSIVE_INDEX,
            can_allocate(old(frame_allocator).spec_map(), range_tables(old(self).table_indices(), virt@, count as nat)),
        ensures
            final(self).wf(),
            forall|i: nat|
                i < count ==> #[trigger] final(self).spec_leaf(
                    spec_p4(virt@ + i * 4096),
                    spec_p3(virt@ + i * 4096),
                    spec_p2(virt@ + i * 4096),
                    spec_p1(virt@ + i * 4096),
                ) == Some(spec_entry((phys@ + i * 4096) as u64, flags@)),
            forall|i4: nat, i3: nat, i2: nat, i1: nat|
                i1 < 512 && !in_range(virt@, count as nat, i4, i3, i2, i1) ==> #[trigger] final(self).spec_leaf(
                    i4,
                    i3,
                    i2,
                    i1,
                ) == old(self).spec_leaf(i4, i3, i2, i1) || (old(self).spec_leaf(i4, i3, i2, i1) is None
                    && final(self).spec_leaf(i4, i3, i2, i1) == Some(0u64)),
            final(frame_allocator).spec_map() == alloc_iter(
                old(frame_allocator).spec_map(),
                range_tables(old(self).table_indices(), virt@, count as nat),
            ),
            final(self).table_indices() == range_indices(old(self).table_indices(), virt@, count as nat),
            final(self).spec_hhdm() == old(self).spec_hhdm(),
            final(self).spec_pml4_frame() == old(self).spec_pml4_frame(),
    {
        let ghost s0 = frame_allocator.spec_map();
        let ghost ts0 = self.table_indices();
        let ghost total = range_tables(ts0, virt@, count as nat);
        let mut i: u64 = 0;
        proof {
            assert(alloc_iter(s0, 0) == s0);
            reveal(BootstrapPageTable::range_mapped);
            reveal(BootstrapPageTable::others_kept);
            assert forall|i4: nat, i3: nat, i2: nat, i1: nat|
                i1 < 512 && !in_range(virt@, 0, i4, i3, i2, i1) implies #[trigger] self.spec_leaf(i4, i3, i2, i1)
                    == old(self).spec_leaf(i4, i3, i2, i1) || (old(self).spec_leaf(i4, i3, i2, i1) is None
                    && self.spec_leaf(i4, i3, i2, i1) == Some(0u64)) by {}
        }
        while i < count
            invariant
                self.wf(),
                i <= count,
                phys@ % 4096 == 0,
                virt@ + count * 4096 <= 0x1_0000_0000_0000_0000,
                phys@ + count * 4096 <= 0x1_0000_0000_0000_0000,
                in_one_window(virt@, count as nat),
                forall|k: nat| k < count ==> #[trigger] spec_p4(virt@ + k * 4096) != RECURSIVE_INDEX,
                total == range_tables(ts0, virt@, count as nat),
                frame_allocator.spec_map() == alloc_iter(s0, range_tables(ts0, virt@, i as nat)),
                can_allocate(frame_allocator.spec_map(), (total - range_tables(ts0, virt@, i as nat)) as nat),
                range_tables(ts0, virt@, i as nat) <= total,
                self.table_indices() == range_indices(ts0, virt@, i as nat),
                self.range_mapped(virt@, phys@, i as nat, flags@),
                self.others_kept(*old(self), virt@, i as nat),
                self.spec_hhdm() == old(self).spec_hhdm(),
                self.spec_pml4_frame() == old(self).spec_pml4_frame(),
            decreases count - i,
        {
            let ghost t0 = *self;
            let ghost sa = frame_allocator.spec_map();
            let ghost a: nat = virt@ + (i as nat) * 4096;
            let addr = virt.offset(i * 4096);
            let frame = PhysFrame::<Size4KiB>::from_start_address(phys.offset(i * 4096));
            proof {
                assert(a % 4096 == virt@ % 4096) by (nonlinear_arith)
                    requires a == virt@ + (i as nat) * 4096;
                assert((phys@ + (i as nat) * 4096) % 4096 == 0) by (nonlinear_arith)
                    requires phys@ % 4096 == 0;
                self.lemma_missing(a);
                let m = tables_missing(range_indices(ts0, virt@, i as nat), a);
                assert(range_tables(ts0, virt@, (i + 1) as nat) == range_tables(ts0, virt@, i as nat) + m);
                assert(range_tables(ts0, virt@, (i + 1) as nat) <= total) by {
                    lemma_range_tables_mono(ts0, virt@, (i + 1) as nat, count as nat);
                }
                lemma_can_allocate_split(sa, m, (total - range_tables(ts0, virt@, (i + 1) as nat)) as nat);
            }
            self.map(addr, frame, flags, frame_allocator);
            proof {
                let m = tables_missing(range_indices(ts0, virt@, i as nat), a);
                lemma_alloc_iter_add(s0, range_tables(ts0, virt@, i as nat), m);
                Self::lemma_indices_step(t0, *self, a);
                Self::lemma_range_step(*old(self), t0, *self, virt@, phys@, count as nat, i as nat, flags@);
            }
            i = i + 1;
        }
        proof {
            reveal(BootstrapPageTable::range_mapped);
            reveal(BootstrapPageTable::others_kept);
        }
    }
}

/// Mapping a longer range creates at least as many tables.
proof fn lemma_range_tables_mono(ts: TableIndices, virt: nat, n: nat, m: nat)
    requires
        n <= m,
    ensures
        range_tables(ts, virt, n) <= range_tables(ts, virt, m),
    decreases m - n,
{
    if n < m {
        lemma_range_tables_mono(ts, virt, n, (m - 1) as nat);
    }
}


impl BootstrapPageTable {
    /// The number of tables a mapping of `addr` would create.
    pub fn tables_needed(&self, addr: VirtAddr) -> (r: usize)
        requires
            self.wf(),
        ensures
            r == self.missing_tables(spec_p4(addr@), spec_p3(addr@), spec_p2(addr@)),
            r == tables_missing(self.table_indices(), addr@),
    {
        proof {
            self.lemma_missing(addr@);
        }
        let i4 = addr.p4_index();
        let i3 = addr.p3_index();
        let i2 = addr.p2_index();
        if self.try_get_pt(i4, i3, i2).is_some() {
            0
        } else if self.try_get_pd(i4, i3).is_some() {
            1
        } else if self.try_get_pdpt(i4).is_some() {
            2
        } else {
            3
        }
    }

    /// Maps the `count` 4KiB pages from `virt` to the frames from `phys`, in
    /// order, with `flags`, as [`Self::map_range`] does, as long as the frame
    /// allocator can supply the tables: it stops before the first page whose
    /// tables it cannot supply, and then returns false.
    #[verifier::spinoff_prover]
    pub fn try_map_range(
        &mut self,
        virt: VirtAddr,
        phys: PhysAddr,
        count: u64,
        flags: PageTableFlags,
        frame_allocator: &mut BootstrapFrameAllocator,
    ) -> (r: bool)
        requires
            old(self).wf(),
            phys@ % 4096 == 0,
            virt@ + count * 4096 <= 0x1_0000_0000_0000_0000,
            phys@ + count * 4096 <= 0x1_0000_0000_0000_0000,
            in_one_window(virt@, count as nat),
            forall|i: nat| i < count ==> #[trigger] spec_p4(virt@ + i * 4096) != RECURSIVE_INDEX,
        ensures
            r == can_allocate(old(frame_allocator).spec_map(), range_tables(old(self).table_indices(), virt@, count as nat)),
            final(self).wf(),
            final(self).spec_hhdm() == old(self).spec_hhdm(),
            final(self).spec_pml4_frame() == old(self).spec_pml4_frame(),
            r ==> forall|i: nat|
                i < count ==> #[trigger] final(self).spec_leaf(
                    spec_p4(virt@ + i * 4096),
                    spec_p3(virt@ + i * 4096),
                    spec_p2(virt@ + i * 4096),
                    spec_p1(virt@ + i * 4096),
                ) == Some(spec_entry((phys@ + i * 4096) as u64, flags@)),
            r ==> forall|i4: nat, i3: nat, i2: nat, i1: nat|
                i1 < 512 && !in_range(virt@, count as nat, i4, i3, i2, i1) ==> #[trigger] final(self).spec_leaf(
                    i4,
                    i3,
                    i2,
                    i1,
                ) == old(self).spec_leaf(i4, i3, i2, i1) || (old(self).spec_leaf(i4, i3, i2, i1) is None
                    && final(self).spec_leaf(i4, i3, i2, i1) == Some(0u64)),
            r ==> final(frame_allocator).spec_map() == alloc_iter(
                old(frame_allocator).spec_map(),
                range_tables(old(self).table_indices(), virt@, count as nat),
            ),
            r ==> final(self).table_indices() == range_indices(old(self).table_indices(), virt@, count as nat),
            !r ==> exists|i: nat|
                i < count && final(frame_allocator).spec_map() == alloc_iter(
                    old(frame_allocator).spec_map(),
                    #[trigger] range_tables(old(self).table_indices(), virt@, i),
                ) && final(self).table_indices() == range_indices(old(self).table_indices(), virt@, i),
    {
        let ghost s0 = frame_allocator.spec_map();
        let ghost ts0 = self.table_indices();
        let ghost total = range_tables(ts0, virt@, count as nat);
        let mut i: u64 = 0;
        proof {
            assert(alloc_iter(s0, 0) == s0);
            assert(can_allocate(s0, 0));
            reveal(BootstrapPageTable::range_mapped);
            reveal(BootstrapPageTable::others_kept);
            assert forall|i4: nat, i3: nat, i2: nat, i1: nat|
                i1 < 512 && !in_range(virt@, 0, i4, i3, i2, i1) implies #[trigger] self.spec_leaf(i4, i3, i2, i1)
                    == old(self).spec_leaf(i4, i3, i2, i1) || (old(self).spec_leaf(i4, i3, i2, i1) is None
                    && self.spec_leaf(i4, i3, i2, i1) == Some(0u64)) by {}
        }
        while i < count
            invariant
                self.wf(),
                i <= count,
                phys@ % 4096 == 0,
                virt@ + count * 4096 <= 0x1_0000_0000_0000_0000,
                phys@ + count * 4096 <= 0x1_0000_0000_0000_0000,
                in_one_window(virt@, count as nat),
                forall|k: nat| k < count ==> #[trigger] spec_p4(virt@ + k * 4096) != RECURSIVE_INDEX,
                total == range_tables(ts0, virt@, count as nat),
                s0 == old(frame_allocator).spec_map(),
                ts0 == old(self).table_indices(),
                frame_allocator.spec_map() == alloc_iter(s0, range_tables(ts0, virt@, i as nat)),
                can_allocate(s0, range_tables(ts0, virt@, i as nat)),
                self.table_indices() == range_indices(ts0, virt@, i as nat),
                self.range_mapped(virt@, phys@, i as nat, flags@),
                self.others_kept(*old(self), virt@, i as nat),
                self.spec_hhdm() == old(self).spec_hhdm(),
                self.spec_pml4_frame() == old(self).spec_pml4_frame(),
            decreases count - i,
        {
            let ghost t0 = *self;
            let ghost sa = frame_allocator.spec_map();
            let ghost a: nat = virt@ + (i as nat) * 4096;
            let addr = virt.offset(i * 4096);
            let needed = self.tables_needed(addr);
            proof {
                let m = tables_missing(range_indices(ts0, virt@, i as nat), a);
                assert(range_tables(ts0, virt@, (i + 1) as nat) == range_tables(ts0, virt@, i as nat) + m);
                lemma_range_tables_mono(ts0, virt@, (i + 1) as nat, count as nat);
            }
            if !frame_allocator.can_allocate_frames(needed) {
                proof {
                    lemma_range_stops(s0, ts0, virt@, count as nat, i as nat);
                }
                return false;
            }
            let frame = PhysFrame::<Size4KiB>::from_start_address(phys.offset(i * 4096));
            proof {
                assert(a % 4096 == virt@ % 4096) by (nonlinear_arith)
                    requires a == virt@ + (i as nat) * 4096;
                assert((phys@ + (i as nat) * 4096) % 4096 == 0) by (nonlinear_arith)
                    requires phys@ % 4096 == 0;
            }
            self.map(addr, frame, flags, frame_allocator);
            proof {
                let m = tables_missing(range_indices(ts0, virt@, i as nat), a);
                lemma_alloc_iter_add(s0, range_tables(ts0, virt@, i as nat), m);
                lemma_can_allocate_join(s0, range_tables(ts0, virt@, i as nat), m);
                Self::lemma_indices_step(t0, *self, a);
                Self::lemma_range_step(*old(self), t0, *self, virt@, phys@, count as nat, i as nat, flags@);
            }
            i = i + 1;
        }
        proof {
            reveal(BootstrapPageTable::range_mapped);
            reveal(BootstrapPageTable::others_kept);
        }
        true
    }
}


/// A range whose tables run out at page `i` cannot be mapped whole.
proof fn lemma_range_stops(s0: Seq<crate::boot::memory_map::MemoryMapEntry>, ts0: TableIndices, virt: nat, count: nat, i: nat)
    requires
        i < count,
        !can_allocate(
            alloc_iter(s0, range_tables(ts0, virt, i)),
            tables_missing(range_indices(ts0, virt, i), virt + i * 4096),
        ),
    ensures
        !can_allocate(s0, range_tables(ts0, virt, count)),
{
    let m = tables_missing(range_indices(ts0, virt, i), virt + i * 4096);
    let total = range_tables(ts0, virt, count);
    assert(range_tables(ts0, virt, i + 1) == range_tables(ts0, virt, i) + m);
    lemma_range_tables_mono(ts0, virt, i + 1, count);
    if can_allocate(s0, total) {
        lemma_can_allocate_split(s0, range_tables(ts0, virt, i + 1), (total - range_tables(ts0, virt, i + 1)) as nat);
        lemma_can_allocate_split(s0, range_tables(ts0, virt, i), m);
    }
}


/// The start of the direct map of physical memory.
pub const DIRECT_MAP_START: u64 = PAGE_TABLE_START;

/// The level-4 slot of the direct map of the memory below 4GiB.
pub const DIRECT_MAP_SLOT: usize = 256;

/// The flags the tables are mapped with in the direct map: present,
/// writable, not executable.
pub open spec fn direct_map_flags() -> u64 {
    1u64 | 2u64 | 0x8000_0000_0000_0000u64
}

/// The direct-map address of physical address `f`.
pub open spec fn direct_addr(f: nat) -> nat {
    DIRECT_MAP_START as nat + f
}

/// The leaf of the direct-map address of frame `f` maps `f` with `flags`.
pub open spec fn direct_mapped(t: BootstrapPageTable, f: nat, flags: u64) -> bool {
    let a = direct_addr(f);
    t.spec_leaf(spec_p4(a), spec_p3(a), spec_p2(a), spec_p1(a)) == Some(spec_entry(f as u64, flags))
}

/// `f` is the frame of one of the tables of `t`.
pub open spec fn is_table_frame(t: BootstrapPageTable, f: nat) -> bool {
    ||| f == t.spec_pml4_frame()
    ||| exists|k: int| 0 <= k < t.spec_pdpt_frames().len() && #[trigger] t.spec_pdpt_frames()[k] == f
    ||| exists|k: int| 0 <= k < t.spec_pd_frames().len() && #[trigger] t.spec_pd_frames()[k] == f
    ||| exists|k: int| 0 <= k < t.spec_pt_frames().len() && #[trigger] t.spec_pt_frames()[k] == f
}

/// The table indices of the direct-map address of physical address `f`.
pub open spec fn direct_indices(f: nat) -> (nat, nat, nat, nat) {
    let a = direct_addr(f);
    (spec_p4(a), spec_p3(a), spec_p2(a), spec_p1(a))
}

/// A frame below 4GiB lies in the direct-map slot of the level-4 table.
proof fn lemma_direct_slot(f: nat)
    requires
        f < LOW_MEMORY_LIMIT,
    ensures
        spec_p4(direct_addr(f)) == DIRECT_MAP_SLOT,
        direct_addr(f) <= u64::MAX,
{
    assert((0xFFFF_8000_0000_0000 + f) / 0x80_0000_0000 == 0x1FF_FF00) by (nonlinear_arith)
        requires
            f < 0x1_0000_0000,
    ;
}

/// Two frames below 4GiB, on 4KiB boundaries, have the same direct-map
/// table indices only if they are the same frame.
proof fn lemma_direct_distinct(f: nat, g: nat)
    requires
        f < LOW_MEMORY_LIMIT,
        g < LOW_MEMORY_LIMIT,
        f % 4096 == 0,
        g % 4096 == 0,
        f != g,
    ensures
        !(spec_p4(direct_addr(f)) == spec_p4(direct_addr(g)) && spec_p3(direct_addr(f)) == spec_p3(direct_addr(g)) && spec_p2(direct_addr(f)) == spec_p2(direct_addr(g)) && spec_p1(direct_addr(f))
            == spec_p1(direct_addr(g))),
{
    let v: nat = DIRECT_MAP_START as nat;
    let count: nat = 0x10_0000;
    assert(in_one_window(v, count));
    let i: nat = f / 4096;
    let j: nat = g / 4096;
    assert(f == i * 4096 && g == j * 4096);
    assert(i < count && j < count);
    if i < j {
        lemma_pages_distinct(v, count, i, j);
    } else {
        lemma_pages_distinct(v, count, j, i);
    }
}

/// Two frames on 4KiB boundaries that the direct map reaches have the same
/// direct-map table indices only if they are the same frame.
proof fn lemma_direct_distinct_wide(f: nat, g: nat)
    requires
        direct_addr(f) <= u64::MAX,
        direct_addr(g) <= u64::MAX,
        f % 4096 == 0,
        g % 4096 == 0,
        f != g,
    ensures
        direct_indices(f) != direct_indices(g),
{
    let v: nat = DIRECT_MAP_START as nat;
    let count: nat = 0x8_0000_0000;
    assert(in_one_window(v, count));
    let i: nat = f / 4096;
    let j: nat = g / 4096;
    assert(f == i * 4096 && g == j * 4096);
    assert(i < count && j < count);
    if i < j {
        lemma_pages_distinct(v, count, i, j);
    } else {
        lemma_pages_distinct(v, count, j, i);
    }
}

/// The direct map of the tables only writes leaves that map a table frame at
/// its own direct-map address with the direct-map flags: a leaf that already
/// mapped its direct-map address to its own frame with those flags, as the
/// direct map of usable memory does, stays as it was. `after` is `before`
/// after [`BootstrapPageTable::try_direct_map`].
pub proof fn lemma_direct_leaves_survive(before: BootstrapPageTable, after: BootstrapPageTable, f: nat)
    requires
        after.wf(),
        forall|i4: nat, i3: nat, i2: nat, i1: nat|
            i1 < 512 ==> #[trigger] after.spec_leaf(i4, i3, i2, i1) == before.spec_leaf(i4, i3, i2, i1) || (
            before.spec_leaf(i4, i3, i2, i1) is None && after.spec_leaf(i4, i3, i2, i1) == Some(0u64)) || exists|g: nat|
                #[trigger] is_table_frame(after, g) && direct_indices(g) == (i4, i3, i2, i1) && after.spec_leaf(
                    i4,
                    i3,
                    i2,
                    i1,
                ) == Some(spec_entry(g as u64, direct_map_flags())),
        f % 4096 == 0,
        direct_addr(f) <= u64::MAX,
        ({
            let (i4, i3, i2, i1) = direct_indices(f);
            before.spec_leaf(i4, i3, i2, i1) == Some(spec_entry(f as u64, direct_map_flags()))
        }),
    ensures
        ({
            let (i4, i3, i2, i1) = direct_indices(f);
            after.spec_leaf(i4, i3, i2, i1) == Some(spec_entry(f as u64, direct_map_flags()))
        }),
{
    let (i4, i3, i2, i1) = direct_indices(f);
    assert(i1 < 512);
    let leaf = after.spec_leaf(i4, i3, i2, i1);
    if leaf != before.spec_leaf(i4, i3, i2, i1) {
        let g = choose|g: nat|
            #[trigger] is_table_frame(after, g) && direct_indices(g) == (i4, i3, i2, i1) && after.spec_leaf(
                i4,
                i3,
                i2,
                i1,
            ) == Some(spec_entry(g as u64, direct_map_flags()));
        after.lemma_frames();
        let k = lemma_table_is_listed(after, g);
        let a = after.spec_pt_frames().len() as int;
        let b = a + after.spec_pd_frames().len();
        let c = b + after.spec_pdpt_frames().len();
        let all = all_table_frames(after);
        if k < a {
            assert(all[k] == after.spec_pt_frames()[k]);
        } else if k < b {
            assert(all[k] == after.spec_pd_frames()[k - a]);
        } else if k < c {
            assert(all[k] == after.spec_pdpt_frames()[k - b]);
        }
        assert(g < LOW_MEMORY_LIMIT && g % 4096 == 0);
        lemma_direct_slot(g);
        if g != f {
            lemma_direct_distinct_wide(f, g);
        }
    }
}

impl BootstrapPageTable {
    /// The frames of every table are below 4GiB and on 4KiB boundaries.
    proof fn lemma_frames(&self)
        requires
            self.wf(),
        ensures
            self.spec_pml4_frame() < LOW_MEMORY_LIMIT && self.spec_pml4_frame() % 4096 == 0,
            forall|k: int|
                0 <= k < self.spec_pdpt_frames().len() ==> #[trigger] self.spec_pdpt_frames()[k] < LOW_MEMORY_LIMIT
                    && self.spec_pdpt_frames()[k] % 4096 == 0,
            forall|k: int|
                0 <= k < self.spec_pd_frames().len() ==> #[trigger] self.spec_pd_frames()[k] < LOW_MEMORY_LIMIT
                    && self.spec_pd_frames()[k] % 4096 == 0,
            forall|k: int|
                0 <= k < self.spec_pt_frames().len() ==> #[trigger] self.spec_pt_frames()[k] < LOW_MEMORY_LIMIT
                    && self.spec_pt_frames()[k] % 4096 == 0,
    {
        assert forall|k: int| 0 <= k < self.spec_pdpt_frames().len() implies #[trigger] self.spec_pdpt_frames()[k]
            < LOW_MEMORY_LIMIT && self.spec_pdpt_frames()[k] % 4096 == 0 by {
            assert(self.pdpt_ok(k));
        }
        assert forall|k: int| 0 <= k < self.spec_pd_frames().len() implies #[trigger] self.spec_pd_frames()[k]
            < LOW_MEMORY_LIMIT && self.spec_pd_frames()[k] % 4096 == 0 by {
            assert(self.pd_ok(k));
        }
        assert forall|k: int| 0 <= k < self.spec_pt_frames().len() implies #[trigger] self.spec_pt_frames()[k]
            < LOW_MEMORY_LIMIT && self.spec_pt_frames()[k] % 4096 == 0 by {
            assert(self.pt_ok(k));
        }
    }

    /// Every leaf outside the direct-map slot is as in `before`, or a fresh
    /// empty entry.
    #[verifier::opaque]
    spec fn outside_kept(&self, before: Self) -> bool {
        forall|i4: nat, i3: nat, i2: nat, i1: nat|
            i1 < 512 && i4 != DIRECT_MAP_SLOT ==> #[trigger] self.spec_leaf(i4, i3, i2, i1) == before.spec_leaf(
                i4,
                i3,
                i2,
                i1,
            ) || (before.spec_leaf(i4, i3, i2, i1) is None && self.spec_leaf(i4, i3, i2, i1) == Some(0u64))
    }

    /// Every leaf is as in `before`, or a fresh empty entry, or the leaf of
    /// the direct-map address of a frame of `mapped`.
    #[verifier::opaque]
    spec fn kept_but_direct(&self, before: Self, mapped: Set<nat>) -> bool {
        forall|i4: nat, i3: nat, i2: nat, i1: nat|
            i1 < 512 ==> #[trigger] self.spec_leaf(i4, i3, i2, i1) == before.spec_leaf(i4, i3, i2, i1) || (
            before.spec_leaf(i4, i3, i2, i1) is None && self.spec_leaf(i4, i3, i2, i1) == Some(0u64)) || exists|f: nat|
                #[trigger] mapped.contains(f) && direct_indices(f) == (i4, i3, i2, i1)
    }

    /// Every frame of `mapped` is mapped at its direct-map address.
    #[verifier::opaque]
    spec fn all_direct_mapped(&self, mapped: Set<nat>, flags: u64) -> bool {
        forall|f: nat| #[trigger] mapped.contains(f) ==> direct_mapped(*self, f, flags)
    }

    /// Maps frame `g` at its direct-map address, as long as the tables it needs
    /// can be had; the frames already mapped stay mapped.
    fn direct_map_frame(
        &mut self,
        frame: PhysFrame<Size4KiB>,
        flags: PageTableFlags,
        frame_allocator: &mut BootstrapFrameAllocator,
        Ghost(mapped): Ghost<Set<nat>>,
        Ghost(origin): Ghost<Self>,
    ) -> (r: bool)
        requires
            old(self).wf(),
            frame.spec_start() < LOW_MEMORY_LIMIT,
            frame.spec_start() % 4096 == 0,
            forall|f: nat| #[trigger] mapped.contains(f) ==> f < LOW_MEMORY_LIMIT && f % 4096 == 0,
            old(self).all_direct_mapped(mapped, flags@),
            old(self).outside_kept(origin),
            old(self).kept_but_direct(origin, mapped),
        ensures
            final(self).wf(),
            final(self).spec_hhdm() == old(self).spec_hhdm(),
            final(self).spec_pml4_frame() == old(self).spec_pml4_frame(),
            final(self).outside_kept(origin),
            final(self).kept_but_direct(origin, mapped.insert(frame.spec_start())),
            r ==> final(self).all_direct_mapped(mapped.insert(frame.spec_start()), flags@),
            r == can_allocate(
                old(frame_allocator).spec_map(),
                tables_missing(old(self).table_indices(), direct_addr(frame.spec_start())),
            ),
            r ==> final(frame_allocator).spec_map() == alloc_iter(
                old(frame_allocator).spec_map(),
                tables_missing(old(self).table_indices(), direct_addr(frame.spec_start())),
            ),
            !r ==> *final(self) == *old(self),
            !r ==> final(frame_allocator).spec_map() == old(frame_allocator).spec_map(),
            tables_missing(old(self).table_indices(), direct_addr(frame.spec_start())) == 0 ==> {
                &&& final(self).spec_pdpt_frames() == old(self).spec_pdpt_frames()
                &&& final(self).spec_pd_frames() == old(self).spec_pd_frames()
                &&& final(self).spec_pt_frames() == old(self).spec_pt_frames()
            },
            final(self).spec_pdpt_frames().len() >= old(self).spec_pdpt_frames().len(),
            forall|j: int|
                0 <= j < old(self).spec_pdpt_frames().len() ==> #[trigger] final(self).spec_pdpt_frames()[j] == old(
                    self,
                ).spec_pdpt_frames()[j],
            final(self).spec_pd_frames().len() >= old(self).spec_pd_frames().len(),
            forall|j: int|
                0 <= j < old(self).spec_pd_frames().len() ==> #[trigger] final(self).spec_pd_frames()[j] == old(
                    self,
                ).spec_pd_frames()[j],
            final(self).spec_pt_frames().len() >= old(self).spec_pt_frames().len(),
            forall|j: int|
                0 <= j < old(self).spec_pt_frames().len() ==> #[trigger] final(self).spec_pt_frames()[j] == old(
                    self,
                ).spec_pt_frames()[j],
    {
        let ghost g = frame.spec_start();
        proof {
            lemma_direct_slot(g);
        }
        let addr = VirtAddr::new(DIRECT_MAP_START + frame.start_address().as_u64());
        let needed = self.tables_needed(addr);
        if !frame_allocator.can_allocate_frames(needed) {
            proof {
                reveal(BootstrapPageTable::kept_but_direct);
                assert forall|i4: nat, i3: nat, i2: nat, i1: nat| i1 < 512 implies #[trigger] self.spec_leaf(
                    i4,
                    i3,
                    i2,
                    i1,
                ) == origin.spec_leaf(i4, i3, i2, i1) || (origin.spec_leaf(i4, i3, i2, i1) is None
                    && self.spec_leaf(i4, i3, i2, i1) == Some(0u64)) || exists|f: nat|
                    #[trigger] mapped.insert(g).contains(f) && direct_indices(f) == (i4, i3, i2, i1) by {
                    if exists|f: nat| #[trigger] mapped.contains(f) && direct_indices(f) == (i4, i3, i2, i1) {
                        let f = choose|f: nat| #[trigger] mapped.contains(f) && direct_indices(f) == (i4, i3, i2, i1);
                        assert(mapped.insert(g).contains(f));
                    }
                }
            }
            return false;
        }
        let ghost t0 = *self;
        self.map(addr, frame, flags, frame_allocator);
        proof {
            reveal(BootstrapPageTable::kept_but_direct);
            assert forall|i4: nat, i3: nat, i2: nat, i1: nat| i1 < 512 implies #[trigger] self.spec_leaf(i4, i3, i2, i1)
                == origin.spec_leaf(i4, i3, i2, i1) || (origin.spec_leaf(i4, i3, i2, i1) is None && self.spec_leaf(
                i4,
                i3,
                i2,
                i1,
            ) == Some(0u64)) || exists|f: nat| #[trigger] mapped.insert(g).contains(f) && direct_indices(f) == (
                i4,
                i3,
                i2,
                i1,
            ) by {
                if (i4, i3, i2, i1) == direct_indices(g) {
                    assert(mapped.insert(g).contains(g));
                } else {
                    assert(t0.spec_leaf(i4, i3, i2, i1) == origin.spec_leaf(i4, i3, i2, i1) || (origin.spec_leaf(
                        i4,
                        i3,
                        i2,
                        i1,
                    ) is None && t0.spec_leaf(i4, i3, i2, i1) == Some(0u64)) || exists|f: nat|
                        #[trigger] mapped.contains(f) && direct_indices(f) == (i4, i3, i2, i1));
                    if exists|f: nat| #[trigger] mapped.contains(f) && direct_indices(f) == (i4, i3, i2, i1) {
                        let f = choose|f: nat| #[trigger] mapped.contains(f) && direct_indices(f) == (i4, i3, i2, i1);
                        assert(mapped.insert(g).contains(f));
                    }
                }
            }
            if tables_missing(t0.table_indices(), addr@) == 0 {
                assert(t0.missing_tables(spec_p4(addr@), spec_p3(addr@), spec_p2(addr@)) == 0);
                assert(t0.has_pt(spec_p4(addr@), spec_p3(addr@), spec_p2(addr@)));
            }
            reveal(BootstrapPageTable::all_direct_mapped);
            reveal(BootstrapPageTable::outside_kept);
            assert forall|f: nat| #[trigger] mapped.insert(g).contains(f) implies direct_mapped(*self, f, flags@) by {
                if f != g {
                    assert(mapped.contains(f));
                    assert(direct_mapped(t0, f, flags@));
                    lemma_direct_distinct(f, g);
                    lemma_direct_slot(f);
                    assert(spec_p1(direct_addr(f)) < 512);
                }
            }
            assert forall|i4: nat, i3: nat, i2: nat, i1: nat|
                i1 < 512 && i4 != DIRECT_MAP_SLOT implies #[trigger] self.spec_leaf(i4, i3, i2, i1) == origin.spec_leaf(
                    i4,
                    i3,
                    i2,
                    i1,
                ) || (origin.spec_leaf(i4, i3, i2, i1) is None && self.spec_leaf(i4, i3, i2, i1) == Some(0u64)) by {
                assert(t0.spec_leaf(i4, i3, i2, i1) == origin.spec_leaf(i4, i3, i2, i1) || (origin.spec_leaf(
                    i4,
                    i3,
                    i2,
                    i1,
                ) is None && t0.spec_leaf(i4, i3, i2, i1) == Some(0u64)));
            }
        }
        true
    }
}


/// The frames of the tables of `t`: the level-1 tables, the level-2
/// tables, the level-3 tables, then the level-4 table.
pub open spec fn all_table_frames(t: BootstrapPageTable) -> Seq<nat> {
    t.spec_pt_frames() + t.spec_pd_frames() + t.spec_pdpt_frames() + seq![t.spec_pml4_frame()]
}

/// The tables of `t` keep their frames in `u`, which may have more.
pub open spec fn tables_kept(t: BootstrapPageTable, u: BootstrapPageTable) -> bool {
    &&& u.spec_pml4_frame() == t.spec_pml4_frame()
    &&& u.spec_pdpt_frames().len() >= t.spec_pdpt_frames().len()
    &&& forall|j: int| 0 <= j < t.spec_pdpt_frames().len() ==> #[trigger] u.spec_pdpt_frames()[j] == t.spec_pdpt_frames()[j]
    &&& u.spec_pd_frames().len() >= t.spec_pd_frames().len()
    &&& forall|j: int| 0 <= j < t.spec_pd_frames().len() ==> #[trigger] u.spec_pd_frames()[j] == t.spec_pd_frames()[j]
    &&& u.spec_pt_frames().len() >= t.spec_pt_frames().len()
    &&& forall|j: int| 0 <= j < t.spec_pt_frames().len() ==> #[trigger] u.spec_pt_frames()[j] == t.spec_pt_frames()[j]
}

/// A frame of the list of `t`'s tables is the frame of a table of `u`, when
/// `u` keeps the tables of `t`.
proof fn lemma_listed_is_table(t: BootstrapPageTable, u: BootstrapPageTable, k: int)
    requires
        0 <= k < all_table_frames(t).len(),
        tables_kept(t, u),
    ensures
        is_table_frame(u, all_table_frames(t)[k]),
{
    let a = t.spec_pt_frames().len() as int;
    let b = a + t.spec_pd_frames().len();
    let c = b + t.spec_pdpt_frames().len();
    if k < a {
        assert(all_table_frames(t)[k] == u.spec_pt_frames()[k]);
    } else if k < b {
        assert(all_table_frames(t)[k] == u.spec_pd_frames()[k - a]);
    } else if k < c {
        assert(all_table_frames(t)[k] == u.spec_pdpt_frames()[k - b]);
    } else {
        assert(all_table_frames(t)[k] == u.spec_pml4_frame());
    }
}

/// The frame of a table of `t` is in the list of `t`'s tables.
proof fn lemma_table_is_listed(t: BootstrapPageTable, f: nat) -> (k: int)
    requires
        is_table_frame(t, f),
    ensures
        0 <= k < all_table_frames(t).len(),
        all_table_frames(t)[k] == f,
{
    let a = t.spec_pt_frames().len() as int;
    let b = a + t.spec_pd_frames().len();
    let c = b + t.spec_pdpt_frames().len();
    if f == t.spec_pml4_frame() {
        c
    } else if exists|j: int| 0 <= j < t.spec_pdpt_frames().len() && #[trigger] t.spec_pdpt_frames()[j] == f {
        let j = choose|j: int| 0 <= j < t.spec_pdpt_frames().len() && #[trigger] t.spec_pdpt_frames()[j] == f;
        b + j
    } else if exists|j: int| 0 <= j < t.spec_pd_frames().len() && #[trigger] t.spec_pd_frames()[j] == f {
        let j = choose|j: int| 0 <= j < t.spec_pd_frames().len() && #[trigger] t.spec_pd_frames()[j] == f;
        a + j
    } else {
        let j = choose|j: int| 0 <= j < t.spec_pt_frames().len() && #[trigger] t.spec_pt_frames()[j] == f;
        j
    }
}

/// The frame of a table of `t` is the frame of a table of `u`, when `u`
/// keeps the tables of `t`.
proof fn lemma_table_frame_kept(t: BootstrapPageTable, u: BootstrapPageTable, f: nat)
    requires
        is_table_frame(t, f),
        tables_kept(t, u),
    ensures
        is_table_frame(u, f),
{
    let k = lemma_table_is_listed(t, f);
    lemma_listed_is_table(t, u, k);
}

impl BootstrapPageTable {
    /// Leaves as in `origin`, fresh, or direct-mapped table frames: the
    /// statement of the leaves after [`Self::try_direct_map`].
    proof fn lemma_leaves_after_direct_map(&self, origin: Self, mapped: Set<nat>)
        requires
            self.kept_but_direct(origin, mapped),
            self.all_direct_mapped(mapped, direct_map_flags()),
            forall|f: nat| #[trigger] mapped.contains(f) ==> is_table_frame(*self, f),
        ensures
            forall|i4: nat, i3: nat, i2: nat, i1: nat|
                i1 < 512 ==> #[trigger] self.spec_leaf(i4, i3, i2, i1) == origin.spec_leaf(i4, i3, i2, i1) || (
                origin.spec_leaf(i4, i3, i2, i1) is None && self.spec_leaf(i4, i3, i2, i1) == Some(0u64)) || exists|f: nat|
                    #[trigger] is_table_frame(*self, f) && direct_indices(f) == (i4, i3, i2, i1) && self.spec_leaf(
                        i4,
                        i3,
                        i2,
                        i1,
                    ) == Some(spec_entry(f as u64, direct_map_flags())),
    {
        reveal(BootstrapPageTable::kept_but_direct);
        reveal(BootstrapPageTable::all_direct_mapped);
        assert forall|i4: nat, i3: nat, i2: nat, i1: nat| i1 < 512 implies #[trigger] self.spec_leaf(i4, i3, i2, i1)
            == origin.spec_leaf(i4, i3, i2, i1) || (origin.spec_leaf(i4, i3, i2, i1) is None && self.spec_leaf(
            i4,
            i3,
            i2,
            i1,
        ) == Some(0u64)) || exists|f: nat|
            #[trigger] is_table_frame(*self, f) && direct_indices(f) == (i4, i3, i2, i1) && self.spec_leaf(
                i4,
                i3,
                i2,
                i1,
            ) == Some(spec_entry(f as u64, direct_map_flags())) by {
            if exists|f: nat| #[trigger] mapped.contains(f) && direct_indices(f) == (i4, i3, i2, i1) {
                let f = choose|f: nat| #[trigger] mapped.contains(f) && direct_indices(f) == (i4, i3, i2, i1);
                assert(direct_mapped(*self, f, direct_map_flags()));
                assert(is_table_frame(*self, f));
            }
        }
    }

    /// The frames of the tables, in the order of [`all_table_frames`].
    fn table_frames(&self) -> (r: Vec<PhysFrame<Size4KiB>>)
        ensures
            r@.len() == all_table_frames(*self).len(),
            forall|k: int| 0 <= k < r@.len() ==> #[trigger] r@[k].spec_start() == all_table_frames(*self)[k],
    {
        let ghost all = all_table_frames(*self);
        let ghost a = self.spec_pt_frames().len() as int;
        let ghost b = a + self.spec_pd_frames().len();
        let ghost c = b + self.spec_pdpt_frames().len();
        let mut r: Vec<PhysFrame<Size4KiB>> = Vec::new();
        let mut i: usize = 0;
        while i < self.pts.len()
            invariant
                all == all_table_frames(*self),
                a == self.spec_pt_frames().len(),
                i <= self.pts@.len(),
                r@.len() == i,
                forall|k: int| 0 <= k < r@.len() ==> #[trigger] r@[k].spec_start() == all[k],
            decreases self.pts@.len() - i,
        {
            assert(all[i as int] == self.spec_pt_frames()[i as int]);
            r.push(self.pts[i].frame);
            i = i + 1;
        }
        let mut i: usize = 0;
        while i < self.pds.len()
            invariant
                all == all_table_frames(*self),
                a == self.spec_pt_frames().len(),
                b == a + self.spec_pd_frames().len(),
                i <= self.pds@.len(),
                r@.len() == a + i,
                forall|k: int| 0 <= k < r@.len() ==> #[trigger] r@[k].spec_start() == all[k],
            decreases self.pds@.len() - i,
        {
            assert(all[a + i] == self.spec_pd_frames()[i as int]);
            r.push(self.pds[i].frame);
            i = i + 1;
        }
        let mut i: usize = 0;
        while i < self.pdpts.len()
            invariant
                all == all_table_frames(*self),
                b == self.spec_pt_frames().len() + self.spec_pd_frames().len(),
                c == b + self.spec_pdpt_frames().len(),
                i <= self.pdpts@.len(),
                r@.len() == b + i,
                forall|k: int| 0 <= k < r@.len() ==> #[trigger] r@[k].spec_start() == all[k],
            decreases self.pdpts@.len() - i,
        {
            assert(all[b + i] == self.spec_pdpt_frames()[i as int]);
            r.push(self.pdpts[i].frame);
            i = i + 1;
        }
        assert(all[c] == self.spec_pml4_frame());
        r.push(self.pml4_phys);
        r
    }

    /// Maps every table at the direct-map address of its frame, present,
    /// writable and not executable, the tables this creates on the way
    /// included: it maps the level-1 tables, then the level-2 tables, then the
    /// level-3 tables, then the level-4 table, and does so again as long as
    /// the last round created tables. It stops before the first mapping whose
    /// tables the frame allocator cannot supply, and then returns false. A
    /// leaf changes only to a fresh empty entry of a table it creates, or to
    /// the mapping of a table frame at that frame's own direct-map address
    /// (which overwrites what the leaf held, as the direct map of any frame
    /// does; a leaf of the direct map of usable memory already holds it, see
    /// [`lemma_direct_leaves_survive`]); outside the direct-map slot only
    /// fresh empty entries appear.
    pub fn try_direct_map(&mut self, frame_allocator: &mut BootstrapFrameAllocator) -> (r: bool)
        requires
            old(self).wf(),
        ensures
            final(self).wf(),
            final(self).spec_hhdm() == old(self).spec_hhdm(),
            tables_kept(*old(self), *final(self)),
            forall|i4: nat, i3: nat, i2: nat, i1: nat|
                i1 < 512 ==> #[trigger] final(self).spec_leaf(i4, i3, i2, i1) == old(self).spec_leaf(i4, i3, i2, i1)
                    || (old(self).spec_leaf(i4, i3, i2, i1) is None && final(self).spec_leaf(i4, i3, i2, i1) == Some(
                    0u64,
                )) || exists|f: nat|
                    #[trigger] is_table_frame(*final(self), f) && direct_indices(f) == (i4, i3, i2, i1)
                        && final(self).spec_leaf(i4, i3, i2, i1) == Some(spec_entry(f as u64, direct_map_flags())),
            forall|i4: nat, i3: nat, i2: nat, i1: nat|
                i1 < 512 && i4 != DIRECT_MAP_SLOT ==> #[trigger] final(self).spec_leaf(i4, i3, i2, i1) == old(
                    self,
                ).spec_leaf(i4, i3, i2, i1) || (old(self).spec_leaf(i4, i3, i2, i1) is None && final(self).spec_leaf(
                    i4,
                    i3,
                    i2,
                    i1,
                ) == Some(0u64)),
            r ==> forall|f: nat|
                #[trigger] is_table_frame(*final(self), f) ==> direct_mapped(*final(self), f, direct_map_flags()),
            !r ==> exists|f: nat|
                is_table_frame(*final(self), f) && !can_allocate(
                    final(frame_allocator).spec_map(),
                    tables_missing(final(self).table_indices(), #[trigger] direct_addr(f)),
                ),
    {
        let flags = PageTableFlags::present().union(PageTableFlags::writable()).union(PageTableFlags::no_execute());
        proof {
            assert(1u64 << 0u64 | 1u64 << 1u64 | 1u64 << 63u64 == 1u64 | 2u64 | 0x8000_0000_0000_0000u64) by (bit_vector);
        }
        let ghost origin = *self;
        let ghost mut mapped = Set::<nat>::empty();
        proof {
            reveal(BootstrapPageTable::all_direct_mapped);
            reveal(BootstrapPageTable::outside_kept);
            reveal(BootstrapPageTable::kept_but_direct);
        }
        loop
            invariant
                self.kept_but_direct(origin, mapped),
                forall|f: nat| #[trigger] mapped.contains(f) ==> is_table_frame(*self, f),
                self.wf(),
                origin == *old(self),
                flags@ == direct_map_flags(),
                self.spec_hhdm() == origin.spec_hhdm(),
                tables_kept(origin, *self),
                forall|f: nat| #[trigger] mapped.contains(f) ==> f < LOW_MEMORY_LIMIT && f % 4096 == 0,
                self.all_direct_mapped(mapped, flags@),
                self.outside_kept(origin),
            decreases usable_total(frame_allocator.spec_map()),
        {
            let ghost pass_t = *self;
            let ghost pass_map = frame_allocator.spec_map();
            let frames = self.table_frames();
            proof {
                self.lemma_frames();
                assert forall|k: int| 0 <= k < frames@.len() implies #[trigger] frames@[k].spec_start()
                    < LOW_MEMORY_LIMIT && frames@[k].spec_start() % 4096 == 0 by {
                    let all = all_table_frames(pass_t);
                    assert(all[k] == frames@[k].spec_start());
                    let a = pass_t.spec_pt_frames().len() as int;
                    let b = a + pass_t.spec_pd_frames().len();
                    let c = b + pass_t.spec_pdpt_frames().len();
                    if k < a {
                        assert(all[k] == pass_t.spec_pt_frames()[k]);
                    } else if k < b {
                        assert(all[k] == pass_t.spec_pd_frames()[k - a]);
                    } else if k < c {
                        assert(all[k] == pass_t.spec_pdpt_frames()[k - b]);
                    }
                }
                assert(alloc_iter(pass_map, 0) == pass_map);
            }
            let ghost mut total: nat = 0;
            let mut grew = false;
            let mut i: usize = 0;
            while i < frames.len()
                invariant
                    self.wf(),
                    origin == *old(self),
                    flags@ == direct_map_flags(),
                    self.spec_hhdm() == origin.spec_hhdm(),
                    tables_kept(origin, pass_t),
                    tables_kept(pass_t, *self),
                    self.kept_but_direct(origin, mapped),
                    forall|f: nat| #[trigger] mapped.contains(f) ==> is_table_frame(*self, f),
                    forall|f: nat| #[trigger] mapped.contains(f) ==> f < LOW_MEMORY_LIMIT && f % 4096 == 0,
                    self.all_direct_mapped(mapped, flags@),
                    self.outside_kept(origin),
                    frames@.len() == all_table_frames(pass_t).len(),
                    forall|k: int| 0 <= k < frames@.len() ==> #[trigger] frames@[k].spec_start() == all_table_frames(pass_t)[k],
                    forall|k: int|
                        0 <= k < frames@.len() ==> #[trigger] frames@[k].spec_start() < LOW_MEMORY_LIMIT
                            && frames@[k].spec_start() % 4096 == 0,
                    i <= frames@.len(),
                    forall|k: int| 0 <= k < i ==> mapped.contains(#[trigger] frames@[k].spec_start()),
                    can_allocate(pass_map, total),
                    frame_allocator.spec_map() == alloc_iter(pass_map, total),
                    grew == (total > 0),
                    total == 0 ==> self.spec_pt_frames() == pass_t.spec_pt_frames() && self.spec_pd_frames()
                        == pass_t.spec_pd_frames() && self.spec_pdpt_frames() == pass_t.spec_pdpt_frames(),
                decreases frames@.len() - i,
            {
                let frame = frames[i];
                proof {
                    lemma_direct_slot(frame.spec_start());
                    assert(all_table_frames(pass_t)[i as int] == frame.spec_start());
                    lemma_listed_is_table(pass_t, *self, i as int);
                }
                let addr = VirtAddr::new(DIRECT_MAP_START + frame.start_address().as_u64());
                let needed = self.tables_needed(addr);
                let ghost t1 = *self;
                if !self.direct_map_frame(frame, flags, frame_allocator, Ghost(mapped), Ghost(origin)) {
                    proof {
                        reveal(BootstrapPageTable::outside_kept);
                        assert(is_table_frame(*self, frame.spec_start()));
                        self.lemma_leaves_after_direct_map(origin, mapped);
                    }
                    return false;
                }
                proof {
                    assert(tables_kept(t1, *self));
                    assert forall|f: nat| #[trigger] mapped.insert(frame.spec_start()).contains(f) implies is_table_frame(
                        *self,
                        f,
                    ) by {
                        if f == frame.spec_start() {
                            lemma_listed_is_table(pass_t, *self, i as int);
                        } else {
                            assert(mapped.contains(f));
                            lemma_table_frame_kept(t1, *self, f);
                        }
                    }
                    lemma_alloc_iter_add(pass_map, total, needed as nat);
                    lemma_can_allocate_join(pass_map, total, needed as nat);
                    mapped = mapped.insert(frame.spec_start());
                    total = total + needed as nat;
                }
                if needed > 0 {
                    grew = true;
                }
                i = i + 1;
            }
            if !grew {
                proof {
                    reveal(BootstrapPageTable::all_direct_mapped);
                    reveal(BootstrapPageTable::outside_kept);
                    assert(all_table_frames(*self) == all_table_frames(pass_t));
                    assert forall|f: nat| #[trigger] is_table_frame(*self, f) implies direct_mapped(
                        *self,
                        f,
                        direct_map_flags(),
                    ) by {
                        let k = lemma_table_is_listed(*self, f);
                        assert(frames@[k].spec_start() == f);
                        assert(mapped.contains(frames@[k].spec_start()));
                    }
                    self.lemma_leaves_after_direct_map(origin, mapped);
                }
                return true;
            }
            proof {
                lemma_alloc_iter_total(pass_map, total);
            }
        }
    }
}

} // verus!
