//! The runs of pages that the early boot stage maps into the page table it
//! hands over to the kernel.
use crate::arch::{spec_p1, spec_p2, spec_p3, spec_p4, PhysAddr, VirtAddr};
use crate::boot::frame_allocator::{
    alloc_frame, alloc_iter, alloc_next, can_allocate, can_carve, lemma_alloc_iter_add, lemma_can_allocate_join,
    lemma_alloc_iter_shrinks, lemma_allocation_takes_block, lemma_can_allocate_split, lemma_frame_aligned,
    lemma_next_is_step, lemma_step_is_next, BootstrapFrameAllocator,
};
use crate::boot::page_table::{
    in_one_window, in_range, lemma_pages_distinct, range_indices, range_tables, tables_missing, tables_with,
    BootstrapPageTable,
    TableIndices, RECURSIVE_INDEX,
};
use crate::boot::limine::{BootLayout, LimineMemoryEntry, LimineMemoryType};
use crate::boot::memory_map::{covers, usable_disjoint, MemoryMapEntry};
use crate::mm::mappings::{
    MEMORY_MAPPINGS, FRAMEBUFFER_START, KERNEL_HEAP_START, KERNEL_STACK_START, KERNEL_TEXT_SIZE, PAGE_TABLE_START,
    TOTAL_KERNEL_STACK_SIZE,
};
use crate::mm::page_table::{spec_entry, PageTableFlags, FLAGS_MASK};
use crate::mm::paging::{PhysFrame, Size4KiB};
use vstd::prelude::*;

verus! {

/// `count` 4KiB pages from `virt` that map the frames from `phys`, in order,
/// with `flags`.
#[derive(Clone, Copy, Debug)]
pub struct BootSection {
    pub virt: u64,
    pub phys: u64,
    pub count: u64,
    pub flags: PageTableFlags,
}

/// The address of page `k` of section `s`.
pub open spec fn page_addr(s: BootSection, k: nat) -> nat {
    s.virt as nat + k * 4096
}

/// Section `s` can be mapped by the bootstrap page table: its frames start on
/// a 4KiB boundary, neither of its runs wraps around the address space, its
/// pages have distinct table indices, and none of them lies in the recursive
/// slot.
pub open spec fn section_fits(s: BootSection) -> bool {
    &&& s.phys % 4096 == 0
    &&& s.virt + s.count * 4096 <= 0x1_0000_0000_0000_0000
    &&& s.phys + s.count * 4096 <= 0x1_0000_0000_0000_0000
    &&& in_one_window(s.virt as nat, s.count as nat)
    &&& forall|k: nat| k < s.count ==> #[trigger] spec_p4(page_addr(s, k)) != RECURSIVE_INDEX
}

/// Page `k` of section `s` maps its frame with the section's flags in `t`.
pub open spec fn page_mapped(t: BootstrapPageTable, s: BootSection, k: nat) -> bool {
    let a = page_addr(s, k);
    t.spec_leaf(spec_p4(a), spec_p3(a), spec_p2(a), spec_p1(a)) == Some(
        spec_entry((s.phys + k * 4096) as u64, s.flags@),
    )
}

/// The leaf entry of the page at `a` in `t`, if its level-1 table exists.
pub open spec fn leaf_at(t: BootstrapPageTable, a: nat) -> Option<u64> {
    t.spec_leaf(spec_p4(a), spec_p3(a), spec_p2(a), spec_p1(a))
}

/// The table indices `(i4, i3, i2, i1)` are those of a page of one of the
/// sections `ss[lo..hi]`.
pub open spec fn in_sections(ss: Seq<BootSection>, lo: int, hi: int, i4: nat, i3: nat, i2: nat, i1: nat) -> bool {
    exists|j: int|
        lo <= j < hi && #[trigger] in_range(ss[j].virt as nat, ss[j].count as nat, i4, i3, i2, i1)
}

/// Page `k` of section `ss[i]` is also a page of a later section of `ss`.
pub open spec fn remapped_later(ss: Seq<BootSection>, i: int, k: nat) -> bool {
    let a = page_addr(ss[i], k);
    in_sections(ss, i + 1, ss.len() as int, spec_p4(a), spec_p3(a), spec_p2(a), spec_p1(a))
}

/// The number of tables that mapping the sections `ss`, one after the other,
/// creates when the tables of `ts` exist.
pub open spec fn sections_tables(ts: TableIndices, ss: Seq<BootSection>) -> nat
    decreases ss.len(),
{
    if ss.len() == 0 {
        0
    } else {
        sections_tables(ts, ss.drop_last()) + range_tables(
            sections_indices(ts, ss.drop_last()),
            ss.last().virt as nat,
            ss.last().count as nat,
        )
    }
}

/// The tables that exist once the sections `ss` are mapped.
pub open spec fn sections_indices(ts: TableIndices, ss: Seq<BootSection>) -> TableIndices
    decreases ss.len(),
{
    if ss.len() == 0 {
        ts
    } else {
        range_indices(sections_indices(ts, ss.drop_last()), ss.last().virt as nat, ss.last().count as nat)
    }
}

/// The tables a prefix of the sections creates are among those all of them
/// create.
proof fn lemma_sections_tables_prefix(ts: TableIndices, ss: Seq<BootSection>, n: int)
    requires
        0 <= n <= ss.len(),
    ensures
        sections_tables(ts, ss.take(n)) <= sections_tables(ts, ss),
    decreases ss.len() - n,
{
    if n < ss.len() {
        lemma_sections_tables_prefix(ts, ss, n + 1);
        assert(ss.take(n + 1).drop_last() =~= ss.take(n));
    } else {
        assert(ss.take(n) =~= ss);
    }
}

/// Whether section `s` can be mapped by the bootstrap page table.
pub fn section_fits_check(s: &BootSection) -> (r: bool)
    ensures
        r == section_fits(*s),
{
    if s.phys % 4096 != 0 {
        return false;
    }
    let bytes: u128 = s.count as u128 * 4096;
    if s.virt as u128 + bytes > 0x1_0000_0000_0000_0000u128 {
        return false;
    }
    if s.phys as u128 + bytes > 0x1_0000_0000_0000_0000u128 {
        return false;
    }
    if (s.virt / 4096) % 0x10_0000_0000 + s.count > 0x10_0000_0000 {
        return false;
    }
    let mut k: u64 = 0;
    while k < s.count
        invariant
            k <= s.count,
            s.virt + s.count * 4096 <= 0x1_0000_0000_0000_0000,
            forall|j: nat| j < k ==> #[trigger] spec_p4(page_addr(*s, j)) != RECURSIVE_INDEX,
        decreases s.count - k,
    {
        let addr = VirtAddr::new(s.virt + k * 4096);
        if addr.p4_index() == RECURSIVE_INDEX {
            assert(spec_p4(page_addr(*s, k as nat)) == RECURSIVE_INDEX);
            return false;
        }
        k = k + 1;
    }
    true
}

impl BootstrapPageTable {
    /// Maps the sections `sections` one after the other, as
    /// [`Self::try_map_range`] maps each, as long as the frame allocator can
    /// supply the tables; it stops at the first section it cannot supply them
    /// for, and then returns false.
    ///
    /// When all are mapped, each page of a section maps the section's frame
    /// for it unless a later section maps the same page, and every other leaf
    /// is as before or a fresh empty entry.
    #[verifier::spinoff_prover]
    pub fn map_sections(&mut self, sections: &[BootSection], frame_allocator: &mut BootstrapFrameAllocator) -> (r:
        bool)
        requires
            old(self).wf(),
            forall|i: int| 0 <= i < sections@.len() ==> section_fits(#[trigger] sections@[i]),
        ensures
            r == can_allocate(
                old(frame_allocator).spec_map(),
                sections_tables(old(self).table_indices(), sections@),
            ),
            final(self).wf(),
            final(self).spec_hhdm() == old(self).spec_hhdm(),
            final(self).spec_pml4_frame() == old(self).spec_pml4_frame(),
            r ==> final(frame_allocator).spec_map() == alloc_iter(
                old(frame_allocator).spec_map(),
                sections_tables(old(self).table_indices(), sections@),
            ),
            r ==> final(self).table_indices() == sections_indices(old(self).table_indices(), sections@),
            r ==> forall|i: int, k: nat|
                0 <= i < sections@.len() && k < sections@[i].count && !remapped_later(sections@, i, k)
                    ==> #[trigger] page_mapped(*final(self), sections@[i], k),
            r ==> forall|i4: nat, i3: nat, i2: nat, i1: nat|
                i1 < 512 && !in_sections(sections@, 0, sections@.len() as int, i4, i3, i2, i1)
                    ==> #[trigger] final(self).spec_leaf(i4, i3, i2, i1) == old(self).spec_leaf(i4, i3, i2, i1) || (
                    old(self).spec_leaf(i4, i3, i2, i1) is None && final(self).spec_leaf(i4, i3, i2, i1) == Some(
                        0u64,
                    )),
    {
        let ghost ss = sections@;
        let ghost s0 = frame_allocator.spec_map();
        let ghost ts0 = self.table_indices();
        let ghost t0 = *self;
        let mut n: usize = 0;
        proof {
            assert(ss.take(0) =~= Seq::<BootSection>::empty());
            assert(alloc_iter(s0, 0) == s0);
        }
        while n < sections.len()
            invariant
                ss == sections@,
                s0 == old(frame_allocator).spec_map(),
                ts0 == old(self).table_indices(),
                t0 == *old(self),
                n <= ss.len(),
                forall|i: int| 0 <= i < ss.len() ==> section_fits(#[trigger] ss[i]),
                self.wf(),
                self.spec_hhdm() == t0.spec_hhdm(),
                self.spec_pml4_frame() == t0.spec_pml4_frame(),
                can_allocate(s0, sections_tables(ts0, ss.take(n as int))),
                frame_allocator.spec_map() == alloc_iter(s0, sections_tables(ts0, ss.take(n as int))),
                self.table_indices() == sections_indices(ts0, ss.take(n as int)),
                forall|i: int, k: nat|
                    0 <= i < n && k < ss[i].count && !in_sections(
                        ss,
                        i + 1,
                        n as int,
                        spec_p4(page_addr(ss[i], k)),
                        spec_p3(page_addr(ss[i], k)),
                        spec_p2(page_addr(ss[i], k)),
                        spec_p1(page_addr(ss[i], k)),
                    ) ==> #[trigger] page_mapped(*self, ss[i], k),
                forall|i4: nat, i3: nat, i2: nat, i1: nat|
                    i1 < 512 && !in_sections(ss, 0, n as int, i4, i3, i2, i1) ==> #[trigger] self.spec_leaf(
                        i4,
                        i3,
                        i2,
                        i1,
                    ) == t0.spec_leaf(i4, i3, i2, i1) || (t0.spec_leaf(i4, i3, i2, i1) is None && self.spec_leaf(
                        i4,
                        i3,
                        i2,
                        i1,
                    ) == Some(0u64)),
            decreases ss.len() - n,
        {
            let s = sections[n];
            let ghost t1 = *self;
            let ghost s1 = frame_allocator.spec_map();
            let ghost done = sections_tables(ts0, ss.take(n as int));
            let ghost need = range_tables(self.table_indices(), s.virt as nat, s.count as nat);
            proof {
                assert(section_fits(ss[n as int]));
                assert forall|k: nat| k < s.count implies #[trigger] spec_p4(
                    (s.virt as nat) + k * 4096,
                ) != RECURSIVE_INDEX by {
                    assert(spec_p4(page_addr(s, k)) != RECURSIVE_INDEX);
                }
                assert(ss.take(n as int + 1).drop_last() =~= ss.take(n as int));
                assert(ss.take(n as int + 1).last() == s);
            }
            let ok = self.try_map_range(VirtAddr::new(s.virt), PhysAddr::new(s.phys), s.count, s.flags, frame_allocator);
            if !ok {
                proof {
                    lemma_sections_tables_prefix(ts0, ss, n as int + 1);
                    let total = sections_tables(ts0, ss);
                    let upto = sections_tables(ts0, ss.take(n as int + 1));
                    assert(upto == done + need);
                    if can_allocate(s0, total) {
                        lemma_can_allocate_split(s0, upto, (total - upto) as nat);
                        lemma_can_allocate_split(s0, done, need);
                    }
                    assert(ss.take(ss.len() as int) =~= ss);
                }
                return false;
            }
            proof {
                lemma_alloc_iter_add(s0, done, need);
                lemma_can_allocate_join(s0, done, need);
                let m = n as int;
                assert forall|i: int, k: nat|
                    0 <= i < m + 1 && k < ss[i].count && !in_sections(
                        ss,
                        i + 1,
                        m + 1,
                        spec_p4(page_addr(ss[i], k)),
                        spec_p3(page_addr(ss[i], k)),
                        spec_p2(page_addr(ss[i], k)),
                        spec_p1(page_addr(ss[i], k)),
                    ) implies #[trigger] page_mapped(*self, ss[i], k) by {
                    let a = page_addr(ss[i], k);
                    if i < m {
                        if in_sections(ss, i + 1, m, spec_p4(a), spec_p3(a), spec_p2(a), spec_p1(a)) {
                            let j = choose|j: int|
                                i + 1 <= j < m && #[trigger] in_range(
                                    ss[j].virt as nat,
                                    ss[j].count as nat,
                                    spec_p4(a),
                                    spec_p3(a),
                                    spec_p2(a),
                                    spec_p1(a),
                                );
                            assert(i + 1 <= j < m + 1);
                        }
                        assert(page_mapped(t1, ss[i], k));
                        if in_range(s.virt as nat, s.count as nat, spec_p4(a), spec_p3(a), spec_p2(a), spec_p1(a)) {
                            assert(in_sections(ss, i + 1, m + 1, spec_p4(a), spec_p3(a), spec_p2(a), spec_p1(a)));
                        }
                        assert(spec_p1(a) < 512);
                        assert(self.spec_leaf(spec_p4(a), spec_p3(a), spec_p2(a), spec_p1(a)) == t1.spec_leaf(
                            spec_p4(a),
                            spec_p3(a),
                            spec_p2(a),
                            spec_p1(a),
                        ));
                    } else {
                        assert(ss[i] == s);
                        assert(self.spec_leaf(
                            spec_p4((s.virt as nat) + k * 4096),
                            spec_p3((s.virt as nat) + k * 4096),
                            spec_p2((s.virt as nat) + k * 4096),
                            spec_p1((s.virt as nat) + k * 4096),
                        ) == Some(spec_entry(((s.phys as nat) + k * 4096) as u64, s.flags@)));
                    }
                }
                assert forall|i4: nat, i3: nat, i2: nat, i1: nat|
                    i1 < 512 && !in_sections(ss, 0, m + 1, i4, i3, i2, i1) implies #[trigger] self.spec_leaf(
                        i4,
                        i3,
                        i2,
                        i1,
                    ) == t0.spec_leaf(i4, i3, i2, i1) || (t0.spec_leaf(i4, i3, i2, i1) is None && self.spec_leaf(
                        i4,
                        i3,
                        i2,
                        i1,
                    ) == Some(0u64)) by {
                    if in_sections(ss, 0, m, i4, i3, i2, i1) {
                        let j = choose|j: int|
                            0 <= j < m && #[trigger] in_range(ss[j].virt as nat, ss[j].count as nat, i4, i3, i2, i1);
                        assert(0 <= j < m + 1);
                    }
                    if in_range(s.virt as nat, s.count as nat, i4, i3, i2, i1) {
                        assert(in_range(ss[m].virt as nat, ss[m].count as nat, i4, i3, i2, i1));
                    }
                    assert(t1.spec_leaf(i4, i3, i2, i1) == t0.spec_leaf(i4, i3, i2, i1) || (t0.spec_leaf(
                        i4,
                        i3,
                        i2,
                        i1,
                    ) is None && t1.spec_leaf(i4, i3, i2, i1) == Some(0u64)));
                }
            }
            n = n + 1;
        }
        proof {
            assert(ss.take(n as int) =~= ss);
        }
        true
    }
}

/// Mapping the first `n` pages from `virt` to fresh frames, starting from the
/// memory map `s` with the tables of `ts`: for each page, one frame is taken
/// from anywhere in memory, then the tables the page misses are taken below
/// 4GiB. The result holds the frames taken for the pages, in order, the
/// memory map after, and the tables that exist after.
pub open spec fn fresh_run(s: Seq<MemoryMapEntry>, ts: TableIndices, virt: nat, n: nat) -> (
    Seq<nat>,
    Seq<MemoryMapEntry>,
    TableIndices,
)
    decreases n,
{
    if n == 0 {
        (Seq::empty(), s, ts)
    } else {
        let prev = fresh_run(s, ts, virt, (n - 1) as nat);
        let a = virt + ((n - 1) as nat) * 4096;
        let taken = alloc_next(prev.1, 4096, false);
        (
            prev.0.push(alloc_frame(prev.1, 4096, false)->0),
            alloc_iter(taken, tables_missing(prev.2, a)),
            tables_with(prev.2, a),
        )
    }
}

/// Every step of [`fresh_run`] over the first `n` pages could be carried
/// out: a frame was there to take, and then the tables the page misses.
pub open spec fn fresh_ok(s: Seq<MemoryMapEntry>, ts: TableIndices, virt: nat, n: nat) -> bool
    decreases n,
{
    n == 0 || {
        let prev = fresh_run(s, ts, virt, (n - 1) as nat);
        &&& fresh_ok(s, ts, virt, (n - 1) as nat)
        &&& can_carve(prev.1, 4096, false)
        &&& alloc_frame(prev.1, 4096, false) is Some
        &&& can_allocate(
            alloc_next(prev.1, 4096, false),
            tables_missing(prev.2, virt + ((n - 1) as nat) * 4096),
        )
    }
}

/// When the usable regions of the memory map do not overlap, the frames a
/// run of fresh pages takes are pairwise distinct, and none of them is
/// usable memory any more afterwards.
pub proof fn lemma_fresh_frames_distinct(s: Seq<MemoryMapEntry>, ts: TableIndices, virt: nat, n: nat)
    requires
        usable_disjoint(s),
        fresh_ok(s, ts, virt, n),
    ensures
        fresh_run(s, ts, virt, n).0.len() == n,
        forall|j: int, k: int|
            0 <= j < k < n ==> #[trigger] fresh_run(s, ts, virt, n).0[j] != #[trigger] fresh_run(s, ts, virt, n).0[k],
        usable_disjoint(fresh_run(s, ts, virt, n).1),
        forall|k: int| 0 <= k < n ==> !covers(fresh_run(s, ts, virt, n).1, #[trigger] fresh_run(s, ts, virt, n).0[k]),
    decreases n,
{
    if n > 0 {
        let m = (n - 1) as nat;
        lemma_fresh_frames_distinct(s, ts, virt, m);
        let prev = fresh_run(s, ts, virt, m);
        let s1 = prev.1;
        let f = alloc_frame(s1, 4096, false)->0;
        let s2 = alloc_next(s1, 4096, false);
        let t = tables_missing(prev.2, virt + m * 4096);
        lemma_next_is_step(s1, 4096, false);
        lemma_allocation_takes_block(s1, s2, 4096, false, f);
        lemma_alloc_iter_shrinks(s2, t);
        let cur = fresh_run(s, ts, virt, n);
        assert(cur.0 == prev.0.push(f));
        assert(covers(s1, f));
        assert forall|k: int| 0 <= k < n implies !covers(cur.1, #[trigger] cur.0[k]) by {
            if k < m {
                assert(cur.0[k] == prev.0[k]);
                assert(!covers(s1, prev.0[k]));
            }
            if covers(cur.1, cur.0[k]) {
                assert(covers(s2, cur.0[k]));
            }
        }
        assert forall|j: int, k: int| 0 <= j < k < n implies #[trigger] cur.0[j] != #[trigger] cur.0[k] by {
            assert(cur.0[j] == prev.0[j]);
            if k < m {
                assert(cur.0[k] == prev.0[k]);
            } else {
                assert(!covers(s1, prev.0[j]));
            }
        }
    }
}

impl BootstrapPageTable {
    /// Maps the `count` 4KiB pages from `virt`, in order, each to a frame
    /// newly taken from `frame_allocator`, with `flags`, as long as the
    /// allocator can supply the frame and the tables for it. Returns the
    /// frames, one for each page mapped; fewer than `count` of them means the
    /// allocator ran out.
    #[verifier::spinoff_prover]
    #[verifier::rlimit(60)]
    pub fn map_fresh(
        &mut self,
        virt: VirtAddr,
        count: u64,
        flags: PageTableFlags,
        frame_allocator: &mut BootstrapFrameAllocator,
    ) -> (r: Vec<PhysFrame<Size4KiB>>)
        requires
            old(self).wf(),
            section_fits(BootSection { virt: virt@ as u64, phys: 0, count, flags }),
        ensures
            final(self).wf(),
            final(self).spec_hhdm() == old(self).spec_hhdm(),
            final(self).spec_pml4_frame() == old(self).spec_pml4_frame(),
            r@.len() <= count,
            forall|k: int|
                0 <= k < r@.len() ==> r@[k].spec_start() % 4096 == 0 && #[trigger] leaf_at(
                    *final(self),
                    (virt@ + k * 4096) as nat,
                ) == Some(spec_entry(r@[k].spec_start() as u64, flags@)),
            forall|i4: nat, i3: nat, i2: nat, i1: nat|
                i1 < 512 && !in_range(virt@, r@.len(), i4, i3, i2, i1) ==> #[trigger] final(self).spec_leaf(
                    i4,
                    i3,
                    i2,
                    i1,
                ) == old(self).spec_leaf(i4, i3, i2, i1) || (old(self).spec_leaf(i4, i3, i2, i1) is None
                    && final(self).spec_leaf(i4, i3, i2, i1) == Some(0u64)),
            forall|k: int|
                0 <= k < r@.len() ==> #[trigger] r@[k].spec_start() == fresh_run(
                    old(frame_allocator).spec_map(),
                    old(self).table_indices(),
                    virt@,
                    r@.len(),
                ).0[k],
            fresh_ok(old(frame_allocator).spec_map(), old(self).table_indices(), virt@, r@.len()),
            usable_disjoint(old(frame_allocator).spec_map()) ==> forall|j: int, k: int|
                0 <= j < k < r@.len() ==> #[trigger] r@[j].spec_start() != #[trigger] r@[k].spec_start(),
            r@.len() == count ==> final(frame_allocator).spec_map() == fresh_run(
                old(frame_allocator).spec_map(),
                old(self).table_indices(),
                virt@,
                count as nat,
            ).1,
            r@.len() == count ==> final(self).table_indices() == fresh_run(
                old(frame_allocator).spec_map(),
                old(self).table_indices(),
                virt@,
                count as nat,
            ).2,
            r@.len() < count ==> {
                let a = virt@ + r@.len() * 4096;
                let s = final(frame_allocator).spec_map();
                ||| !can_carve(s, 4096, false)
                ||| alloc_frame(s, 4096, false) is None
                ||| !can_allocate(s, tables_missing(final(self).table_indices(), a))
            },
    {
        let ghost t0 = *self;
        let ghost s0 = frame_allocator.spec_map();
        let ghost ts0 = self.table_indices();
        let ghost s = BootSection { virt: virt@ as u64, phys: 0, count, flags };
        let mut frames: Vec<PhysFrame<Size4KiB>> = Vec::new();
        let mut i: u64 = 0;
        while i < count
            invariant
                t0 == *old(self),
                s == (BootSection { virt: virt@ as u64, phys: 0, count, flags }),
                section_fits(s),
                i <= count,
                frames@.len() == i,
                s0 == old(frame_allocator).spec_map(),
                ts0 == old(self).table_indices(),
                forall|k: int|
                    0 <= k < i ==> #[trigger] frames@[k].spec_start() == fresh_run(s0, ts0, virt@, i as nat).0[k],
                fresh_run(s0, ts0, virt@, i as nat).0.len() == i,
                fresh_ok(s0, ts0, virt@, i as nat),
                frame_allocator.spec_map() == fresh_run(s0, ts0, virt@, i as nat).1,
                self.table_indices() == fresh_run(s0, ts0, virt@, i as nat).2,
                self.wf(),
                self.spec_hhdm() == t0.spec_hhdm(),
                self.spec_pml4_frame() == t0.spec_pml4_frame(),
                forall|k: int|
                    0 <= k < i ==> frames@[k].spec_start() % 4096 == 0 && #[trigger] leaf_at(
                        *self,
                        (virt@ + k * 4096) as nat,
                    ) == Some(spec_entry(frames@[k].spec_start() as u64, flags@)),
                forall|i4: nat, i3: nat, i2: nat, i1: nat|
                    i1 < 512 && !in_range(virt@, i as nat, i4, i3, i2, i1) ==> #[trigger] self.spec_leaf(
                        i4,
                        i3,
                        i2,
                        i1,
                    ) == t0.spec_leaf(i4, i3, i2, i1) || (t0.spec_leaf(i4, i3, i2, i1) is None && self.spec_leaf(
                        i4,
                        i3,
                        i2,
                        i1,
                    ) == Some(0u64)),
            decreases count - i,
        {
            let addr = VirtAddr::new(virt.as_u64() + i * 4096);
            proof {
                assert(page_addr(s, i as nat) == addr@);
                assert(spec_p4(page_addr(s, i as nat)) != RECURSIVE_INDEX);
            }
            if !frame_allocator.can_carve_check(4096, false) {
                proof {
                    if usable_disjoint(s0) {
                        lemma_fresh_frames_distinct(s0, ts0, virt@, i as nat);
                    }
                }
                return frames;
            }
            let ghost m0 = frame_allocator.spec_map();
            let frame = match frame_allocator.allocate_frame() {
                Some(f) => f,
                None => {
                    proof {
                        lemma_step_is_next(m0, frame_allocator.spec_map(), 4096, false, None);
                        if usable_disjoint(s0) {
                            lemma_fresh_frames_distinct(s0, ts0, virt@, i as nat);
                        }
                    }
                    return frames;
                },
            };
            proof {
                lemma_step_is_next(m0, frame_allocator.spec_map(), 4096, false, Some(frame.spec_start()));
                lemma_frame_aligned(m0, 4096, false);
            }
            let needed = self.tables_needed(addr);
            if !frame_allocator.can_allocate_frames(needed) {
                proof {
                    if usable_disjoint(s0) {
                        lemma_fresh_frames_distinct(s0, ts0, virt@, i as nat);
                    }
                }
                return frames;
            }
            proof {
                assert(fresh_ok(s0, ts0, virt@, (i + 1) as nat));
            }
            let ghost t1 = *self;
            self.map(addr, frame, flags, frame_allocator);
            proof {
                BootstrapPageTable::lemma_indices_step(t1, *self, addr@);
                assert(addr@ == virt@ + (i as nat) * 4096);
                let prev = fresh_run(s0, ts0, virt@, i as nat);
                assert(fresh_run(s0, ts0, virt@, (i + 1) as nat) == (
                    prev.0.push(alloc_frame(prev.1, 4096, false)->0),
                    alloc_iter(alloc_next(prev.1, 4096, false), tables_missing(prev.2, addr@)),
                    tables_with(prev.2, addr@),
                ));
                assert forall|k: int|
                    0 <= k < i + 1 implies #[trigger] frames@.push(frame)[k].spec_start() == fresh_run(
                        s0,
                        ts0,
                        virt@,
                        (i + 1) as nat,
                    ).0[k] by {
                    if k < i {
                        assert(frames@.push(frame)[k] == frames@[k]);
                    }
                }
                assert forall|k: int|
                    0 <= k < i + 1 implies frames@.push(frame)[k].spec_start() % 4096 == 0 && #[trigger] leaf_at(
                        *self,
                        (virt@ + k * 4096) as nat,
                    ) == Some(spec_entry(frames@.push(frame)[k].spec_start() as u64, flags@)) by {
                    if k < i {
                        let a = (virt@ + k * 4096) as nat;
                        lemma_pages_distinct(virt@, count as nat, k as nat, i as nat);
                        assert(spec_p1(a) < 512);
                        assert(leaf_at(t1, a) is Some);
                    }
                }
                assert forall|i4: nat, i3: nat, i2: nat, i1: nat|
                    i1 < 512 && !in_range(virt@, (i + 1) as nat, i4, i3, i2, i1) implies #[trigger] self.spec_leaf(
                        i4,
                        i3,
                        i2,
                        i1,
                    ) == t0.spec_leaf(i4, i3, i2, i1) || (t0.spec_leaf(i4, i3, i2, i1) is None && self.spec_leaf(
                        i4,
                        i3,
                        i2,
                        i1,
                    ) == Some(0u64)) by {
                    if in_range(virt@, i as nat, i4, i3, i2, i1) {
                        let j = choose|j: nat|
                            j < i && #[trigger] spec_p4(virt@ + j * 4096) == i4 && spec_p3(virt@ + j * 4096) == i3
                                && spec_p2(virt@ + j * 4096) == i2 && spec_p1(virt@ + j * 4096) == i1;
                        assert(j < i + 1);
                    }
                    if i4 == spec_p4(addr@) && i3 == spec_p3(addr@) && i2 == spec_p2(addr@) && i1 == spec_p1(addr@) {
                        assert(addr@ == virt@ + (i as nat) * 4096);
                        assert(in_range(virt@, (i + 1) as nat, i4, i3, i2, i1));
                    }
                }
            }
            frames.push(frame);
            i = i + 1;
        }
        proof {
            if usable_disjoint(s0) {
                lemma_fresh_frames_distinct(s0, ts0, virt@, i as nat);
            }
        }
        frames
    }
}

/// The flags of the kernel text: present, executable, read-only.
pub const KERNEL_TEXT_FLAGS: u64 = 0x1;

/// The flags of the kernel data: present, writable, not executable.
pub const KERNEL_DATA_FLAGS: u64 = 0x8000_0000_0000_0003;

/// The flags of memory the kernel only reads and writes: present, writable,
/// not executable.
pub const DATA_FLAGS: u64 = 0x8000_0000_0000_0003;

/// The flags of the framebuffer: present, writable, not executable, not
/// cached.
pub const FRAMEBUFFER_FLAGS: u64 = 0x8000_0000_0000_0013;

/// Where the bootloader put the kernel and what it hands over.
#[derive(Clone, Copy, Debug)]
pub struct BootAddresses {
    /// The virtual base of the kernel image.
    pub kernel_virt: u64,
    /// The physical base of the kernel image.
    pub kernel_phys: u64,
    /// The offset of the bootloader's direct map of physical memory.
    pub hhdm_offset: u64,
    /// The framebuffer, in the bootloader's direct map.
    pub framebuffer: u64,
    /// The storage of the bootstrap memory map, in the bootloader's direct map.
    pub memory_map: u64,
}

/// A section as plain values: its address, frames, page count and flags.
pub open spec fn section_view(s: BootSection) -> (u64, u64, u64, u64) {
    (s.virt, s.phys, s.count, s.flags@)
}

/// The number of 4KiB pages that hold `bytes` bytes.
pub open spec fn pages_of(bytes: nat) -> nat {
    (bytes + 4095) / 4096
}

/// The kernel image: its text, then its data right after it.
pub open spec fn spec_image_sections(layout: BootLayout, a: BootAddresses) -> Seq<(u64, u64, u64, u64)> {
    seq![
        (a.kernel_virt, a.kernel_phys, (layout.kernel_text / 4096) as u64, KERNEL_TEXT_FLAGS),
        (
            (a.kernel_virt + layout.kernel_text) as u64,
            (a.kernel_phys + layout.kernel_text) as u64,
            (layout.kernel_data / 4096) as u64,
            KERNEL_DATA_FLAGS,
        ),
    ]
}

/// The runs of pages that get fresh frames: the kernel stack, at the top of
/// the stack area, then the kernel heap. Their frame field is unused.
pub open spec fn spec_fresh_sections(layout: BootLayout) -> Seq<(u64, u64, u64, u64)> {
    seq![
        (
            (KERNEL_STACK_START + TOTAL_KERNEL_STACK_SIZE - layout.stack_size) as u64,
            0u64,
            (layout.stack_size / 4096) as u64,
            DATA_FLAGS,
        ),
        (KERNEL_HEAP_START, 0u64, (layout.heap_size / 4096) as u64, DATA_FLAGS),
    ]
}

/// The direct map of the usable regions of `entries`, in order.
pub open spec fn spec_usable_sections(entries: Seq<LimineMemoryEntry>) -> Seq<(u64, u64, u64, u64)>
    decreases entries.len(),
{
    if entries.len() == 0 {
        Seq::empty()
    } else {
        let prev = spec_usable_sections(entries.drop_last());
        let e = entries.last();
        if e.ty == LimineMemoryType::Usable {
            prev.push(((PAGE_TABLE_START + e.base) as u64, e.base, e.length / 4096, DATA_FLAGS))
        } else {
            prev
        }
    }
}

/// What the bootloader hands over: the framebuffer, moved to its own area,
/// the bootstrap memory map, where it is, and the direct map of the usable
/// regions.
pub open spec fn spec_handover_sections(
    layout: BootLayout,
    a: BootAddresses,
    entries: Seq<LimineMemoryEntry>,
) -> Seq<(u64, u64, u64, u64)> {
    seq![
        (
            FRAMEBUFFER_START,
            (a.framebuffer - a.hhdm_offset) as u64,
            pages_of(layout.framebuffer_size as nat) as u64,
            FRAMEBUFFER_FLAGS,
        ),
        (
            a.memory_map,
            (a.memory_map - a.hhdm_offset) as u64,
            pages_of(layout.memory_map_size as nat) as u64,
            DATA_FLAGS,
        ),
    ] + spec_usable_sections(entries)
}

/// The section with the given fields.
fn section(virt: u64, phys: u64, count: u64, flags: u64) -> (r: BootSection)
    requires
        flags == KERNEL_TEXT_FLAGS || flags == KERNEL_DATA_FLAGS || flags == DATA_FLAGS || flags
            == FRAMEBUFFER_FLAGS,
    ensures
        section_view(r) == (virt, phys, count, flags),
{
    proof {
        assert(0x1u64 & FLAGS_MASK == 0x1u64 && 0x3u64 & FLAGS_MASK == 0x3u64 && 0x8000_0000_0000_0003u64
            & FLAGS_MASK == 0x8000_0000_0000_0003u64 && 0x8000_0000_0000_0013u64 & FLAGS_MASK
            == 0x8000_0000_0000_0013u64) by (bit_vector);
    }
    BootSection { virt, phys, count, flags: PageTableFlags::from_bits_truncate(flags) }
}

/// The sections of the kernel image: its text, executable and read-only,
/// then its data, writable and not executable, right after it.
pub fn image_sections(layout: &BootLayout, addrs: &BootAddresses) -> (r: Vec<BootSection>)
    requires
        layout.kernel_text + layout.kernel_data < KERNEL_TEXT_SIZE,
        addrs.kernel_virt + layout.kernel_text <= u64::MAX,
        addrs.kernel_phys + layout.kernel_text <= u64::MAX,
    ensures
        r@.map_values(|s: BootSection| section_view(s)) == spec_image_sections(*layout, *addrs),
{
    let text = layout.kernel_text as u64;
    let mut r: Vec<BootSection> = Vec::new();
    r.push(section(addrs.kernel_virt, addrs.kernel_phys, text / 4096, KERNEL_TEXT_FLAGS));
    r.push(
        section(addrs.kernel_virt + text, addrs.kernel_phys + text, layout.kernel_data as u64 / 4096, KERNEL_DATA_FLAGS),
    );
    proof {
        assert(r@.map_values(|s: BootSection| section_view(s)) =~= spec_image_sections(*layout, *addrs));
    }
    r
}

/// The kernel stack, at the top of the stack area, and the kernel heap; each
/// is mapped to fresh frames, so the frame field is zero.
pub fn fresh_sections(layout: &BootLayout) -> (r: Vec<BootSection>)
    requires
        layout.stack_size <= TOTAL_KERNEL_STACK_SIZE,
    ensures
        r@.map_values(|s: BootSection| section_view(s)) == spec_fresh_sections(*layout),
{
    let mut r: Vec<BootSection> = Vec::new();
    let stack = layout.stack_size as u64;
    r.push(section(KERNEL_STACK_START + TOTAL_KERNEL_STACK_SIZE - stack, 0, stack / 4096, DATA_FLAGS));
    r.push(section(KERNEL_HEAP_START, 0, layout.heap_size as u64 / 4096, DATA_FLAGS));
    proof {
        assert(r@.map_values(|s: BootSection| section_view(s)) =~= spec_fresh_sections(*layout));
    }
    r
}

/// The sections of what the bootloader hands over: the framebuffer, moved to
/// the framebuffer area; the bootstrap memory map, where the bootloader put
/// it; then the direct map of each usable region, at its physical address
/// above the start of the page table area.
pub fn handover_sections(layout: &BootLayout, addrs: &BootAddresses, entries: &[LimineMemoryEntry]) -> (r: Vec<
    BootSection,
>)
    requires
        addrs.hhdm_offset <= addrs.framebuffer,
        addrs.hhdm_offset <= addrs.memory_map,
        forall|i: int|
            0 <= i < entries@.len() && #[trigger] entries@[i].ty == LimineMemoryType::Usable ==> PAGE_TABLE_START
                + entries@[i].base <= u64::MAX,
    ensures
        r@.map_values(|s: BootSection| section_view(s)) == spec_handover_sections(*layout, *addrs, entries@),
{
    let fb = layout.framebuffer_size as u64;
    let mm = layout.memory_map_size as u64;
    let fb_pages = fb / 4096 + if fb % 4096 == 0 { 0 } else { 1 };
    let mm_pages = mm / 4096 + if mm % 4096 == 0 { 0 } else { 1 };
    proof {
        assert(fb_pages == pages_of(layout.framebuffer_size as nat)) by (nonlinear_arith)
            requires fb_pages == fb / 4096 + if fb % 4096 == 0 { 0u64 } else { 1u64 }, fb == layout.framebuffer_size;
        assert(mm_pages == pages_of(layout.memory_map_size as nat)) by (nonlinear_arith)
            requires mm_pages == mm / 4096 + if mm % 4096 == 0 { 0u64 } else { 1u64 }, mm == layout.memory_map_size;
    }
    let mut r: Vec<BootSection> = Vec::new();
    r.push(section(FRAMEBUFFER_START, addrs.framebuffer - addrs.hhdm_offset, fb_pages, FRAMEBUFFER_FLAGS));
    r.push(section(addrs.memory_map, addrs.memory_map - addrs.hhdm_offset, mm_pages, DATA_FLAGS));
    let ghost head = r@.map_values(|s: BootSection| section_view(s));
    proof {
        assert(head =~= spec_handover_sections(*layout, *addrs, entries@).subrange(0, 2));
        assert(entries@.subrange(0, 0) =~= Seq::<LimineMemoryEntry>::empty());
    }
    let mut i: usize = 0;
    while i < entries.len()
        invariant
            i <= entries@.len(),
            head == spec_handover_sections(*layout, *addrs, entries@).subrange(0, 2),
            r@.map_values(|s: BootSection| section_view(s)) == head + spec_usable_sections(
                entries@.subrange(0, i as int),
            ),
            forall|i: int|
                0 <= i < entries@.len() && #[trigger] entries@[i].ty == LimineMemoryType::Usable ==> PAGE_TABLE_START
                    + entries@[i].base <= u64::MAX,
        decreases entries@.len() - i,
    {
        let e = entries[i];
        proof {
            assert(entries@.subrange(0, i as int + 1).drop_last() =~= entries@.subrange(0, i as int));
            assert(entries@.subrange(0, i as int + 1).last() == e);
        }
        if e.ty == LimineMemoryType::Usable {
            let ghost before = r@;
            r.push(section(PAGE_TABLE_START + e.base, e.base, e.length / 4096, DATA_FLAGS));
            proof {
                assert(r@.map_values(|s: BootSection| section_view(s)) =~= before.map_values(
                    |s: BootSection| section_view(s),
                ).push(section_view(r@.last())));
            }
        }
        i = i + 1;
    }
    proof {
        assert(entries@.subrange(0, i as int) =~= entries@);
    }
    r
}

/// The pages that hold the kernel's main memory map, `required` bytes of it:
/// that many pages from the memory-mappings area, each on a fresh frame,
/// writable and not executable. The frame field is zero.
pub fn main_map_section(required: usize) -> (r: BootSection)
    ensures
        section_view(r) == (MEMORY_MAPPINGS, 0u64, pages_of(required as nat) as u64, DATA_FLAGS),
{
    let bytes = required as u64;
    let pages = bytes / 4096 + if bytes % 4096 == 0 { 0 } else { 1 };
    proof {
        assert(pages == pages_of(required as nat)) by (nonlinear_arith)
            requires pages == bytes / 4096 + if bytes % 4096 == 0 { 0u64 } else { 1u64 }, bytes == required;
    }
    section(MEMORY_MAPPINGS, 0, pages, DATA_FLAGS)
}

} // verus!
