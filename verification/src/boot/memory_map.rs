//! The memory map handed over by the bootloader.
use crate::arch::{lemma_align_facts, spec_align_down, spec_align_up, PhysAddr, VirtAddr};
use crate::boot::limine::{LimineMemoryEntry, LimineMemoryType};
use crate::mm::allocator::bump::BumpAllocator;
use vstd::prelude::*;

verus! {

/// What a region of physical memory is used for.
#[derive(Debug, Clone, Copy, PartialEq, Eq, Structural)]
pub enum MemoryRegionType {
    Usable,
    Reserved,
    AcpiReclaimable,
    AcpiNvs,
    BadMemory,
    BootloaderReclaimable,
    KernelAndModules,
    Framebuffer,
    Allocated,
}

/// The kinds of reserved region that the kernel's own memory map keeps
/// track of after boot.
#[derive(Debug, Clone, Copy, PartialEq, Eq, Structural)]
pub enum MemoryRegionTag {
    BootloaderReclaimable,
    KernelAndModules,
    Framebuffer,
    AcpiReclaimable,
    AcpiNvs,
}

/// The tag a region type is kept under, if it is kept at all.
pub open spec fn spec_region_tag(ty: MemoryRegionType) -> Option<MemoryRegionTag> {
    match ty {
        MemoryRegionType::BootloaderReclaimable => Some(MemoryRegionTag::BootloaderReclaimable),
        MemoryRegionType::KernelAndModules => Some(MemoryRegionTag::KernelAndModules),
        MemoryRegionType::Framebuffer => Some(MemoryRegionTag::Framebuffer),
        MemoryRegionType::AcpiReclaimable => Some(MemoryRegionTag::AcpiReclaimable),
        MemoryRegionType::AcpiNvs => Some(MemoryRegionTag::AcpiNvs),
        _ => None,
    }
}

/// The reserved region types the kernel keeps track of are exactly the
/// bootloader-reclaimable, kernel, framebuffer and ACPI ones, each under the
/// tag of the same name; usable, plainly reserved, bad and allocated memory
/// get no tag.
pub proof fn lemma_region_tags(ty: MemoryRegionType)
    ensures
        (spec_region_tag(ty) == Some(MemoryRegionTag::BootloaderReclaimable)) <==> (ty
            == MemoryRegionType::BootloaderReclaimable),
        (spec_region_tag(ty) == Some(MemoryRegionTag::KernelAndModules)) <==> (ty == MemoryRegionType::KernelAndModules),
        (spec_region_tag(ty) == Some(MemoryRegionTag::Framebuffer)) <==> (ty == MemoryRegionType::Framebuffer),
        (spec_region_tag(ty) == Some(MemoryRegionTag::AcpiReclaimable)) <==> (ty == MemoryRegionType::AcpiReclaimable),
        (spec_region_tag(ty) == Some(MemoryRegionTag::AcpiNvs)) <==> (ty == MemoryRegionType::AcpiNvs),
        spec_region_tag(ty) is None <==> (ty == MemoryRegionType::Usable || ty == MemoryRegionType::Reserved || ty
            == MemoryRegionType::BadMemory || ty == MemoryRegionType::Allocated),
{
}

impl MemoryRegionType {
    /// The tag of a reserved region type; usable, plainly reserved, bad
    /// and allocated memory have none.
    pub fn try_into(self) -> (r: Result<MemoryRegionTag, ()>)
        ensures
            r is Ok <==> spec_region_tag(self) is Some,
            r is Ok ==> spec_region_tag(self) == Some(r->Ok_0),
    {
        match self {
            MemoryRegionType::BootloaderReclaimable => Ok(MemoryRegionTag::BootloaderReclaimable),
            MemoryRegionType::KernelAndModules => Ok(MemoryRegionTag::KernelAndModules),
            MemoryRegionType::Framebuffer => Ok(MemoryRegionTag::Framebuffer),
            MemoryRegionType::AcpiReclaimable => Ok(MemoryRegionTag::AcpiReclaimable),
            MemoryRegionType::AcpiNvs => Ok(MemoryRegionTag::AcpiNvs),
            _ => Err(()),
        }
    }
}

/// A region of physical memory: `base..base + length`.
#[derive(Debug, Clone, Copy)]
pub struct MemoryMapEntry {
    pub base: PhysAddr,
    pub length: usize,
    pub memory_type: MemoryRegionType,
}

/// The end of the region, one past its last byte.
pub open spec fn spec_end(e: MemoryMapEntry) -> nat {
    e.base@ + e.length as nat
}

/// Whether the region is free to use.
pub open spec fn is_usable(e: MemoryMapEntry) -> bool {
    e.memory_type == MemoryRegionType::Usable
}

/// The bytes a region contributes to the usable total.
pub open spec fn usable_length(e: MemoryMapEntry) -> nat {
    if is_usable(e) {
        e.length as nat
    } else {
        0
    }
}

/// The total length of the usable regions of `s`.
pub open spec fn usable_total(s: Seq<MemoryMapEntry>) -> nat
    decreases s.len(),
{
    if s.len() == 0 {
        0
    } else {
        usable_total(s.drop_last()) + usable_length(s.last())
    }
}

/// Whether address `a` lies in a usable region of `s`.
pub open spec fn covers(s: Seq<MemoryMapEntry>, a: nat) -> bool {
    exists|i: int| 0 <= i < s.len() && is_usable(#[trigger] s[i]) && s[i].base@ <= a < spec_end(s[i])
}

/// No two usable regions of `s` overlap.
pub open spec fn usable_disjoint(s: Seq<MemoryMapEntry>) -> bool {
    forall|i: int, j: int|
        0 <= i < s.len() && 0 <= j < s.len() && i != j && is_usable(#[trigger] s[i]) && is_usable(
            #[trigger] s[j],
        ) ==> spec_end(s[i]) <= s[j].base@ || spec_end(s[j]) <= s[i].base@
}

/// `s` with every bootloader-reclaimable region turned usable.
pub open spec fn reclaimed(s: Seq<MemoryMapEntry>) -> Seq<MemoryMapEntry> {
    s.map_values(
        |e: MemoryMapEntry|
            if e.memory_type == MemoryRegionType::BootloaderReclaimable {
                MemoryMapEntry { memory_type: MemoryRegionType::Usable, ..e }
            } else {
                e
            },
    )
}

pub(crate) proof fn lemma_usable_total_update(s: Seq<MemoryMapEntry>, k: int, e: MemoryMapEntry)
    requires
        0 <= k < s.len(),
    ensures
        usable_total(s.update(k, e)) + usable_length(s[k]) == usable_total(s) + usable_length(e),
    decreases s.len(),
{
    let t = s.update(k, e);
    if k == s.len() - 1 {
        assert(t.drop_last() =~= s.drop_last());
    } else {
        lemma_usable_total_update(s.drop_last(), k, e);
        assert(t.drop_last() =~= s.drop_last().update(k, e));
    }
}

pub(crate) proof fn lemma_usable_total_push(s: Seq<MemoryMapEntry>, e: MemoryMapEntry)
    ensures
        usable_total(s.push(e)) == usable_total(s) + usable_length(e),
{
    assert(s.push(e).drop_last() =~= s);
}

impl MemoryMapEntry {
    pub fn new(base: PhysAddr, length: usize, memory_type: MemoryRegionType) -> (r: Self)
        ensures
            r.base == base,
            r.length == length,
            r.memory_type == memory_type,
    {
        Self { base, length, memory_type }
    }

    pub fn base(&self) -> (r: PhysAddr)
        ensures
            r == self.base,
    {
        self.base
    }

    pub fn length(&self) -> (r: usize)
        ensures
            r == self.length,
    {
        self.length
    }

    /// One past the last byte of the region.
    pub fn end(&self) -> (r: PhysAddr)
        requires
            spec_end(*self) <= u64::MAX,
        ensures
            r@ == spec_end(*self),
    {
        self.base.offset(self.length as u64)
    }

    pub fn ty(&self) -> (r: MemoryRegionType)
        ensures
            r == self.memory_type,
    {
        self.memory_type
    }

    pub fn set_type(&mut self, ty: MemoryRegionType)
        ensures
            final(self).memory_type == ty,
            final(self).base == old(self).base,
            final(self).length == old(self).length,
    {
        self.memory_type = ty;
    }
}

/// How a usable region is split for the direct map: 4KiB pages up to the first
/// 2MiB boundary, 2MiB pages in the middle, and 4KiB pages after the last 2MiB
/// boundary.
pub struct UsableRegion {
    pub base: PhysAddr,
    pub f_pad_4kib: usize,
    pub f_pad_2mib: usize,
    pub mid_1gib: usize,
    pub b_pad_2mib: usize,
    pub b_pad_4kib: usize,
}

/// 2MiB.
pub const SIZE_2MIB: u64 = 0x20_0000;

/// The split of entry `e` as leading 4KiB pages, 2MiB pages, and trailing 4KiB
/// pages, or `None` if the entry is not usable. A region that cannot hold a
/// 2MiB page after its first 2MiB boundary is counted in 4KiB pages only.
pub open spec fn spec_usable_split(e: LimineMemoryEntry) -> Option<(nat, nat, nat)> {
    if e.ty != LimineMemoryType::Usable {
        None
    } else {
        let start = e.base as nat;
        let end = (start + e.length) as nat;
        let aligned_start = spec_align_up(start, SIZE_2MIB as nat);
        if end < aligned_start + SIZE_2MIB {
            Some((((end - start) as nat) / 4096, 0, 0))
        } else {
            let aligned_end = spec_align_down(end, SIZE_2MIB as nat);
            Some(
                (
                    ((aligned_start - start) as nat) / 4096,
                    ((aligned_end - aligned_start) as nat) / (SIZE_2MIB as nat),
                    ((end - aligned_end) as nat) / 4096,
                ),
            )
        }
    }
}

/// Pages of page tables and pages for `total` mapped pages, as counted for a
/// usable region: three tables, one page per page, and one table per 512
/// pages.
pub open spec fn spec_region_pages(total: nat) -> nat {
    3 + total + (total + 511) / 512
}

/// Pages that the direct map of entry `e` takes, zero if it is not usable.
pub open spec fn usable_region_pages(e: LimineMemoryEntry) -> nat {
    match spec_usable_split(e) {
        None => 0,
        Some((a, b, c)) => spec_region_pages((a + b + c) as nat),
    }
}

impl Default for UsableRegion {
    fn default() -> (r: Self)
        ensures
            r.base@ == 0,
            r.f_pad_4kib == 0,
            r.f_pad_2mib == 0,
            r.mid_1gib == 0,
            r.b_pad_2mib == 0,
            r.b_pad_4kib == 0,
    {
        Self { base: PhysAddr::null(), f_pad_4kib: 0, f_pad_2mib: 0, mid_1gib: 0, b_pad_2mib: 0, b_pad_4kib: 0 }
    }
}

impl UsableRegion {
    /// The split of a usable Limine entry, or `None` if it is not usable. The
    /// base of the result stays null.
    pub fn from_region(region: &LimineMemoryEntry) -> (r: Option<Self>)
        requires
            region.ty == LimineMemoryType::Usable ==> region.base + region.length <= u64::MAX && spec_align_up(
                region.base as nat,
                SIZE_2MIB as nat,
            ) + SIZE_2MIB <= u64::MAX,
            region.length / 4096 <= usize::MAX,
        ensures
            match spec_usable_split(*region) {
                None => r is None,
                Some((a, b, c)) => r matches Some(u) && u.base@ == 0 && u.f_pad_4kib == a && u.f_pad_2mib == b
                    && u.b_pad_4kib == c && u.mid_1gib == 0 && u.b_pad_2mib == 0,
            },
    {
        if region.ty != LimineMemoryType::Usable {
            return None;
        }
        let start = PhysAddr::new(region.base);
        let end = start.offset(region.length);
        proof {
            lemma_align_facts(start@, SIZE_2MIB as nat);
        }
        let aligned_start = start.align_up(SIZE_2MIB);
        proof {
            lemma_align_facts(start@, SIZE_2MIB as nat);
            lemma_align_facts(end@, SIZE_2MIB as nat);
        }
        if end.as_u64() < aligned_start.as_u64() + SIZE_2MIB {
            let f = end.distance_from(start) / 4096;
            proof {
                assert(f <= region.length / 4096) by (nonlinear_arith)
                    requires f == region.length / 4096;
            }
            let mut u = Self::default();
            u.f_pad_4kib = f as usize;
            return Some(u);
        }
        let f_pad_4kib = aligned_start.distance_from(start) / 4096;
        let aligned_end = end.align_down(SIZE_2MIB);
        let f_pad_2mib = aligned_end.distance_from(aligned_start) / SIZE_2MIB;
        let b_pad_4kib = end.distance_from(aligned_end) / 4096;
        proof {
            assert(f_pad_4kib <= region.length / 4096) by (nonlinear_arith)
                requires f_pad_4kib == (aligned_start@ - start@) / 4096, aligned_start@ - start@ <= region.length;
            assert(f_pad_2mib <= region.length / 4096) by (nonlinear_arith)
                requires f_pad_2mib == (aligned_end@ - aligned_start@) / 0x20_0000, aligned_end@ - aligned_start@ <= region.length;
            assert(b_pad_4kib <= region.length / 4096) by (nonlinear_arith)
                requires b_pad_4kib == (end@ - aligned_end@) / 4096, end@ - aligned_end@ <= region.length;
        }
        let mut u = Self::default();
        u.f_pad_4kib = f_pad_4kib as usize;
        u.f_pad_2mib = f_pad_2mib as usize;
        u.b_pad_4kib = b_pad_4kib as usize;
        Some(u)
    }

    /// Pages of page tables and pages that mapping the region takes.
    pub fn pages_needed(&self) -> (r: usize)
        requires
            spec_region_pages(
                (self.f_pad_4kib + self.f_pad_2mib + self.mid_1gib + self.b_pad_2mib + self.b_pad_4kib) as nat,
            ) <= usize::MAX,
        ensures
            r == spec_region_pages(
                (self.f_pad_4kib + self.f_pad_2mib + self.mid_1gib + self.b_pad_2mib + self.b_pad_4kib) as nat,
            ),
    {
        let total = self.f_pad_4kib + self.f_pad_2mib + self.mid_1gib + self.b_pad_2mib + self.b_pad_4kib;
        3 + total + (total + 511) / 512
    }
}

/// The memory map while booting, kept next to the bump allocator that backs it.
#[derive(Debug)]
pub struct BootstrapMemoryMap {
    entries: Vec<MemoryMapEntry>,
    alloc: BumpAllocator,
}

impl View for BootstrapMemoryMap {
    type V = Seq<MemoryMapEntry>;

    closed spec fn view(&self) -> Seq<MemoryMapEntry> {
        self.entries@
    }
}

impl BootstrapMemoryMap {
    /// The bump allocator that holds the entries.
    pub closed spec fn spec_alloc(&self) -> BumpAllocator {
        self.alloc
    }

    /// An empty map backed by an empty allocator.
    pub fn empty() -> (r: Self)
        ensures
            r@ == Seq::<MemoryMapEntry>::empty(),
            r.spec_alloc().spec_base() == 0,
            r.spec_alloc().spec_len() == 0,
    {
        Self { entries: Vec::new(), alloc: BumpAllocator::empty() }
    }

    /// A map holding `entries`, backed by `alloc`.
    pub fn new(entries: &[MemoryMapEntry], alloc: BumpAllocator) -> (r: Self)
        ensures
            r@ == entries@,
            r.spec_alloc() == alloc,
    {
        let mut v: Vec<MemoryMapEntry> = Vec::new();
        let mut i: usize = 0;
        while i < entries.len()
            invariant
                i <= entries@.len(),
                v@ == entries@.subrange(0, i as int),
            decreases entries@.len() - i,
        {
            v.push(entries[i]);
            i = i + 1;
            proof {
                assert(v@ =~= entries@.subrange(0, i as int));
            }
        }
        proof {
            assert(v@ =~= entries@);
        }
        Self { entries: v, alloc }
    }

    /// The total length of the usable regions.
    pub fn total_size(&self) -> (r: usize)
        requires
            usable_total(self@) <= usize::MAX,
        ensures
            r == usable_total(self@),
    {
        let mut total: usize = 0;
        let mut i: usize = 0;
        while i < self.entries.len()
            invariant
                i <= self@.len(),
                total == usable_total(self@.subrange(0, i as int)),
                usable_total(self@) <= usize::MAX,
            decreases self@.len() - i,
        {
            proof {
                assert(self@.subrange(0, i as int + 1).drop_last() =~= self@.subrange(0, i as int));
                lemma_usable_total_prefix(self@, i as int + 1);
            }
            let e = self.entries[i];
            if e.memory_type == MemoryRegionType::Usable {
                total = total + e.length;
            }
            i = i + 1;
        }
        proof {
            assert(self@.subrange(0, i as int) =~= self@);
        }
        total
    }

    /// Turns every bootloader-reclaimable region into a usable one.
    pub fn reclaim_bootloader_memory(&mut self)
        ensures
            final(self)@ == reclaimed(old(self)@),
            final(self).spec_alloc() == old(self).spec_alloc(),
    {
        let mut i: usize = 0;
        while i < self.entries.len()
            invariant
                i <= self@.len(),
                self@.len() == old(self)@.len(),
                self.spec_alloc() == old(self).spec_alloc(),
                forall|j: int| 0 <= j < i ==> #[trigger] self@[j] == reclaimed(old(self)@)[j],
                forall|j: int| i <= j < self@.len() ==> #[trigger] self@[j] == old(self)@[j],
            decreases self@.len() - i,
        {
            let e = self.entries[i];
            if e.memory_type == MemoryRegionType::BootloaderReclaimable {
                self.entries.set(i, MemoryMapEntry { memory_type: MemoryRegionType::Usable, ..e });
            }
            i = i + 1;
        }
        proof {
            assert(self@ =~= reclaimed(old(self)@));
        }
    }

    pub fn len(&self) -> (r: usize)
        ensures
            r == self@.len(),
    {
        self.entries.len()
    }

    pub fn is_empty(&self) -> (r: bool)
        ensures
            r == (self@.len() == 0),
    {
        self.entries.len() == 0
    }

    /// The region at `index`.
    pub fn index(&self, index: usize) -> (r: MemoryMapEntry)
        requires
            index < self@.len(),
        ensures
            r == self@[index as int],
    {
        self.entries[index]
    }

    /// Replaces the region at `index`.
    pub fn set(&mut self, index: usize, entry: MemoryMapEntry)
        requires
            index < old(self)@.len(),
        ensures
            final(self)@ == old(self)@.update(index as int, entry),
            final(self).spec_alloc() == old(self).spec_alloc(),
    {
        self.entries.set(index, entry);
    }

    /// Appends a region.
    pub fn push(&mut self, entry: MemoryMapEntry)
        ensures
            final(self)@ == old(self)@.push(entry),
            final(self).spec_alloc() == old(self).spec_alloc(),
    {
        self.entries.push(entry);
    }

    /// The virtual range that holds the entries.
    pub fn mapped_range(&self) -> (r: (VirtAddr, usize))
        ensures
            r.0@ == self.spec_alloc().spec_base(),
            r.1 == self.spec_alloc().spec_len(),
    {
        self.alloc.mapped_range()
    }
}

proof fn lemma_usable_total_prefix(s: Seq<MemoryMapEntry>, n: int)
    requires
        0 <= n <= s.len(),
    ensures
        usable_total(s.subrange(0, n)) <= usable_total(s),
    decreases s.len() - n,
{
    if n < s.len() {
        lemma_usable_total_prefix(s, n + 1);
        assert(s.subrange(0, n + 1).drop_last() =~= s.subrange(0, n));
    } else {
        assert(s.subrange(0, n) =~= s);
    }
}

/// Reclaiming bootloader memory never shrinks the usable total: it grows by the
/// length of the reclaimed regions.
pub proof fn lemma_reclaim_keeps_usable(s: Seq<MemoryMapEntry>)
    ensures
        usable_total(s) <= usable_total(reclaimed(s)),
        forall|i: int| 0 <= i < s.len() && is_usable(s[i]) ==> #[trigger] reclaimed(s)[i] == s[i],
    decreases s.len(),
{
    if s.len() > 0 {
        lemma_reclaim_keeps_usable(s.drop_last());
        assert(reclaimed(s).drop_last() =~= reclaimed(s.drop_last()));
    }
}

/// Only a usable entry is split. When a region holds a 2MiB page, its
/// leading 4KiB pages run exactly up to its first 2MiB boundary, so fewer
/// than 512 of them, and fewer than 512 trailing 4KiB pages follow its last
/// 2MiB boundary; a region without a 2MiB page is all leading 4KiB pages.
pub proof fn lemma_usable_split_parts(e: LimineMemoryEntry)
    requires
        e.base % 4096 == 0,
        e.length % 4096 == 0,
    ensures
        spec_usable_split(e) is None <==> e.ty != LimineMemoryType::Usable,
        spec_usable_split(e) matches Some((a, b, c)) ==> {
            &&& a < 512 || b == 0
            &&& c < 512
            &&& b > 0 ==> (e.base + a * 4096) % 0x20_0000 == 0
            &&& b == 0 ==> c == 0
        },
{
    if e.ty == LimineMemoryType::Usable {
        let start = e.base as nat;
        let end = (start + e.length) as nat;
        let m = SIZE_2MIB as nat;
        lemma_align_facts(start, m);
        lemma_align_facts(end, m);
        let aligned_start = spec_align_up(start, m);
        let aligned_end = spec_align_down(end, m);
        if end >= aligned_start + m {
            assert(aligned_start % 4096 == 0) by (nonlinear_arith)
                requires aligned_start % 0x20_0000 == 0;
            let a = ((aligned_start - start) as nat) / 4096;
            assert(a * 4096 == aligned_start - start) by (nonlinear_arith)
                requires a == ((aligned_start - start) as nat) / 4096, aligned_start % 4096 == 0, start % 4096 == 0,
                    start <= aligned_start;
            assert(a < 512) by (nonlinear_arith)
                requires a * 4096 == aligned_start - start, aligned_start - start < 0x20_0000;
            let c = ((end - aligned_end) as nat) / 4096;
            vstd::arithmetic::div_mod::lemma_fundamental_div_mod((end - aligned_end) as int, 4096);
            vstd::arithmetic::div_mod::lemma_mod_pos_bound((end - aligned_end) as int, 4096);
            assert(c < 512);
            assert(aligned_start <= aligned_end) by (nonlinear_arith)
                requires aligned_start + 0x20_0000 <= end, aligned_end <= end, end - aligned_end < 0x20_0000,
                    aligned_start % 0x20_0000 == 0, aligned_end % 0x20_0000 == 0;
        }
    }
}

/// A usable region that starts on a 4KiB boundary and whose length is a
/// multiple of 4KiB is covered exactly by its leading 4KiB pages, its 2MiB
/// pages and its trailing 4KiB pages.
pub proof fn lemma_usable_split_covers(e: LimineMemoryEntry)
    requires
        e.ty == LimineMemoryType::Usable,
        e.base % 4096 == 0,
        e.length % 4096 == 0,
    ensures
        spec_usable_split(e) matches Some((a, b, c)) && a * 4096 + b * (SIZE_2MIB as nat) + c * 4096 == e.length,
{
    let start = e.base as nat;
    let end = (start + e.length) as nat;
    let m = SIZE_2MIB as nat;
    lemma_align_facts(start, m);
    lemma_align_facts(end, m);
    let aligned_start = spec_align_up(start, m);
    let aligned_end = spec_align_down(end, m);
    if end < aligned_start + m {
        assert(((end - start) as nat) / 4096 * 4096 == e.length) by (nonlinear_arith)
            requires end - start == e.length, e.length % 4096 == 0;
    } else {
        assert(aligned_start % 4096 == 0) by (nonlinear_arith)
            requires aligned_start % 0x20_0000 == 0;
        assert(aligned_end % 4096 == 0) by (nonlinear_arith)
            requires aligned_end % 0x20_0000 == 0;
        assert(end % 4096 == 0) by (nonlinear_arith)
            requires end == start + e.length, start % 4096 == 0, e.length % 4096 == 0;
        assert(aligned_start <= aligned_end) by (nonlinear_arith)
            requires aligned_start + 0x20_0000 <= end, aligned_end <= end, end - aligned_end < 0x20_0000,
                aligned_start % 0x20_0000 == 0, aligned_end % 0x20_0000 == 0;
        let a = ((aligned_start - start) as nat) / 4096;
        let b = ((aligned_end - aligned_start) as nat) / m;
        let c = ((end - aligned_end) as nat) / 4096;
        assert(a * 4096 == aligned_start - start) by (nonlinear_arith)
            requires a == ((aligned_start - start) as nat) / 4096, aligned_start % 4096 == 0, start % 4096 == 0, start <= aligned_start;
        assert(b * m == aligned_end - aligned_start) by (nonlinear_arith)
            requires b == ((aligned_end - aligned_start) as nat) / m, m == 0x20_0000, aligned_start % 0x20_0000 == 0,
                aligned_end % 0x20_0000 == 0, aligned_start <= aligned_end;
        assert(c * 4096 == end - aligned_end) by (nonlinear_arith)
            requires c == ((end - aligned_end) as nat) / 4096, aligned_end % 4096 == 0, end % 4096 == 0, aligned_end <= end;
    }
}


/// The entries the main memory map keeps room for beyond one per region, for
/// the bootstrap structures it takes back later.
pub const RESERVED_ENTRIES: usize = 8;

/// The bytes of the allocation bitmap of a region of `length` bytes: one bit
/// per 4KiB page, rounded up to 64 bytes.
pub open spec fn bitmap_bytes(length: nat) -> nat {
    ((length + 32767) / 32768 + 63) / 64 * 64
}

/// The bytes the main memory map needs for the regions of `s`: one region
/// record of `region_size` bytes and a bitmap each.
pub open spec fn regions_required_size(s: Seq<MemoryMapEntry>, region_size: nat) -> nat
    decreases s.len(),
{
    if s.len() == 0 {
        0
    } else {
        regions_required_size(s.drop_last(), region_size) + region_size + bitmap_bytes(s.last().length as nat)
    }
}

/// The bytes the main memory map needs when built from `s`, with region
/// records of `region_size` bytes.
pub open spec fn main_map_size(s: Seq<MemoryMapEntry>, region_size: nat) -> nat {
    region_size * (RESERVED_ENTRIES as nat) + regions_required_size(s, region_size)
}

proof fn lemma_regions_required_prefix(s: Seq<MemoryMapEntry>, region_size: nat, n: int)
    requires
        0 <= n <= s.len(),
    ensures
        regions_required_size(s.subrange(0, n), region_size) <= regions_required_size(s, region_size),
    decreases s.len() - n,
{
    if n < s.len() {
        lemma_regions_required_prefix(s, region_size, n + 1);
        assert(s.subrange(0, n + 1).drop_last() =~= s.subrange(0, n));
    } else {
        assert(s.subrange(0, n) =~= s);
    }
}

/// The bytes of bitmap for a region of `length` bytes.
fn bitmap_size(length: usize) -> (r: usize)
    ensures
        r == bitmap_bytes(length as nat),
{
    let pages = length / 32768 + if length % 32768 == 0 { 0 } else { 1 };
    proof {
        assert(pages == (length as nat + 32767) / 32768) by (nonlinear_arith)
            requires pages == length / 32768 + if length % 32768 == 0 { 0usize } else { 1usize };
        assert(pages <= 0x2_0000_0000_0000) by (nonlinear_arith)
            requires pages == (length as nat + 32767) / 32768, length <= usize::MAX, usize::MAX <= u64::MAX;
    }
    let padded = pages + 63;
    let r = padded & !63usize;
    proof {
        assert((padded & !63usize) == padded / 64 * 64) by (bit_vector)
            requires padded <= 0x2_0000_0000_0040;
    }
    r
}

/// The bytes the main memory map needs when built from `memory_map`, with
/// region records of `region_size` bytes: room for [`RESERVED_ENTRIES`] more
/// records, and a record and a bitmap for each region; `None` when that does
/// not fit in a `usize`.
pub fn main_map_required_size(memory_map: &BootstrapMemoryMap, region_size: usize) -> (r: Option<usize>)
    ensures
        r == if main_map_size(memory_map@, region_size as nat) <= usize::MAX {
            Some(main_map_size(memory_map@, region_size as nat) as usize)
        } else {
            None::<usize>
        },
{
    let mut required: u128 = region_size as u128 * RESERVED_ENTRIES as u128;
    if required > usize::MAX as u128 {
        return None;
    }
    let mut i: usize = 0;
    let n = memory_map.len();
    while i < n
        invariant
            n == memory_map@.len(),
            i <= n,
            required == region_size * RESERVED_ENTRIES + regions_required_size(
                memory_map@.subrange(0, i as int),
                region_size as nat,
            ),
            required <= usize::MAX,
        decreases n - i,
    {
        proof {
            assert(memory_map@.subrange(0, i as int + 1).drop_last() =~= memory_map@.subrange(0, i as int));
        }
        let e = memory_map.index(i);
        required = required + region_size as u128 + bitmap_size(e.length) as u128;
        i = i + 1;
        if required > usize::MAX as u128 {
            proof {
                lemma_regions_required_prefix(memory_map@, region_size as nat, i as int);
            }
            return None;
        }
    }
    proof {
        assert(memory_map@.subrange(0, i as int) =~= memory_map@);
    }
    Some(required as usize)
}

/// Whether the main memory map takes over region `e`: a usable, non-empty
/// region.
pub open spec fn taken_over(e: MemoryMapEntry) -> bool {
    e.memory_type == MemoryRegionType::Usable && e.length > 0
}

/// The regions the main memory map takes over, in order, as base and length.
pub open spec fn main_map_regions(s: Seq<MemoryMapEntry>) -> Seq<(nat, nat)>
    decreases s.len(),
{
    if s.len() == 0 {
        Seq::empty()
    } else if taken_over(s.last()) {
        main_map_regions(s.drop_last()).push((s.last().base@, s.last().length as nat))
    } else {
        main_map_regions(s.drop_last())
    }
}

/// The regions the main memory map takes over from `memory_map`: the usable,
/// non-empty ones, in order, as base and length.
pub fn usable_regions(memory_map: &BootstrapMemoryMap) -> (r: Vec<(PhysAddr, usize)>)
    ensures
        r@.map_values(|p: (PhysAddr, usize)| (p.0@, p.1 as nat)) == main_map_regions(memory_map@),
{
    let mut regions: Vec<(PhysAddr, usize)> = Vec::new();
    let mut i: usize = 0;
    let n = memory_map.len();
    while i < n
        invariant
            n == memory_map@.len(),
            i <= n,
            regions@.map_values(|p: (PhysAddr, usize)| (p.0@, p.1 as nat)) == main_map_regions(
                memory_map@.subrange(0, i as int),
            ),
        decreases n - i,
    {
        proof {
            assert(memory_map@.subrange(0, i as int + 1).drop_last() =~= memory_map@.subrange(0, i as int));
        }
        let e = memory_map.index(i);
        if e.memory_type == MemoryRegionType::Usable && e.length > 0 {
            let ghost before = regions@;
            regions.push((e.base, e.length));
            proof {
                assert(regions@.map_values(|p: (PhysAddr, usize)| (p.0@, p.1 as nat)) =~= before.map_values(
                    |p: (PhysAddr, usize)| (p.0@, p.1 as nat),
                ).push((e.base@, e.length as nat)));
            }
        }
        i = i + 1;
    }
    proof {
        assert(memory_map@.subrange(0, i as int) =~= memory_map@);
    }
    regions
}

} // verus!
