//! The memory map format of the Limine boot protocol, and the page budget of
//! the early boot stage.
use crate::arch::spec_align_up;
use crate::boot::memory_map::{usable_region_pages, MemoryRegionType, UsableRegion, SIZE_2MIB};
use vstd::prelude::*;

verus! {

/// The type of a memory map entry, as Limine reports it.
#[derive(Debug, Clone, Copy, PartialEq, Eq, Structural)]
pub enum LimineMemoryType {
    Usable,
    Reserved,
    AcpiReclaimable,
    AcpiNvs,
    BadMemory,
    BootloaderReclaimable,
    KernelAndModules,
    Framebuffer,
}

/// A memory map entry, as Limine reports it.
#[derive(Debug, Clone, Copy)]
pub struct LimineMemoryEntry {
    pub base: u64,
    pub length: u64,
    pub ty: LimineMemoryType,
}

/// The region type that a Limine entry type stands for.
pub open spec fn spec_region_type(ty: LimineMemoryType) -> MemoryRegionType {
    match ty {
        LimineMemoryType::Usable => MemoryRegionType::Usable,
        LimineMemoryType::Reserved => MemoryRegionType::Reserved,
        LimineMemoryType::AcpiReclaimable => MemoryRegionType::AcpiReclaimable,
        LimineMemoryType::AcpiNvs => MemoryRegionType::AcpiNvs,
        LimineMemoryType::BadMemory => MemoryRegionType::BadMemory,
        LimineMemoryType::BootloaderReclaimable => MemoryRegionType::BootloaderReclaimable,
        LimineMemoryType::KernelAndModules => MemoryRegionType::KernelAndModules,
        LimineMemoryType::Framebuffer => MemoryRegionType::Framebuffer,
    }
}

/// Each Limine entry type becomes the region type of the same name: only a
/// usable Limine entry gives usable memory, bad memory stays bad, and no
/// entry is taken as already allocated. Distinct entry types stay distinct.
pub proof fn lemma_region_type_by_name(ty: LimineMemoryType, other: LimineMemoryType)
    ensures
        (spec_region_type(ty) == MemoryRegionType::Usable) <==> (ty == LimineMemoryType::Usable),
        (spec_region_type(ty) == MemoryRegionType::Reserved) <==> (ty == LimineMemoryType::Reserved),
        (spec_region_type(ty) == MemoryRegionType::AcpiReclaimable) <==> (ty == LimineMemoryType::AcpiReclaimable),
        (spec_region_type(ty) == MemoryRegionType::AcpiNvs) <==> (ty == LimineMemoryType::AcpiNvs),
        (spec_region_type(ty) == MemoryRegionType::BadMemory) <==> (ty == LimineMemoryType::BadMemory),
        (spec_region_type(ty) == MemoryRegionType::BootloaderReclaimable) <==> (ty
            == LimineMemoryType::BootloaderReclaimable),
        (spec_region_type(ty) == MemoryRegionType::KernelAndModules) <==> (ty == LimineMemoryType::KernelAndModules),
        (spec_region_type(ty) == MemoryRegionType::Framebuffer) <==> (ty == LimineMemoryType::Framebuffer),
        spec_region_type(ty) != MemoryRegionType::Allocated,
        (spec_region_type(ty) == spec_region_type(other)) <==> (ty == other),
{
}

impl MemoryRegionType {
    /// The region type that a Limine entry type stands for.
    pub fn from_limine(ty: LimineMemoryType) -> (r: MemoryRegionType)
        ensures
            r == spec_region_type(ty),
    {
        match ty {
            LimineMemoryType::Usable => MemoryRegionType::Usable,
            LimineMemoryType::Reserved => MemoryRegionType::Reserved,
            LimineMemoryType::AcpiReclaimable => MemoryRegionType::AcpiReclaimable,
            LimineMemoryType::AcpiNvs => MemoryRegionType::AcpiNvs,
            LimineMemoryType::BadMemory => MemoryRegionType::BadMemory,
            LimineMemoryType::BootloaderReclaimable => MemoryRegionType::BootloaderReclaimable,
            LimineMemoryType::KernelAndModules => MemoryRegionType::KernelAndModules,
            LimineMemoryType::Framebuffer => MemoryRegionType::Framebuffer,
        }
    }
}

/// Page tables needed to map `pages` consecutive pages from a 2MiB boundary:
/// one level-1 table for every 512 pages, one level-2 table for every 512
/// level-1 tables (262144 pages), and one level-3 table.
pub open spec fn spec_pages_needed(pages: nat) -> nat {
    (pages + 511) / 512 + (pages + 262143) / 262144 + 1
}

/// The page tables for `pages` pages are one level-1 table per started 512
/// pages, one level-2 table per started 262144 pages, and one level-3 table:
/// enough to hold every page, and none spare. The counts are returned.
pub proof fn lemma_pages_needed_counts(pages: nat) -> (t: (nat, nat))
    ensures
        spec_pages_needed(pages) == t.0 + t.1 + 1,
        pages <= t.0 * 512 < pages + 512,
        pages <= t.1 * 262144 < pages + 262144,
{
    let t1 = (pages + 511) / 512;
    let t2 = (pages + 262143) / 262144;
    assert(pages <= t1 * 512 < pages + 512) by (nonlinear_arith)
        requires t1 == (pages + 511) / 512;
    assert(pages <= t2 * 262144 < pages + 262144) by (nonlinear_arith)
        requires t2 == (pages + 262143) / 262144;
    (t1, t2)
}

/// The number of pages of page tables that mapping `pages` pages takes.
pub fn calculate_pages_needed(pages: usize) -> (r: usize)
    ensures
        r == spec_pages_needed(pages as nat),
{
    let pts = pages / 512 + if pages % 512 == 0 { 0 } else { 1 };
    let pds = pages / 262144 + if pages % 262144 == 0 { 0 } else { 1 };
    proof {
        assert(pts == (pages as nat + 511) / 512) by (nonlinear_arith)
            requires pts == pages / 512 + if pages % 512 == 0 { 0usize } else { 1usize };
        assert(pds == (pages as nat + 262143) / 262144) by (nonlinear_arith)
            requires pds == pages / 262144 + if pages % 262144 == 0 { 0usize } else { 1usize };
    }
    pts + pds + 1
}

/// The sizes that the early boot stage sets aside pages for.
pub struct BootLayout {
    /// Bytes of kernel text.
    pub kernel_text: usize,
    /// Bytes of kernel data.
    pub kernel_data: usize,
    /// Bytes of kernel stack.
    pub stack_size: usize,
    /// Bytes of kernel heap.
    pub heap_size: usize,
    /// Bytes that the bootstrap memory map occupies.
    pub memory_map_size: usize,
    /// Bytes of framebuffer: stride times height.
    pub framebuffer_size: usize,
}

/// Pages of page tables for the fixed mappings of `layout`.
pub open spec fn spec_layout_pages(layout: BootLayout) -> nat {
    spec_pages_needed(layout.kernel_text as nat / 4096) + spec_pages_needed(layout.kernel_data as nat / 4096)
        + spec_pages_needed(layout.stack_size as nat / 4096) + spec_pages_needed(layout.heap_size as nat / 4096)
        + spec_pages_needed((layout.memory_map_size as nat + 4095) / 4096) + spec_pages_needed(
        (layout.framebuffer_size as nat + 4095) / 4096,
    )
}

/// Pages of page tables for the direct map of the usable regions of `entries`.
pub open spec fn spec_regions_pages(entries: Seq<LimineMemoryEntry>) -> nat
    decreases entries.len(),
{
    if entries.len() == 0 {
        0
    } else {
        spec_regions_pages(entries.drop_last()) + usable_region_pages(entries.last())
    }
}

/// The number of pages the early boot stage reserves for its page tables, or
/// `None` when the count does not fit in a `usize`.
pub fn pages_to_allocate(layout: &BootLayout, entries: &[LimineMemoryEntry]) -> (r: Option<usize>)
    requires
        forall|i: int|
            0 <= i < entries@.len() && #[trigger] entries@[i].ty == LimineMemoryType::Usable ==> entries@[i].base
                + entries@[i].length <= u64::MAX && spec_align_up(entries@[i].base as nat, SIZE_2MIB as nat)
                + SIZE_2MIB <= u64::MAX,
        forall|i: int| 0 <= i < entries@.len() ==> #[trigger] entries@[i].length / 4096 <= usize::MAX,
    ensures
        r == if spec_layout_pages(*layout) + spec_regions_pages(entries@) <= usize::MAX {
            Some((spec_layout_pages(*layout) + spec_regions_pages(entries@)) as usize)
        } else {
            None::<usize>
        },
{
    let mut pages: u128 = 0;
    pages = pages + calculate_pages_needed(layout.kernel_text / 4096) as u128;
    pages = pages + calculate_pages_needed(layout.kernel_data / 4096) as u128;
    pages = pages + calculate_pages_needed(layout.stack_size / 4096) as u128;
    pages = pages + calculate_pages_needed(layout.heap_size / 4096) as u128;
    let mmap_frames = layout.memory_map_size / 4096 + if layout.memory_map_size % 4096 == 0 { 0 } else { 1 };
    proof {
        assert(mmap_frames == (layout.memory_map_size as nat + 4095) / 4096) by (nonlinear_arith)
            requires mmap_frames == layout.memory_map_size / 4096 + if layout.memory_map_size % 4096 == 0 { 0usize } else { 1usize };
    }
    pages = pages + calculate_pages_needed(mmap_frames) as u128;
    let fb_pages = layout.framebuffer_size / 4096 + if layout.framebuffer_size % 4096 == 0 { 0 } else { 1 };
    proof {
        assert(fb_pages == (layout.framebuffer_size as nat + 4095) / 4096) by (nonlinear_arith)
            requires fb_pages == layout.framebuffer_size / 4096 + if layout.framebuffer_size % 4096 == 0 { 0usize } else { 1usize };
    }
    pages = pages + calculate_pages_needed(fb_pages) as u128;
    let ghost fixed = pages as nat;
    assert(fixed == spec_layout_pages(*layout));
    let mut i: usize = 0;
    while i < entries.len()
        invariant
            i <= entries@.len(),
            fixed == spec_layout_pages(*layout),
            pages == fixed + spec_regions_pages(entries@.subrange(0, i as int)),
            pages <= usize::MAX,
            forall|i: int|
            0 <= i < entries@.len() && #[trigger] entries@[i].ty == LimineMemoryType::Usable ==> entries@[i].base
                + entries@[i].length <= u64::MAX && spec_align_up(entries@[i].base as nat, SIZE_2MIB as nat)
                + SIZE_2MIB <= u64::MAX,
            forall|i: int| 0 <= i < entries@.len() ==> #[trigger] entries@[i].length / 4096 <= usize::MAX,
        decreases entries@.len() - i,
    {
        proof {
            assert(entries@.subrange(0, i as int + 1).drop_last() =~= entries@.subrange(0, i as int));
        }
        match UsableRegion::from_region(&entries[i]) {
            Some(region) => {
                let total: u128 = region.f_pad_4kib as u128 + region.f_pad_2mib as u128 + region.mid_1gib as u128
                    + region.b_pad_2mib as u128 + region.b_pad_4kib as u128;
                pages = pages + 3 + total + (total + 511) / 512;
            },
            None => {},
        }
        i = i + 1;
        if pages > usize::MAX as u128 {
            proof {
                lemma_regions_pages_prefix(entries@, i as int);
            }
            return None;
        }
    }
    proof {
        assert(entries@.subrange(0, i as int) =~= entries@);
    }
    Some(pages as usize)
}

proof fn lemma_regions_pages_prefix(s: Seq<LimineMemoryEntry>, n: int)
    requires
        0 <= n <= s.len(),
    ensures
        spec_regions_pages(s.subrange(0, n)) <= spec_regions_pages(s),
    decreases s.len() - n,
{
    if n < s.len() {
        lemma_regions_pages_prefix(s, n + 1);
        assert(s.subrange(0, n + 1).drop_last() =~= s.subrange(0, n));
    } else {
        assert(s.subrange(0, n) =~= s);
    }
}

} // verus!
