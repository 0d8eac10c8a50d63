use hadron_kernel::arch::PhysAddr;
use hadron_kernel::boot::arch::memory_map::{MemoryMap, MemoryMapEntry as ArchEntry};
use hadron_kernel::boot::limine::{
    calculate_pages_needed, pages_to_allocate, BootLayout, LimineMemoryEntry, LimineMemoryType,
};
use hadron_kernel::boot::memory_map::{MemoryRegionTag, MemoryRegionType, UsableRegion};

fn usable(base: u64, length: u64) -> LimineMemoryEntry {
    LimineMemoryEntry { base, length, ty: LimineMemoryType::Usable }
}

#[test]
fn unusable_region_is_not_split() {
    let e = LimineMemoryEntry { base: 0, length: 0x10_0000, ty: LimineMemoryType::Reserved };
    assert!(UsableRegion::from_region(&e).is_none());
}

#[test]
fn small_region_takes_4kib_pages_only() {
    let r = UsableRegion::from_region(&usable(0x1000, 0x9F000)).unwrap();
    assert_eq!(r.f_pad_4kib, 0x9F);
    assert_eq!(r.f_pad_2mib, 0);
    assert_eq!(r.b_pad_4kib, 0);
    assert_eq!(r.base, PhysAddr::null());
}

#[test]
fn large_region_is_split_at_2mib_boundaries() {
    // 0x10_0000 .. 0x80_3000: 1MiB of 4KiB pages up to 0x20_0000, three
    // 2MiB pages up to 0x80_0000, then three 4KiB pages
    let r = UsableRegion::from_region(&usable(0x10_0000, 0x70_3000)).unwrap();
    assert_eq!(r.f_pad_4kib, 0x100);
    assert_eq!(r.f_pad_2mib, 3);
    assert_eq!(r.b_pad_4kib, 3);
    assert_eq!(r.mid_1gib, 0);
    assert_eq!(r.b_pad_2mib, 0);
    assert_eq!(r.f_pad_4kib * 0x1000 + r.f_pad_2mib * 0x20_0000 + r.b_pad_4kib * 0x1000, 0x70_3000);
    assert_eq!(r.pages_needed(), 3 + 262 + 1);
}

#[test]
fn aligned_region_has_no_padding() {
    let r = UsableRegion::from_region(&usable(0x20_0000, 0x40_0000)).unwrap();
    assert_eq!((r.f_pad_4kib, r.f_pad_2mib, r.b_pad_4kib), (0, 2, 0));
}

#[test]
fn default_region_is_empty() {
    let r = UsableRegion::default();
    assert_eq!(r.pages_needed(), 3);
}

#[test]
fn pages_needed_formula() {
    // one level-1 table per 512 pages, one level-2 table per 512 level-1
    // tables, and the level-3 table
    assert_eq!(calculate_pages_needed(0), 1);
    assert_eq!(calculate_pages_needed(1), 3);
    assert_eq!(calculate_pages_needed(512), 3);
    assert_eq!(calculate_pages_needed(513), 4);
    assert_eq!(calculate_pages_needed(1024), 4);
    assert_eq!(calculate_pages_needed(4096), 10);
    assert_eq!(calculate_pages_needed(512 * 512), 514);
    assert_eq!(calculate_pages_needed(512 * 512 + 1), 516);
}

#[test]
fn page_budget_of_the_boot_stage() {
    let layout = BootLayout {
        kernel_text: 0x10_0000,
        kernel_data: 0x8000,
        stack_size: 0x10000,
        heap_size: 512 * 1024,
        memory_map_size: 0x1800,
        framebuffer_size: 800 * 4 * 600,
    };
    let entries = [
        usable(0x1000, 0x9F000),
        LimineMemoryEntry { base: 0xA0000, length: 0x60000, ty: LimineMemoryType::Reserved },
    ];
    // six fixed mappings of 3 pages each, and the usable region
    let expected = 3 * 6 + (3 + 0x9F + 1);
    assert_eq!(pages_to_allocate(&layout, &entries), Some(expected));
}

#[test]
fn region_types_follow_limine() {
    assert_eq!(MemoryRegionType::from_limine(LimineMemoryType::Usable), MemoryRegionType::Usable);
    assert_eq!(
        MemoryRegionType::from_limine(LimineMemoryType::BootloaderReclaimable),
        MemoryRegionType::BootloaderReclaimable
    );
    assert_eq!(MemoryRegionType::from_limine(LimineMemoryType::Framebuffer), MemoryRegionType::Framebuffer);
}

#[test]
fn parse_from_limine_fills_the_map() {
    let mut map = MemoryMap::with_capacity(4);
    let entries = [
        usable(0x1000, 0x9F000),
        LimineMemoryEntry { base: 0x10_0000, length: 0x1000, ty: LimineMemoryType::KernelAndModules },
    ];
    map.parse_from_limine(&entries);
    assert_eq!(map.size(), 2);
    assert_eq!(map.entry(0).base(), PhysAddr::new(0x1000));
    assert_eq!(map.entry(0).length(), 0x9F000);
    assert_eq!(map.entry(0).end(), PhysAddr::new(0xA0000));
    assert_eq!(map.entry(1).ty(), MemoryRegionType::KernelAndModules);
    assert_eq!(map.entry(2).length(), 0);
    let mut e = ArchEntry::new(PhysAddr::new(0x5000), 0x1000, MemoryRegionType::Reserved);
    e.set_type(MemoryRegionType::Usable);
    assert_eq!(e.ty(), MemoryRegionType::Usable);
}

#[test]
fn reserved_types_map_to_tags() {
    assert_eq!(MemoryRegionType::BootloaderReclaimable.try_into(), Ok(MemoryRegionTag::BootloaderReclaimable));
    assert_eq!(MemoryRegionType::KernelAndModules.try_into(), Ok(MemoryRegionTag::KernelAndModules));
    assert_eq!(MemoryRegionType::Framebuffer.try_into(), Ok(MemoryRegionTag::Framebuffer));
    assert_eq!(MemoryRegionType::AcpiReclaimable.try_into(), Ok(MemoryRegionTag::AcpiReclaimable));
    assert_eq!(MemoryRegionType::AcpiNvs.try_into(), Ok(MemoryRegionTag::AcpiNvs));
    assert_eq!(MemoryRegionType::Usable.try_into(), Err::<MemoryRegionTag, ()>(()));
    assert_eq!(MemoryRegionType::Allocated.try_into(), Err::<MemoryRegionTag, ()>(()));
    assert_eq!(MemoryRegionType::BadMemory.try_into(), Err::<MemoryRegionTag, ()>(()));
}
