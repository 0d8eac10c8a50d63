use hadron_kernel::arch::PhysAddr;
use hadron_kernel::boot::arch::memory_map::{BootstrapMemoryMap, MemoryMapEntry};
use hadron_kernel::boot::arch::x86_64::frame_allocator::BasicFrameAllocator;
use hadron_kernel::boot::memory_map::MemoryRegionType;

fn entry(base: u64, length: u64, ty: MemoryRegionType) -> MemoryMapEntry {
    MemoryMapEntry::new(PhysAddr::new(base), length, ty)
}

fn map() -> BootstrapMemoryMap {
    BootstrapMemoryMap::new(&[
        entry(0x0, 0x1000, MemoryRegionType::Reserved),
        entry(0x1000, 0x2000, MemoryRegionType::Usable),
        entry(0x10_0000, 0x10_0000, MemoryRegionType::BootloaderReclaimable),
        entry(0x1_0000_0000, 0x10_0000, MemoryRegionType::Usable),
    ])
}

#[test]
fn total_size_counts_usable_regions() {
    assert_eq!(map().total_size(), 0x2000 + 0x10_0000);
}

#[test]
fn reclaiming_turns_bootloader_memory_usable() {
    let mut m = map();
    m.reclaim_bootloader_memory();
    assert_eq!(m.index(2).ty(), MemoryRegionType::Usable);
    assert_eq!(m.index(0).ty(), MemoryRegionType::Reserved);
    assert_eq!(m.total_size(), 0x2000 + 0x20_0000);
}

#[test]
fn frames_come_off_the_front_until_the_region_is_used_up() {
    let mut fa = BasicFrameAllocator::new(map());
    assert_eq!(fa.allocate_mapped_frame().unwrap().start_address(), PhysAddr::new(0x1000));
    assert_eq!(fa.allocate_mapped_frame().unwrap().start_address(), PhysAddr::new(0x2000));
    // below 4GiB nothing usable is left; the scan stops at the first region above
    assert!(fa.allocate_mapped_frame().is_none());
    // anywhere in memory, the region above 4GiB serves
    assert_eq!(fa.allocate_frame().unwrap().start_address(), PhysAddr::new(0x1_0000_0000));
    let m = fa.into_memory_map();
    assert_eq!(m.index(1).ty(), MemoryRegionType::Allocated);
    assert_eq!(m.index(1).length(), 0);
    assert_eq!(m.index(3).base(), PhysAddr::new(0x1_0000_1000));
}

#[test]
fn contiguous_frames_need_a_region_large_enough() {
    let mut fa = BasicFrameAllocator::new(map());
    assert!(fa.allocate_mapped_contiguous(3).is_none());
    assert_eq!(fa.allocate_mapped_contiguous(2).unwrap().start_address(), PhysAddr::new(0x1000));
    assert!(fa.can_carve_check(0x1000, false));
}

#[test]
fn frame_holds_an_unaligned_region_start() {
    let mut fa = BasicFrameAllocator::new(BootstrapMemoryMap::new(&[entry(0x1800, 0x3000, MemoryRegionType::Usable)]));
    assert_eq!(fa.allocate_frame().unwrap().start_address(), PhysAddr::new(0x1000));
    assert_eq!(fa.into_memory_map().index(0).base(), PhysAddr::new(0x2800));
}
