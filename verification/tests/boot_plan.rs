use hadron_kernel::arch::PhysAddr;
use hadron_kernel::boot::frame_allocator::BootstrapFrameAllocator;
use hadron_kernel::boot::memory_map::{
    main_map_required_size, usable_regions, BootstrapMemoryMap, MemoryMapEntry, MemoryRegionType,
};
use hadron_kernel::mm::allocator::bump::BumpAllocator;

fn map_of(entries: &[MemoryMapEntry]) -> BootstrapMemoryMap {
    BootstrapMemoryMap::new(entries, BumpAllocator::empty())
}

#[test]
fn main_map_size() {
    let entries = [
        MemoryMapEntry::new(PhysAddr::new(0x10_0000), 0x10_0000, MemoryRegionType::Usable),
        MemoryMapEntry::new(PhysAddr::new(0x30_0000), 0x1000, MemoryRegionType::Reserved),
    ];
    // 8 reserved records, then a record and a 64-byte bitmap per region
    assert_eq!(main_map_required_size(&map_of(&entries), 48), Some(48 * 8 + 2 * (48 + 64)));
    // a region of 3GiB needs 98,304 bitmap bytes, already a multiple of 64
    let big = [MemoryMapEntry::new(PhysAddr::new(0), 0xC000_0000, MemoryRegionType::Usable)];
    assert_eq!(main_map_required_size(&map_of(&big), 32), Some(32 * 8 + 32 + 98_304));
    assert_eq!(main_map_required_size(&map_of(&[]), 40), Some(320));
    // records too large to count
    assert_eq!(main_map_required_size(&map_of(&entries), usize::MAX / 4), None);
}

#[test]
fn regions_taken_over() {
    let entries = [
        MemoryMapEntry::new(PhysAddr::new(0x1000), 0x2000, MemoryRegionType::Usable),
        MemoryMapEntry::new(PhysAddr::new(0x3000), 0x1000, MemoryRegionType::Reserved),
        MemoryMapEntry::new(PhysAddr::new(0x4000), 0, MemoryRegionType::Usable),
        MemoryMapEntry::new(PhysAddr::new(0x10_0000), 0x1000, MemoryRegionType::Usable),
    ];
    assert_eq!(
        usable_regions(&map_of(&entries)),
        vec![(PhysAddr::new(0x1000), 0x2000), (PhysAddr::new(0x10_0000), 0x1000)]
    );
}

#[test]
fn frames_available_below_4gib() {
    let entries = [
        MemoryMapEntry::new(PhysAddr::new(0x1000), 0x3000, MemoryRegionType::Usable),
        MemoryMapEntry::new(PhysAddr::new(0x1_0000_0000), 0x10_0000, MemoryRegionType::Usable),
    ];
    let fa = BootstrapFrameAllocator::new(map_of(&entries));
    assert!(fa.can_allocate_frames(0));
    assert!(fa.can_allocate_frames(3));
    assert!(!fa.can_allocate_frames(4));
    // checking takes nothing
    assert_eq!(fa.memory_map().total_size(), 0x3000 + 0x10_0000);
    assert!(fa.can_carve_check(0x1000, true));
}

#[test]
fn misaligned_region_cannot_be_carved() {
    let entries = [MemoryMapEntry::new(PhysAddr::new(0x1800), 0x3000, MemoryRegionType::Usable)];
    let fa = BootstrapFrameAllocator::new(map_of(&entries));
    assert!(!fa.can_carve_check(0x1000, true));
    assert!(!fa.can_allocate_frames(1));
}
