use hadron_kernel::arch::{PhysAddr, VirtAddr};
use hadron_kernel::boot::frame_allocator::BootstrapFrameAllocator;
use hadron_kernel::boot::memory_map::{BootstrapMemoryMap, MemoryMapEntry, MemoryRegionType};
use hadron_kernel::mm::allocator::bump::BumpAllocator;

fn map_of(entries: &[MemoryMapEntry]) -> BootstrapMemoryMap {
    BootstrapMemoryMap::new(entries, BumpAllocator::empty())
}

#[test]
fn test_frame_allocator() {
    let entries = [MemoryMapEntry::new(PhysAddr::new(0x1000), 0x5000, MemoryRegionType::Usable)];
    let mut frame_allocator = BootstrapFrameAllocator::new(map_of(&entries));

    let f1 = frame_allocator.allocate_frame().unwrap();
    let f2 = frame_allocator.allocate_frame().unwrap();
    let f3 = frame_allocator.allocate_frame().unwrap();
    let f4 = frame_allocator.allocate_frame().unwrap();
    let f5 = frame_allocator.allocate_frame().unwrap();
    assert!(frame_allocator.allocate_frame().is_none());

    let starts = [f1, f2, f3, f4, f5].map(|f| f.start_address().as_u64());
    for i in 0..5 {
        for j in 0..5 {
            if i != j {
                assert_ne!(starts[i], starts[j], "a frame was allocated twice");
            }
        }
    }
    assert_eq!(starts, [0x1000, 0x2000, 0x3000, 0x4000, 0x5000]);
    let map = frame_allocator.into_memory_map();
    assert_eq!(map.index(0).ty(), MemoryRegionType::Allocated);
    assert_eq!(map.index(0).length(), 0);
    assert_eq!(map.total_size(), 0);
}

#[test]
fn allocation_skips_unusable_and_small_regions() {
    let entries = [
        MemoryMapEntry::new(PhysAddr::new(0x0), 0x1000, MemoryRegionType::Reserved),
        MemoryMapEntry::new(PhysAddr::new(0x1000), 0x800, MemoryRegionType::Usable),
        MemoryMapEntry::new(PhysAddr::new(0x8000), 0x3000, MemoryRegionType::Usable),
    ];
    let mut fa = BootstrapFrameAllocator::new(map_of(&entries));
    let f = fa.allocate_mapped_frame().unwrap();
    assert_eq!(f.start_address(), PhysAddr::new(0x8000));
    let map = fa.memory_map();
    assert_eq!(map.index(2).base(), PhysAddr::new(0x9000));
    assert_eq!(map.index(2).length(), 0x2000);
    assert_eq!(map.index(2).ty(), MemoryRegionType::Usable);
    assert_eq!(map.index(1).length(), 0x800);
    assert_eq!(map.total_size(), 0x2800);
}

#[test]
fn mapped_allocation_stops_at_4gib() {
    let entries = [
        MemoryMapEntry::new(PhysAddr::new(0x1000), 0x800, MemoryRegionType::Usable),
        MemoryMapEntry::new(PhysAddr::new(0x1_0000_0000), 0x10000, MemoryRegionType::Usable),
        MemoryMapEntry::new(PhysAddr::new(0x2000), 0x1000, MemoryRegionType::Usable),
    ];
    let mut fa = BootstrapFrameAllocator::new(map_of(&entries));
    assert!(fa.allocate_mapped_frame().is_none());
    assert!(fa.allocate_mapped_contiguous(1).is_none());
    let f = fa.allocate_frame().unwrap();
    assert_eq!(f.start_address(), PhysAddr::new(0x1_0000_0000));
}

#[test]
fn contiguous_allocation() {
    let entries = [
        MemoryMapEntry::new(PhysAddr::new(0x1000), 0x2000, MemoryRegionType::Usable),
        MemoryMapEntry::new(PhysAddr::new(0x10000), 0x4000, MemoryRegionType::Usable),
    ];
    let mut fa = BootstrapFrameAllocator::new(map_of(&entries));
    let f = fa.allocate_mapped_contiguous(3).unwrap();
    assert_eq!(f.start_address(), PhysAddr::new(0x10000));
    let f = fa.allocate_mapped_contiguous(2).unwrap();
    assert_eq!(f.start_address(), PhysAddr::new(0x1000));
    assert_eq!(fa.memory_map().index(0).ty(), MemoryRegionType::Allocated);
    assert!(fa.allocate_mapped_contiguous(2).is_none());
    assert_eq!(fa.memory_map().total_size(), 0x1000);
}

#[test]
fn deallocated_region_is_usable_again() {
    let entries = [MemoryMapEntry::new(PhysAddr::new(0x1000), 0x1000, MemoryRegionType::Usable)];
    let mut fa = BootstrapFrameAllocator::new(map_of(&entries));
    let f = fa.allocate_frame().unwrap();
    assert!(fa.allocate_frame().is_none());
    fa.deallocate_region(f.start_address(), 0x1000);
    assert_eq!(fa.memory_map().len(), 2);
    assert_eq!(fa.memory_map().total_size(), 0x1000);
    let g = fa.allocate_frame().unwrap();
    assert_eq!(g.start_address(), PhysAddr::new(0x1000));
}

#[test]
fn total_size_and_reclaim() {
    let entries = [
        MemoryMapEntry::new(PhysAddr::new(0x1000), 0x1000, MemoryRegionType::Usable),
        MemoryMapEntry::new(PhysAddr::new(0x2000), 0x3000, MemoryRegionType::BootloaderReclaimable),
        MemoryMapEntry::new(PhysAddr::new(0x8000), 0x2000, MemoryRegionType::Reserved),
    ];
    let mut map = map_of(&entries);
    assert_eq!(map.total_size(), 0x1000);
    assert!(!map.is_empty());
    map.reclaim_bootloader_memory();
    assert_eq!(map.total_size(), 0x4000);
    assert_eq!(map.index(1).ty(), MemoryRegionType::Usable);
    assert_eq!(map.index(2).ty(), MemoryRegionType::Reserved);
}

#[test]
fn memory_map_entry_accessors() {
    let mut e = MemoryMapEntry::new(PhysAddr::new(0x1000), 0x2000, MemoryRegionType::AcpiNvs);
    assert_eq!(e.base(), PhysAddr::new(0x1000));
    assert_eq!(e.length(), 0x2000);
    assert_eq!(e.end(), PhysAddr::new(0x3000));
    assert_eq!(e.ty(), MemoryRegionType::AcpiNvs);
    e.set_type(MemoryRegionType::Usable);
    assert_eq!(e.ty(), MemoryRegionType::Usable);
}

#[test]
fn memory_map_keeps_its_allocator_range() {
    let map = BootstrapMemoryMap::new(&[], BumpAllocator::new(VirtAddr::new(0x4000), 0x1000));
    assert_eq!(map.mapped_range(), (VirtAddr::new(0x4000), 0x1000));
    assert!(map.is_empty());
    let empty = BootstrapMemoryMap::empty();
    assert_eq!(empty.mapped_range(), (VirtAddr::null(), 0));
    let mut pushed = BootstrapMemoryMap::empty();
    pushed.push(MemoryMapEntry::new(PhysAddr::new(0), 0x1000, MemoryRegionType::Usable));
    assert_eq!(pushed.len(), 1);
}

#[test]
fn bump_allocator_hands_out_consecutive_blocks() {
    let mut bump = BumpAllocator::new(VirtAddr::new(0x10_0000), 0x100);
    assert_eq!(bump.allocate(0x10), VirtAddr::new(0x10_0000));
    assert_eq!(bump.allocate(0x20), VirtAddr::new(0x10_0010));
    assert_eq!(bump.allocate(0x30), VirtAddr::new(0x10_0030));
    bump.init(VirtAddr::new(0x20_0000), 0x200);
    assert_eq!(bump.mapped_range(), (VirtAddr::new(0x20_0000), 0x200));
    assert_eq!(bump.allocate(0x10), VirtAddr::new(0x20_0060));
    bump.deallocate(VirtAddr::new(0x20_0060), 0x10);
    assert_eq!(bump.allocate(0x10), VirtAddr::new(0x20_0070));
}
