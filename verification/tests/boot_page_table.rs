use hadron_kernel::arch::{PhysAddr, VirtAddr};
use hadron_kernel::boot::frame_allocator::BootstrapFrameAllocator;
use hadron_kernel::boot::memory_map::{BootstrapMemoryMap, MemoryMapEntry, MemoryRegionType};
use hadron_kernel::boot::page_table::BootstrapPageTable;
use hadron_kernel::mm::allocator::bump::BumpAllocator;
use hadron_kernel::mm::page_table::PageTableFlags;
use hadron_kernel::mm::paging::{PhysFrame, Size2MiB};

fn allocator(frames: u64) -> BootstrapFrameAllocator {
    let entries = [MemoryMapEntry::new(PhysAddr::new(0x10_0000), (frames * 0x1000) as usize, MemoryRegionType::Usable)];
    BootstrapFrameAllocator::new(BootstrapMemoryMap::new(&entries, BumpAllocator::empty()))
}

fn rw() -> PageTableFlags {
    PageTableFlags::present().union(PageTableFlags::writable())
}

#[test]
fn new_table_takes_one_frame() {
    let mut fa = allocator(8);
    let table = BootstrapPageTable::new(0xFFFF_8000_0000_0000, &mut fa);
    assert_eq!(fa.memory_map().total_size(), 7 * 0x1000);
    assert!(table.lookup(VirtAddr::new(0x1000)).is_none());
    assert_eq!(table.as_phys_addr(), PhysAddr::new(0x10_0000));
}

#[test]
fn map_then_lookup() {
    let mut fa = allocator(16);
    let mut table = BootstrapPageTable::new(0, &mut fa);
    let frame = PhysFrame::from_start_address(PhysAddr::new(0x4000_0000));
    let addr = VirtAddr::new(0xFFFF_FFFF_8000_3000);
    table.map(addr, frame, rw(), &mut fa);
    // the level-4 table, and one table of each lower level
    assert_eq!(fa.memory_map().total_size(), 12 * 0x1000);
    let entry = table.lookup(addr).unwrap();
    assert_eq!(entry.addr(), PhysAddr::new(0x4000_0000));
    assert_eq!(entry.flags(), rw());
    // the neighbouring page shares the level-1 table but is not mapped
    let next = table.lookup(VirtAddr::new(0xFFFF_FFFF_8000_4000)).unwrap();
    assert!(!next.is_present());
    // a page in another level-2 slot has no level-1 table
    assert!(table.lookup(VirtAddr::new(0xFFFF_FFFF_8020_0000)).is_none());
}

#[test]
fn second_mapping_reuses_tables_and_keeps_the_first() {
    let mut fa = allocator(16);
    let mut table = BootstrapPageTable::new(0, &mut fa);
    let a = VirtAddr::new(0xFFFF_C000_0000_0000);
    let b = VirtAddr::new(0xFFFF_C000_0000_1000);
    table.map(a, PhysFrame::from_start_address(PhysAddr::new(0x50_0000)), rw(), &mut fa);
    let left = fa.memory_map().total_size();
    table.map(b, PhysFrame::from_start_address(PhysAddr::new(0x60_0000)), PageTableFlags::present(), &mut fa);
    assert_eq!(fa.memory_map().total_size(), left);
    assert_eq!(table.lookup(a).unwrap().addr(), PhysAddr::new(0x50_0000));
    assert_eq!(table.lookup(b).unwrap().addr(), PhysAddr::new(0x60_0000));
    assert_eq!(table.lookup(b).unwrap().flags(), PageTableFlags::present());
}

#[test]
fn remapping_replaces_the_entry() {
    let mut fa = allocator(16);
    let mut table = BootstrapPageTable::new(0, &mut fa);
    let a = VirtAddr::new(0x40_0000);
    table.map(a, PhysFrame::from_start_address(PhysAddr::new(0x1000)), rw(), &mut fa);
    table.map(a, PhysFrame::from_start_address(PhysAddr::new(0x2000)), rw(), &mut fa);
    assert_eq!(table.lookup(a).unwrap().addr(), PhysAddr::new(0x2000));
}

#[test]
fn huge_page_mapping_leaves_small_pages_alone() {
    let mut fa = allocator(16);
    let mut table = BootstrapPageTable::new(0, &mut fa);
    let small = VirtAddr::new(0x4000_0000);
    table.map(small, PhysFrame::from_start_address(PhysAddr::new(0x1000)), rw(), &mut fa);
    let before = fa.memory_map().total_size();
    table.map_2mib(
        VirtAddr::new(0x4020_0000),
        PhysFrame::<Size2MiB>::from_start_address(PhysAddr::new(0x80_0000)),
        rw().union(PageTableFlags::huge_page()),
        &mut fa,
    );
    // the level-3 and level-2 tables exist already
    assert_eq!(fa.memory_map().total_size(), before);
    assert_eq!(table.lookup(small).unwrap().addr(), PhysAddr::new(0x1000));
    assert!(table.lookup(VirtAddr::new(0x4020_0000)).is_none());
}

#[test]
fn map_range_maps_consecutive_pages() {
    let mut fa = allocator(16);
    let mut table = BootstrapPageTable::new(0, &mut fa);
    let virt = VirtAddr::new(0xFFFF_FFFF_8000_0000);
    assert_eq!(table.tables_needed(virt), 3);
    table.map_range(virt, PhysAddr::new(0x20_0000), 4, rw(), &mut fa);
    // three tables for the whole range
    assert_eq!(fa.memory_map().total_size(), 12 * 0x1000);
    for i in 0..4u64 {
        let e = table.lookup(VirtAddr::new(0xFFFF_FFFF_8000_0000 + i * 0x1000)).unwrap();
        assert_eq!(e.addr(), PhysAddr::new(0x20_0000 + i * 0x1000));
        assert_eq!(e.flags(), rw());
    }
    assert!(!table.lookup(VirtAddr::new(0xFFFF_FFFF_8000_4000)).unwrap().is_present());
    assert_eq!(table.tables_needed(VirtAddr::new(0xFFFF_FFFF_8000_5000)), 0);
    assert_eq!(table.tables_needed(VirtAddr::new(0xFFFF_FFFF_8020_0000)), 1);
    assert_eq!(table.tables_needed(VirtAddr::new(0xFFFF_FFFF_4000_0000)), 2);
}

#[test]
fn range_across_a_table_boundary() {
    let mut fa = allocator(16);
    let mut table = BootstrapPageTable::new(0, &mut fa);
    // the last page of one level-1 table and the first of the next
    let virt = VirtAddr::new(0x1F_F000);
    assert!(table.try_map_range(virt, PhysAddr::new(0x8000), 2, rw(), &mut fa));
    assert_eq!(fa.memory_map().total_size(), 11 * 0x1000);
    assert_eq!(table.lookup(VirtAddr::new(0x1F_F000)).unwrap().addr(), PhysAddr::new(0x8000));
    assert_eq!(table.lookup(VirtAddr::new(0x20_0000)).unwrap().addr(), PhysAddr::new(0x9000));
}

#[test]
fn range_stops_when_tables_run_out() {
    let mut fa = allocator(3);
    let mut table = BootstrapPageTable::new(0, &mut fa);
    // two frames are left, the first page needs three tables
    assert!(!table.try_map_range(VirtAddr::new(0x4000_0000), PhysAddr::new(0x1000), 1, rw(), &mut fa));
    assert!(table.lookup(VirtAddr::new(0x4000_0000)).is_none());
    assert_eq!(fa.memory_map().total_size(), 2 * 0x1000);
}

#[test]
fn direct_map_covers_the_tables() {
    let mut fa = allocator(32);
    let mut table = BootstrapPageTable::new(0, &mut fa);
    table.map(VirtAddr::new(0x4000_0000), PhysFrame::from_start_address(PhysAddr::new(0x9000)), rw(), &mut fa);
    // the level-4 table and three more tables sit in the first four frames
    assert!(table.try_direct_map(&mut fa));
    let nx = rw().union(PageTableFlags::no_execute());
    for frame in [0x10_0000u64, 0x10_1000, 0x10_2000, 0x10_3000] {
        let e = table.lookup(VirtAddr::new(0xFFFF_8000_0000_0000 + frame)).unwrap();
        assert_eq!(e.addr(), PhysAddr::new(frame));
        assert_eq!(e.flags(), nx);
    }
    // the first mapping is still there
    assert_eq!(table.lookup(VirtAddr::new(0x4000_0000)).unwrap().addr(), PhysAddr::new(0x9000));
    assert_eq!(table.as_phys_addr(), PhysAddr::new(0x10_0000));
}

#[test]
fn direct_map_stops_without_frames() {
    let mut fa = allocator(5);
    let mut table = BootstrapPageTable::new(0, &mut fa);
    table.map(VirtAddr::new(0x4000_0000), PhysFrame::from_start_address(PhysAddr::new(0x9000)), rw(), &mut fa);
    // one frame is left, the direct map needs three tables
    assert!(!table.try_direct_map(&mut fa));
    assert!(table.lookup(VirtAddr::new(0xFFFF_8000_0010_0000)).is_none());
}

#[test]
fn direct_map_keeps_the_direct_map_of_usable_memory() {
    let mut fa = allocator(32);
    let mut table = BootstrapPageTable::new(0, &mut fa);
    let nx = rw().union(PageTableFlags::no_execute());
    // usable frames already mapped at their direct-map addresses, one of
    // them a frame the page table itself uses
    for frame in [0x10_0000u64, 0x10_5000, 0x11_0000] {
        let virt = VirtAddr::new(0xFFFF_8000_0000_0000 + frame);
        table.map(virt, PhysFrame::from_start_address(PhysAddr::new(frame)), nx, &mut fa);
    }
    assert!(table.try_direct_map(&mut fa));
    for frame in [0x10_0000u64, 0x10_5000, 0x11_0000] {
        let e = table.lookup(VirtAddr::new(0xFFFF_8000_0000_0000 + frame)).unwrap();
        assert_eq!(e.addr(), PhysAddr::new(frame));
        assert_eq!(e.flags(), nx);
    }
}
