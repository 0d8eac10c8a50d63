use hadron_kernel::arch::{PhysAddr, VirtAddr};
use hadron_kernel::mm::page_table::{
    present_entries, PageTable, PageTableEntry, PageTableFlags, FLAGS_MASK, PHYS_ADDR_MASK,
};
use hadron_kernel::mm::paging::{Page, PageSize, PhysFrame, Size1GiB, Size2MiB, Size4KiB};

#[test]
fn page_from_start_addr() {
    let aligned = Page::<Size4KiB>::try_from_start_address(VirtAddr::new(0x0000));
    assert!(aligned.is_ok());
    let unaligned = Page::<Size4KiB>::try_from_start_address(VirtAddr::new(0x1001));
    assert!(unaligned.is_err());
}

#[test]
fn page_containing() {
    let page1 = Page::<Size4KiB>::containing_address(VirtAddr::new(0x0000));
    assert_eq!(page1.start_address(), VirtAddr::new(0x0000));

    let page2 = Page::<Size4KiB>::containing_address(VirtAddr::new(0x1001));
    assert_eq!(page2.start_address(), VirtAddr::new(0x1000));

    let page3 = Page::<Size4KiB>::containing_address(VirtAddr::new(0x1FFF));
    assert_eq!(page3.start_address(), VirtAddr::new(0x1000));

    let page4 = Page::<Size4KiB>::containing_address(VirtAddr::new(0x3000));
    assert_eq!(page4.start_address(), VirtAddr::new(0x3000));
}

#[test]
fn page_sizes() {
    assert_eq!(Size4KiB::size(), 4096);
    assert_eq!(Size2MiB::size(), 2 * 1024 * 1024);
    assert_eq!(Size1GiB::size(), 1024 * 1024 * 1024);
    let page = Page::<Size2MiB>::containing_address(VirtAddr::new(0x0030_0001));
    assert_eq!(page.start_address(), VirtAddr::new(0x0020_0000));
    assert_eq!(page.size(), 0x20_0000);
    assert!(Page::<Size2MiB>::try_from_start_address(VirtAddr::new(0x1000)).is_err());
    assert!(Page::<Size1GiB>::try_from_start_address(VirtAddr::new(0x4000_0000)).is_ok());
}

#[test]
fn frame_start_address() {
    let frame = PhysFrame::<Size4KiB>::from_start_address(PhysAddr::new(0x5000));
    assert_eq!(frame.start_address(), PhysAddr::new(0x5000));
}

#[test]
fn entry_read_after_write() {
    let mut entry = PageTableEntry::new();
    assert!(!entry.is_present());
    let flags = PageTableFlags::present().union(PageTableFlags::writable()).union(PageTableFlags::no_execute());
    entry.set_frame(PhysFrame::from_start_address(PhysAddr::new(0x1234_5000)), flags);
    assert!(entry.is_present());
    assert_eq!(entry.addr(), PhysAddr::new(0x1234_5000));
    assert_eq!(entry.flags(), flags);
    assert_eq!(entry.flags().bits(), 0x8000_0000_0000_0003);
}

#[test]
fn entry_set_addr_and_flags() {
    let mut entry = PageTableEntry::new();
    entry.set_addr(PhysAddr::new(0x7000), PageTableFlags::present());
    assert_eq!(entry.addr(), PhysAddr::new(0x7000));
    entry.set_flags(PageTableFlags::writable().union(PageTableFlags::huge_page()));
    assert_eq!(entry.addr(), PhysAddr::new(0x7000));
    assert!(!entry.is_present());
    assert!(entry.flags().contains(PageTableFlags::huge_page()));
    assert!(!entry.flags().contains(PageTableFlags::no_cache()));
}

#[test]
fn flags_truncate_and_masks() {
    assert_eq!(PHYS_ADDR_MASK & FLAGS_MASK, 0);
    assert_eq!(PHYS_ADDR_MASK | FLAGS_MASK, u64::MAX);
    assert_eq!(PageTableFlags::from_bits_truncate(0xFFFF_FFFF_FFFF_FFFF), PageTableFlags::all());
    assert_eq!(PageTableFlags::from_bits_truncate(0x1000).bits(), 0);
    assert_eq!(PageTableFlags::empty().bits(), 0);
    assert_eq!(PageTableFlags::user().bits(), 4);
    assert_eq!(PageTableFlags::write_through().bits(), 8);
    assert_eq!(PageTableFlags::accessed().bits(), 0x20);
    assert_eq!(PageTableFlags::dirty().bits(), 0x40);
    assert_eq!(PageTableFlags::global().bits(), 0x100);
}

#[test]
fn page_table_starts_empty() {
    let mut table = PageTable::new();
    for i in 0..512 {
        assert!(!table.index(i).is_present());
    }
    let mut entry = PageTableEntry::new();
    entry.set_addr(PhysAddr::new(0x2000), PageTableFlags::present());
    table.set(3, entry);
    assert_eq!(table.index(3), entry);
    assert!(!table.index(4).is_present());
}

#[test]
fn virt_addr_indices() {
    let addr = VirtAddr::new(0xFFFF_8000_0020_3000);
    assert_eq!(addr.p4_index(), 256);
    assert_eq!(addr.p3_index(), 0);
    assert_eq!(addr.p2_index(), 1);
    assert_eq!(addr.p1_index(), 3);
}

#[test]
fn addr_alignment() {
    let addr = PhysAddr::new(0x20_1234);
    assert_eq!(addr.align_down(0x1000), PhysAddr::new(0x20_1000));
    assert_eq!(addr.align_up(0x1000), PhysAddr::new(0x20_2000));
    assert_eq!(addr.align_up(0x20_0000), PhysAddr::new(0x40_0000));
    assert_eq!(PhysAddr::new(0x40_0000).align_up(0x20_0000), PhysAddr::new(0x40_0000));
    assert!(addr.is_aligned(4));
    assert!(!addr.is_aligned(8));
    assert_eq!(addr.offset(0x10), PhysAddr::new(0x20_1244));
    assert_eq!(PhysAddr::new(0x3000).distance_from(PhysAddr::new(0x1000)), 0x2000);
    assert_eq!(PhysAddr::null().as_u64(), 0);
    assert_eq!(VirtAddr::null().as_usize(), 0);
}

#[test]
fn entry_fields_never_leak_into_each_other() {
    let all = PageTableFlags::all();
    assert_eq!(all.bits() & PHYS_ADDR_MASK, 0);
    let mut entry = PageTableEntry::from_raw(u64::MAX);
    entry.set_frame(PhysFrame::<Size4KiB>::from_start_address(PhysAddr::new(0x000F_FFFF_FFFF_F000)), all);
    assert_eq!(entry.addr(), PhysAddr::new(0x000F_FFFF_FFFF_F000));
    assert_eq!(entry.flags(), all);
    entry.set_flags(PageTableFlags::empty());
    assert_eq!(entry.addr(), PhysAddr::new(0x000F_FFFF_FFFF_F000));
    assert_eq!(entry.flags().bits(), 0);
    assert!(!entry.is_present());
}

#[test]
fn present_entries_and_where_a_walk_descends() {
    let mut t = PageTable::new();
    t.set(0, PageTableEntry::from_raw(0x81));
    t.set(5, PageTableEntry::from_raw(0x1003));
    t.set(7, PageTableEntry::from_raw(0x2002));
    let walk = |level: u8| -> Vec<(usize, bool)> {
        present_entries(&t, level).iter().map(|(i, _, d)| (*i, *d)).collect()
    };
    // the level-4 table has no huge pages: every present entry leads on
    assert_eq!(walk(4), vec![(0, true), (5, true)]);
    assert_eq!(walk(3), vec![(0, false), (5, true)]);
    assert_eq!(walk(2), vec![(0, false), (5, true)]);
    assert_eq!(walk(1), vec![(0, false), (5, false)]);
}
