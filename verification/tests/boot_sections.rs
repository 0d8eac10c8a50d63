use hadron_kernel::arch::{PhysAddr, VirtAddr};
use hadron_kernel::boot::frame_allocator::BootstrapFrameAllocator;
use hadron_kernel::boot::limine::{BootLayout, LimineMemoryEntry, LimineMemoryType};
use hadron_kernel::boot::memory_map::{BootstrapMemoryMap, MemoryMapEntry, MemoryRegionType};
use hadron_kernel::boot::page_table::BootstrapPageTable;
use hadron_kernel::boot::sections::{
    fresh_sections, handover_sections, image_sections, section_fits_check, BootAddresses, BootSection,
    DATA_FLAGS, FRAMEBUFFER_FLAGS, KERNEL_DATA_FLAGS, KERNEL_TEXT_FLAGS,
};
use hadron_kernel::mm::allocator::bump::BumpAllocator;
use hadron_kernel::mm::page_table::PageTableFlags;

fn allocator(frames: u64) -> BootstrapFrameAllocator {
    let entries = [MemoryMapEntry::new(PhysAddr::new(0x10_0000), (frames * 0x1000) as usize, MemoryRegionType::Usable)];
    BootstrapFrameAllocator::new(BootstrapMemoryMap::new(&entries, BumpAllocator::empty()))
}

fn rw() -> PageTableFlags {
    PageTableFlags::present().union(PageTableFlags::writable())
}

fn sec(virt: u64, phys: u64, count: u64, flags: PageTableFlags) -> BootSection {
    BootSection { virt, phys, count, flags }
}

fn view(s: &BootSection) -> (u64, u64, u64, u64) {
    (s.virt, s.phys, s.count, s.flags.bits())
}

fn layout() -> BootLayout {
    BootLayout {
        kernel_text: 0x3000,
        kernel_data: 0x2000,
        stack_size: 0x1_0000,
        heap_size: 0x8_0000,
        memory_map_size: 0x1800,
        framebuffer_size: 0x1_0001,
    }
}

fn addrs() -> BootAddresses {
    BootAddresses {
        kernel_virt: 0xFFFF_FFFF_8000_0000,
        kernel_phys: 0x20_0000,
        hhdm_offset: 0xFFFF_8000_0000_0000,
        framebuffer: 0xFFFF_8000_FD00_0000,
        memory_map: 0xFFFF_8000_0009_0000,
    }
}

#[test]
fn section_fit_checks() {
    assert!(section_fits_check(&sec(0x40_0000, 0x1000, 4, rw())));
    assert!(section_fits_check(&sec(0x40_0000, 0x1000, 0, rw())));
    // frames not on a page boundary
    assert!(!section_fits_check(&sec(0x40_0000, 0x1001, 4, rw())));
    // the virtual run wraps around the address space
    assert!(!section_fits_check(&sec(0xFFFF_FFFF_FFFF_E000, 0x1000, 3, rw())));
    // the physical run wraps around
    assert!(!section_fits_check(&sec(0x40_0000, 0xFFFF_FFFF_FFFF_F000, 2, rw())));
    // a page lands in the recursive slot
    assert!(!section_fits_check(&sec(0xFF00_0000_0000, 0x1000, 1, rw())));
    assert!(!section_fits_check(&sec(0xFEFF_FFFF_F000, 0x1000, 2, rw())));
}

#[test]
fn sections_map_in_order_and_later_ones_win() {
    let mut fa = allocator(32);
    let mut table = BootstrapPageTable::new(0, &mut fa);
    let sections = [sec(0x40_0000, 0x10_0000, 3, rw()), sec(0x40_1000, 0x90_0000, 1, PageTableFlags::present())];
    assert!(table.map_sections(&sections, &mut fa));
    let e0 = table.lookup(VirtAddr::new(0x40_0000)).unwrap();
    assert_eq!((e0.addr(), e0.flags()), (PhysAddr::new(0x10_0000), rw()));
    let e1 = table.lookup(VirtAddr::new(0x40_1000)).unwrap();
    assert_eq!((e1.addr(), e1.flags()), (PhysAddr::new(0x90_0000), PageTableFlags::present()));
    let e2 = table.lookup(VirtAddr::new(0x40_2000)).unwrap();
    assert_eq!(e2.addr(), PhysAddr::new(0x10_2000));
    assert!(!table.lookup(VirtAddr::new(0x40_3000)).unwrap().is_present());
}

#[test]
fn sections_fail_when_tables_run_out() {
    // one frame for the level-4 table, two more: not enough for a first mapping
    let mut fa = allocator(3);
    let mut table = BootstrapPageTable::new(0, &mut fa);
    assert!(!table.map_sections(&[sec(0x40_0000, 0x10_0000, 1, rw())], &mut fa));
}

#[test]
fn fresh_pages_get_their_own_frames() {
    let mut fa = allocator(32);
    let mut table = BootstrapPageTable::new(0, &mut fa);
    let frames = table.map_fresh(VirtAddr::new(0x80_0000), 3, rw(), &mut fa);
    assert_eq!(frames.len(), 3);
    for (k, f) in frames.iter().enumerate() {
        let e = table.lookup(VirtAddr::new(0x80_0000 + k as u64 * 0x1000)).unwrap();
        assert_eq!(e.addr(), f.start_address());
        assert_eq!(e.flags(), rw());
    }
    assert_ne!(frames[0].start_address(), frames[1].start_address());
    assert_ne!(frames[1].start_address(), frames[2].start_address());
}

#[test]
fn fresh_pages_stop_when_memory_runs_out() {
    // the level-4 table and one frame, then too few frames for the tables
    let mut fa = allocator(4);
    let mut table = BootstrapPageTable::new(0, &mut fa);
    assert_eq!(table.map_fresh(VirtAddr::new(0x80_0000), 3, rw(), &mut fa).len(), 0);
    // the level-4 table, a frame, three tables and one more frame
    let mut fa = allocator(6);
    let mut table = BootstrapPageTable::new(0, &mut fa);
    assert_eq!(table.map_fresh(VirtAddr::new(0x80_0000), 3, rw(), &mut fa).len(), 2);
}

#[test]
fn image_sections_follow_the_kernel() {
    let s = image_sections(&layout(), &addrs());
    assert_eq!(s.len(), 2);
    assert_eq!(view(&s[0]), (0xFFFF_FFFF_8000_0000, 0x20_0000, 3, KERNEL_TEXT_FLAGS));
    assert_eq!(view(&s[1]), (0xFFFF_FFFF_8000_3000, 0x20_3000, 2, KERNEL_DATA_FLAGS));
    assert_eq!(KERNEL_DATA_FLAGS, DATA_FLAGS);
    assert_eq!(KERNEL_TEXT_FLAGS, PageTableFlags::present().bits());
}

#[test]
fn fresh_sections_are_stack_and_heap() {
    let s = fresh_sections(&layout());
    assert_eq!(view(&s[0]), (0xFFFF_C020_7FFF_0000, 0, 16, DATA_FLAGS));
    assert_eq!(view(&s[1]), (0xFFFF_C000_0000_0000, 0, 128, DATA_FLAGS));
    assert_eq!(
        DATA_FLAGS,
        PageTableFlags::present().union(PageTableFlags::writable()).union(PageTableFlags::no_execute()).bits()
    );
}

#[test]
fn handover_sections_cover_framebuffer_memory_map_and_usable_memory() {
    let entries = [
        LimineMemoryEntry { base: 0x1000, length: 0x9_F000, ty: LimineMemoryType::Usable },
        LimineMemoryEntry { base: 0xA_0000, length: 0x6_0000, ty: LimineMemoryType::Reserved },
        LimineMemoryEntry { base: 0x10_0000, length: 0x20_0800, ty: LimineMemoryType::Usable },
    ];
    let s = handover_sections(&layout(), &addrs(), &entries);
    assert_eq!(s.len(), 4);
    assert_eq!(view(&s[0]), (0xFFFF_D000_0000_0000, 0xFD00_0000, 17, FRAMEBUFFER_FLAGS));
    assert_eq!(view(&s[1]), (0xFFFF_8000_0009_0000, 0x9_0000, 2, DATA_FLAGS));
    assert_eq!(view(&s[2]), (0xFFFF_8000_0000_1000, 0x1000, 0x9F, DATA_FLAGS));
    assert_eq!(view(&s[3]), (0xFFFF_8000_0010_0000, 0x10_0000, 0x200, DATA_FLAGS));
    assert_eq!(FRAMEBUFFER_FLAGS, DATA_FLAGS | PageTableFlags::no_cache().bits());
}
