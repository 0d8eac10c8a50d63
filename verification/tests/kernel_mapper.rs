use std::collections::HashMap;

use hadron_kernel::arch::{PhysAddr, VirtAddr};
use hadron_kernel::mm::page_table::{KernelPageTable, MapAction, MapEvent, MapState, PageTableEntry, PageTableFlags};
use hadron_kernel::mm::paging::{Page, PhysFrame, Size2MiB};

const DIRECT: u64 = 0xFFFF_8000_0000_0000;

fn rw() -> PageTableFlags {
    PageTableFlags::present().union(PageTableFlags::writable())
}

/// Runs a mapping against tables kept in `mem`, keyed by their virtual
/// address, taking new table frames from `free`; returns the last action and
/// the number of steps taken.
fn run(pml4: u64, mem: &mut HashMap<u64, Vec<u64>>, free: &mut Vec<u64>, page: u64, frame: u64) -> (MapAction, usize) {
    let table = KernelPageTable::new(PhysAddr::new(pml4));
    let (mut m, mut action) = table.start_mapping(
        Page::from_start_address(VirtAddr::new(page)),
        PhysFrame::from_start_address(PhysAddr::new(frame)),
        rw(),
    );
    let mut steps = 0;
    loop {
        let event = match action {
            MapAction::ReadEntry { table, index } => {
                MapEvent::Entry(PageTableEntry::from_raw(mem[&table.as_u64()][index]))
            }
            MapAction::AllocateFrame => MapEvent::Frame(free.pop().map(|f| PhysFrame::from_start_address(PhysAddr::new(f)))),
            MapAction::Link { table, index, entry, new_table, map_new_table } => {
                // only a new level-3 table, linked from the level-4 table, is
                // mapped into the direct map as well
                assert_eq!(map_new_table, table.as_u64() == DIRECT + pml4);
                mem.get_mut(&table.as_u64()).unwrap()[index] = entry.raw();
                mem.insert(new_table.as_u64(), vec![0; 512]);
                MapEvent::Linked
            }
            MapAction::WriteLeaf { table, index, entry } => {
                mem.get_mut(&table.as_u64()).unwrap()[index] = entry.raw();
                return (action, steps);
            }
            other => return (other, steps),
        };
        let (next, a) = m.step(event);
        m = next;
        action = a;
        steps += 1;
    }
}

#[test]
fn missing_tables_are_created_and_linked() {
    let mut mem = HashMap::new();
    mem.insert(DIRECT + 0x1000, vec![0u64; 512]);
    let mut free = vec![0x4000, 0x3000, 0x2000];
    let page = 0xFFFF_C000_0020_3000u64;
    let (last, _) = run(0x1000, &mut mem, &mut free, page, 0x80_0000);
    assert!(matches!(last, MapAction::WriteLeaf { .. }));
    assert!(free.is_empty());
    let link = 0x8000_0000_0000_0003u64;
    // level 4 index 384, level 3 index 0, level 2 index 1, level 1 index 3
    assert_eq!(mem[&(DIRECT + 0x1000)][384], 0x2000 | link);
    assert_eq!(mem[&(DIRECT + 0x2000)][0], 0x3000 | link);
    assert_eq!(mem[&(DIRECT + 0x3000)][1], 0x4000 | link);
    assert_eq!(mem[&(DIRECT + 0x4000)][3], 0x80_0000 | 0x3);
}

#[test]
fn present_tables_are_followed() {
    let mut mem = HashMap::new();
    mem.insert(DIRECT + 0x1000, vec![0u64; 512]);
    let mut free = vec![0x4000, 0x3000, 0x2000];
    let page = 0xFFFF_C000_0020_3000u64;
    run(0x1000, &mut mem, &mut free, page, 0x80_0000);
    // the neighbouring page reuses all three tables
    let (last, steps) = run(0x1000, &mut mem, &mut free, page + 0x1000, 0x90_0000);
    assert_eq!(
        last,
        MapAction::WriteLeaf {
            table: VirtAddr::new(DIRECT + 0x4000),
            index: 4,
            entry: PageTableEntry::from_raw(0x90_0000 | 0x3)
        }
    );
    assert_eq!(steps, 3);
    assert_eq!(mem[&(DIRECT + 0x4000)][4], 0x90_0000 | 0x3);
    assert_eq!(mem[&(DIRECT + 0x4000)][3], 0x80_0000 | 0x3);
}

#[test]
fn running_out_of_frames_gives_up() {
    let mut mem = HashMap::new();
    mem.insert(DIRECT + 0x1000, vec![0u64; 512]);
    let mut free = vec![0x2000];
    let (last, _) = run(0x1000, &mut mem, &mut free, 0x40_0000, 0x80_0000);
    assert_eq!(last, MapAction::OutOfFrames);
}

#[test]
fn unexpected_event_is_invalid() {
    let table = KernelPageTable::new(PhysAddr::new(0x1000));
    let (m, _) = table.start_mapping(
        Page::from_start_address(VirtAddr::new(0x40_0000)),
        PhysFrame::from_start_address(PhysAddr::new(0x80_0000)),
        rw(),
    );
    let (m, action) = m.step(MapEvent::Linked);
    assert_eq!(action, MapAction::Invalid);
    assert_eq!(m.state, MapState::Failed);
}

#[test]
fn huge_page_is_mapped_in_a_level_2_table() {
    let table = KernelPageTable::new(PhysAddr::new(0x1000));
    let mut mem: HashMap<u64, Vec<u64>> = HashMap::new();
    mem.insert(DIRECT + 0x1000, vec![0u64; 512]);
    let mut free = vec![0x3000u64, 0x2000];
    let (mut m, mut action) = table.start_mapping_2mib(
        Page::<Size2MiB>::from_start_address(VirtAddr::new(0xE000_0000)),
        PhysFrame::<Size2MiB>::from_start_address(PhysAddr::new(0xE000_0000)),
        rw(),
    );
    loop {
        let event = match action {
            MapAction::ReadEntry { table, index } => MapEvent::Entry(PageTableEntry::from_raw(mem[&table.as_u64()][index])),
            MapAction::AllocateFrame => MapEvent::Frame(free.pop().map(|f| PhysFrame::from_start_address(PhysAddr::new(f)))),
            MapAction::Link { table, index, entry, new_table, .. } => {
                mem.get_mut(&table.as_u64()).unwrap()[index] = entry.raw();
                mem.insert(new_table.as_u64(), vec![0; 512]);
                MapEvent::Linked
            }
            MapAction::WriteLeaf { table, index, entry } => {
                // level 4 index 0, level 3 index 3, level 2 index 256
                assert_eq!(table, VirtAddr::new(DIRECT + 0x3000));
                assert_eq!(index, 256);
                assert_eq!(entry.raw(), 0xE000_0000 | 0x80 | 0x3);
                break;
            }
            other => panic!("unexpected action {:?}", other),
        };
        let (next, a) = m.step(event);
        m = next;
        action = a;
    }
    assert!(free.is_empty());
}
