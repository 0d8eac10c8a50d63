//! Page table entries, page tables, and the kernel page table handle.
use crate::arch::{spec_p1, spec_p2, spec_p3, spec_p4, PhysAddr, VirtAddr};
use crate::mm::mappings;
use crate::mm::paging::{Page, PhysFrame, Size2MiB, Size4KiB};
use vstd::prelude::*;

verus! {

/// The bits of an entry that hold the physical address (bits 12..52).
pub const PHYS_ADDR_MASK: u64 = 0x000f_ffff_ffff_f000;

/// The bits of an entry that are flags: every bit outside the address.
pub const FLAGS_MASK: u64 = 0xfff0_0000_0000_0fff;

/// The flags of a page table entry.
#[derive(Debug, Clone, Copy, PartialEq, Eq, Structural)]
pub struct PageTableFlags {
    bits: u64,
}

impl View for PageTableFlags {
    type V = u64;

    closed spec fn view(&self) -> u64 {
        self.bits
    }
}

/// The single-bit flags and the flag mask hold no address bit.
proof fn lemma_flag_constants()
    ensures
        FLAGS_MASK & PHYS_ADDR_MASK == 0,
        forall|b: u64| #![trigger b & FLAGS_MASK] (b & FLAGS_MASK) & PHYS_ADDR_MASK == 0,
        forall|a: u64, b: u64|
            #![trigger a | b]
            a & PHYS_ADDR_MASK == 0 && b & PHYS_ADDR_MASK == 0 ==> (a | b) & PHYS_ADDR_MASK == 0,
        (1u64 << 0u64) & PHYS_ADDR_MASK == 0,
        (1u64 << 1u64) & PHYS_ADDR_MASK == 0,
        (1u64 << 2u64) & PHYS_ADDR_MASK == 0,
        (1u64 << 3u64) & PHYS_ADDR_MASK == 0,
        (1u64 << 4u64) & PHYS_ADDR_MASK == 0,
        (1u64 << 5u64) & PHYS_ADDR_MASK == 0,
        (1u64 << 6u64) & PHYS_ADDR_MASK == 0,
        (1u64 << 7u64) & PHYS_ADDR_MASK == 0,
        (1u64 << 8u64) & PHYS_ADDR_MASK == 0,
        (1u64 << 63u64) & PHYS_ADDR_MASK == 0,
{
    assert(0xfff0_0000_0000_0fffu64 & 0x000f_ffff_ffff_f000u64 == 0 && (forall|b: u64| #![trigger b & 0xfff0_0000_0000_0fffu64] (b & 0xfff0_0000_0000_0fffu64) & 0x000f_ffff_ffff_f000u64 == 0) && (forall|a: u64, b: u64| #![trigger a | b] a & 0x000f_ffff_ffff_f000u64 == 0 && b & 0x000f_ffff_ffff_f000u64 == 0 ==> (a | b) & 0x000f_ffff_ffff_f000u64 == 0) && (1u64 << 0u64) & 0x000f_ffff_ffff_f000u64 == 0 && (1u64 << 1u64) & 0x000f_ffff_ffff_f000u64 == 0 && (1u64 << 2u64) & 0x000f_ffff_ffff_f000u64 == 0 && (1u64 << 3u64) & 0x000f_ffff_ffff_f000u64 == 0 && (1u64 << 4u64) & 0x000f_ffff_ffff_f000u64 == 0 && (1u64 << 5u64) & 0x000f_ffff_ffff_f000u64 == 0 && (1u64 << 6u64) & 0x000f_ffff_ffff_f000u64 == 0 && (1u64 << 7u64) & 0x000f_ffff_ffff_f000u64 == 0 && (1u64 << 8u64) & 0x000f_ffff_ffff_f000u64 == 0 && (1u64 << 63u64) & 0x000f_ffff_ffff_f000u64 == 0) by (bit_vector);
}

impl PageTableFlags {
    /// Flags never hold any of the address bits of an entry.
    #[verifier::type_invariant]
    spec fn no_address_bits(self) -> bool {
        self.bits & PHYS_ADDR_MASK == 0
    }

    pub fn empty() -> (r: Self)
        ensures
            r@ == 0,
    {
        proof {
            assert(0u64 & 0x000f_ffff_ffff_f000u64 == 0) by (bit_vector);
        }
        Self { bits: 0 }
    }

    /// Every flag bit set.
    pub fn all() -> (r: Self)
        ensures
            r@ == FLAGS_MASK,
    {
        proof {
            lemma_flag_constants();
        }
        Self { bits: FLAGS_MASK }
    }

    pub fn bits(&self) -> (r: u64)
        ensures
            r == self@,
            r & PHYS_ADDR_MASK == 0,
    {
        proof {
            use_type_invariant(self);
        }
        self.bits
    }

    /// Keeps the bits that are flags and drops all others.
    pub fn from_bits_truncate(bits: u64) -> (r: Self)
        ensures
            r@ == bits & FLAGS_MASK,
    {
        proof {
            lemma_flag_constants();
        }
        Self { bits: bits & FLAGS_MASK }
    }

    /// Whether every flag of `other` is set in `self`.
    pub fn contains(&self, other: Self) -> (r: bool)
        ensures
            r == (self@ & other@ == other@),
    {
        self.bits & other.bits == other.bits
    }

    /// The flags set in `self` or in `other`.
    pub fn union(self, other: Self) -> (r: Self)
        ensures
            r@ == self@ | other@,
    {
        proof {
            use_type_invariant(&self);
            use_type_invariant(&other);
            lemma_flag_constants();
        }
        Self { bits: self.bits | other.bits }
    }

    pub fn present() -> (r: Self)
        ensures
            r@ == 1u64 << 0u64,
    {
        proof {
            lemma_flag_constants();
        }
        Self { bits: 1u64 << 0u64 }
    }

    pub fn writable() -> (r: Self)
        ensures
            r@ == 1u64 << 1u64,
    {
        proof {
            lemma_flag_constants();
        }
        Self { bits: 1u64 << 1u64 }
    }

    pub fn user() -> (r: Self)
        ensures
            r@ == 1u64 << 2u64,
    {
        proof {
            lemma_flag_constants();
        }
        Self { bits: 1u64 << 2u64 }
    }

    pub fn write_through() -> (r: Self)
        ensures
            r@ == 1u64 << 3u64,
    {
        proof {
            lemma_flag_constants();
        }
        Self { bits: 1u64 << 3u64 }
    }

    pub fn no_cache() -> (r: Self)
        ensures
            r@ == 1u64 << 4u64,
    {
        proof {
            lemma_flag_constants();
        }
        Self { bits: 1u64 << 4u64 }
    }

    pub fn accessed() -> (r: Self)
        ensures
            r@ == 1u64 << 5u64,
    {
        proof {
            lemma_flag_constants();
        }
        Self { bits: 1u64 << 5u64 }
    }

    pub fn dirty() -> (r: Self)
        ensures
            r@ == 1u64 << 6u64,
    {
        proof {
            lemma_flag_constants();
        }
        Self { bits: 1u64 << 6u64 }
    }

    pub fn huge_page() -> (r: Self)
        ensures
            r@ == 1u64 << 7u64,
    {
        proof {
            lemma_flag_constants();
        }
        Self { bits: 1u64 << 7u64 }
    }

    pub fn global() -> (r: Self)
        ensures
            r@ == 1u64 << 8u64,
    {
        proof {
            lemma_flag_constants();
        }
        Self { bits: 1u64 << 8u64 }
    }

    pub fn no_execute() -> (r: Self)
        ensures
            r@ == 1u64 << 63u64,
    {
        proof {
            lemma_flag_constants();
        }
        Self { bits: 1u64 << 63u64 }
    }
}

/// A 64-bit page table entry: a physical address and flags.
#[derive(Debug, Clone, Copy, PartialEq, Eq, Structural)]
pub struct PageTableEntry {
    entry: u64,
}

impl View for PageTableEntry {
    type V = u64;

    closed spec fn view(&self) -> u64 {
        self.entry
    }
}

/// The entry that holds `addr` and `flags`.
pub open spec fn spec_entry(addr: u64, flags: u64) -> u64 {
    addr | flags
}

impl PageTableEntry {
    /// An empty, not present entry.
    pub fn new() -> (r: Self)
        ensures
            r@ == 0,
    {
        Self { entry: 0 }
    }

    /// The entry whose bits are `entry`, as it is stored in a table in memory.
    pub fn from_raw(entry: u64) -> (r: Self)
        ensures
            r@ == entry,
    {
        Self { entry }
    }

    /// The bits of the entry, as it is stored in a table in memory.
    pub fn raw(&self) -> (r: u64)
        ensures
            r == self@,
    {
        self.entry
    }

    /// The physical address held by the entry.
    pub fn addr(&self) -> (r: PhysAddr)
        ensures
            r@ == self@ & PHYS_ADDR_MASK,
    {
        PhysAddr::new(self.entry & PHYS_ADDR_MASK)
    }

    /// Stores `addr` and `flags`; `addr` must be 4KiB aligned. When it lies
    /// below the 52-bit physical limit, the address and flags read back are
    /// exactly `addr` and `flags`.
    pub fn set_addr(&mut self, addr: PhysAddr, flags: PageTableFlags)
        requires
            addr@ % 4096 == 0,
        ensures
            final(self)@ == spec_entry(addr@ as u64, flags@),
            addr@ < 0x0010_0000_0000_0000 ==> final(self)@ & PHYS_ADDR_MASK == addr@ && final(self)@ & FLAGS_MASK
                == flags@,
    {
        let b = flags.bits();
        proof {
            if addr@ < 0x0010_0000_0000_0000 {
                lemma_entry_read_after_write(addr@ as u64, b);
            }
        }
        self.entry = addr.as_u64() | b;
    }

    /// The flags held by the entry.
    pub fn flags(&self) -> (r: PageTableFlags)
        ensures
            r@ == self@ & FLAGS_MASK,
    {
        proof {
            let e = self.entry;
            assert(e & !PHYS_ADDR_MASK & FLAGS_MASK == e & FLAGS_MASK) by (bit_vector);
        }
        PageTableFlags::from_bits_truncate(self.entry & !PHYS_ADDR_MASK)
    }

    /// Replaces the flags, keeping the address: the address read back is the
    /// old one, and the flags read back are exactly `flags`.
    pub fn set_flags(&mut self, flags: PageTableFlags)
        ensures
            final(self)@ == spec_entry(old(self)@ & PHYS_ADDR_MASK, flags@),
            final(self)@ & PHYS_ADDR_MASK == old(self)@ & PHYS_ADDR_MASK,
            final(self)@ & FLAGS_MASK == flags@,
    {
        let a = self.addr().as_u64();
        let b = flags.bits();
        proof {
            let e = old(self)@;
            assert(((e & 0x000f_ffff_ffff_f000u64) | b) & 0x000f_ffff_ffff_f000u64 == e & 0x000f_ffff_ffff_f000u64
                && ((e & 0x000f_ffff_ffff_f000u64) | b) & 0xfff0_0000_0000_0fffu64 == b) by (bit_vector)
                requires
                    b & 0x000f_ffff_ffff_f000u64 == 0;
        }
        self.entry = a | b;
    }

    /// Stores the start address of `frame` and `flags`; when the frame lies
    /// below the 52-bit physical limit, the address and flags read back are
    /// exactly those, so nothing of the previous entry survives.
    pub fn set_frame(&mut self, frame: PhysFrame<Size4KiB>, flags: PageTableFlags)
        ensures
            final(self)@ == spec_entry(frame.spec_start() as u64, flags@),
            frame.spec_start() < 0x0010_0000_0000_0000 ==> final(self)@ & PHYS_ADDR_MASK
                == frame.spec_start() && final(self)@ & FLAGS_MASK == flags@,
    {
        let b = flags.bits();
        let addr = frame.start_address();
        proof {
            if frame.spec_start() < 0x0010_0000_0000_0000 {
                lemma_entry_read_after_write(frame.spec_start() as u64, b);
            }
        }
        self.entry = addr.as_u64() | b;
    }

    /// Stores `addr` and `flags` as they are.
    fn set_addr_unchecked(&mut self, addr: PhysAddr, flags: PageTableFlags)
        ensures
            final(self)@ == spec_entry(addr@ as u64, flags@),
    {
        self.entry = addr.as_u64() | flags.bits();
    }

    /// Whether the present flag is set.
    pub fn is_present(&self) -> (r: bool)
        ensures
            r == (self@ & 1 == 1),
    {
        let r = self.flags().contains(PageTableFlags::present());
        proof {
            let e = self.entry;
            assert((e & FLAGS_MASK) & (1u64 << 0u64) == (1u64 << 0u64) <==> e & 1 == 1) by (bit_vector);
        }
        r
    }
}

/// Reading an entry back gives the address and flags that were stored, as long
/// as the address fits in the address bits and the flags in the flag bits.
pub proof fn lemma_entry_read_after_write(addr: u64, flags: u64)
    requires
        addr % 4096 == 0,
        addr < 0x0010_0000_0000_0000,
        flags & PHYS_ADDR_MASK == 0,
    ensures
        spec_entry(addr, flags) & PHYS_ADDR_MASK == addr,
        spec_entry(addr, flags) & FLAGS_MASK == flags,
{
    assert((addr | flags) & 0x000f_ffff_ffff_f000u64 == addr && (addr | flags) & 0xfff0_0000_0000_0fffu64 == flags)
        by (bit_vector)
        requires
            addr % 4096 == 0,
            addr < 0x0010_0000_0000_0000u64,
            flags & 0x000f_ffff_ffff_f000u64 == 0;
}

/// A table of 512 entries.
#[derive(Debug)]
pub struct PageTable {
    entries: Vec<PageTableEntry>,
}

impl View for PageTable {
    type V = Seq<PageTableEntry>;

    closed spec fn view(&self) -> Seq<PageTableEntry> {
        self.entries@
    }
}

impl PageTable {
    /// A well-formed table holds exactly 512 entries.
    pub open spec fn wf(&self) -> bool {
        self@.len() == 512
    }

    /// A table of 512 empty entries.
    pub fn new() -> (r: Self)
        ensures
            r.wf(),
            forall|i: int| 0 <= i < 512 ==> (#[trigger] r@[i])@ == 0,
    {
        let mut entries: Vec<PageTableEntry> = Vec::new();
        let mut i: usize = 0;
        while i < 512
            invariant
                i <= 512,
                entries@.len() == i,
                forall|j: int| 0 <= j < i ==> (#[trigger] entries@[j])@ == 0,
            decreases 512 - i,
        {
            entries.push(PageTableEntry::new());
            i = i + 1;
        }
        Self { entries }
    }

    /// The entry at `index`.
    pub fn index(&self, index: usize) -> (r: PageTableEntry)
        requires
            self.wf(),
            index < 512,
        ensures
            r == self@[index as int],
    {
        self.entries[index]
    }

    /// Replaces the entry at `index`.
    pub fn set(&mut self, index: usize, entry: PageTableEntry)
        requires
            old(self).wf(),
            index < 512,
        ensures
            final(self).wf(),
            final(self)@ == old(self)@.update(index as int, entry),
    {
        self.entries.set(index, entry);
    }
}

/// The page table of the kernel, reached through the direct map of physical
/// memory.
pub struct KernelPageTable {
    pml4: VirtAddr,
}

impl KernelPageTable {
    /// The virtual address of the level-4 table.
    pub closed spec fn spec_pml4(&self) -> nat {
        self.pml4@
    }

    /// The virtual address of the table at physical address `frame`, through
    /// the direct map of physical memory.
    pub fn table_addr(frame: PhysAddr) -> (r: VirtAddr)
        requires
            mappings::PAGE_TABLE_START + frame@ <= u64::MAX,
        ensures
            r@ == mappings::PAGE_TABLE_START + frame@,
    {
        VirtAddr::new(mappings::PAGE_TABLE_START + frame.as_u64())
    }

    /// The virtual address of the level-4 table.
    pub fn pml4_addr(&self) -> (r: VirtAddr)
        ensures
            r@ == self.spec_pml4(),
    {
        self.pml4
    }

    /// The flags a table is linked from its parent with: present, writable,
    /// not executable.
    pub fn page_table_flags() -> (r: PageTableFlags)
        ensures
            r@ == 1u64 | 2u64 | 0x8000_0000_0000_0000u64,
    {
        let r = PageTableFlags::present().union(PageTableFlags::writable()).union(PageTableFlags::no_execute());
        proof {
            assert(1u64 << 0u64 | 1u64 << 1u64 | 1u64 << 63u64 == 1u64 | 2u64 | 0x8000_0000_0000_0000u64) by (bit_vector);
        }
        r
    }

    /// The handle for the level-4 table at physical address `pml4`.
    pub fn new(pml4: PhysAddr) -> (r: Self)
        requires
            mappings::PAGE_TABLE_START + pml4@ <= u64::MAX,
        ensures
            r.spec_pml4() == mappings::PAGE_TABLE_START + pml4@,
    {
        Self { pml4: VirtAddr::new(mappings::PAGE_TABLE_START + pml4.as_u64()) }
    }
}

/// The entry whose bits are `bits`.
pub closed spec fn entry_with(bits: u64) -> PageTableEntry {
    PageTableEntry { entry: bits }
}

/// The flags a table is linked from its parent with: present, writable, not
/// executable.
pub open spec fn table_link_flags() -> u64 {
    1u64 | 2u64 | 0x8000_0000_0000_0000u64
}

/// The index into the table at `level` (4 for the level-4 table) that the
/// page at `page` goes through.
pub open spec fn level_index(page: nat, level: u8) -> nat {
    if level == 4 {
        spec_p4(page)
    } else if level == 3 {
        spec_p3(page)
    } else if level == 2 {
        spec_p2(page)
    } else {
        spec_p1(page)
    }
}

/// Where a mapping through the kernel's page table has got to.
#[derive(Debug, Clone, Copy, PartialEq, Eq, Structural)]
pub enum MapState {
    /// The entry of the table at `level`, at address `table`, is being read.
    Reading { level: u8, table: VirtAddr },
    /// A frame is awaited for the table that the entry of the table at
    /// `level`, at address `table`, is to name.
    Allocating { level: u8, table: VirtAddr },
    /// The new table below `level`, at address `table`, is being linked in,
    /// cleared and flushed.
    Linking { level: u8, table: VirtAddr },
    /// The page is mapped.
    Done,
    /// The mapping was given up.
    Failed,
}

/// What the memory of the page tables reports back to a mapping.
#[derive(Debug, Clone, Copy)]
pub enum MapEvent {
    /// The entry that was asked for holds this value.
    Entry(PageTableEntry),
    /// The frame taken for a new table, if any was left.
    Frame(Option<PhysFrame<Size4KiB>>),
    /// The new table is linked in, cleared, and its address flushed.
    Linked,
}

/// What a mapping asks of the memory of the page tables next.
#[derive(Debug, Clone, Copy, PartialEq, Eq, Structural)]
pub enum MapAction {
    /// Read entry `index` of the table at `table`.
    ReadEntry { table: VirtAddr, index: usize },
    /// Take a frame for a new table.
    AllocateFrame,
    /// Store `entry` at `index` of the table at `table`; when `map_new_table`
    /// is set (a new level-3 table), map the new table's frame at
    /// `new_table` with [`table_link_flags`], as a mapping of its own; then
    /// flush `new_table` and clear the table at `new_table`.
    Link { table: VirtAddr, index: usize, entry: PageTableEntry, new_table: VirtAddr, map_new_table: bool },
    /// Store `entry` at `index` of the table at `table` (level 1 for a 4KiB
    /// page, level 2 for a 2MiB page); that maps the page.
    WriteLeaf { table: VirtAddr, index: usize, entry: PageTableEntry },
    /// No frame was left for a table.
    OutOfFrames,
    /// A table lies beyond the end of the address space in the direct map.
    OutOfReach,
    /// The event does not answer what was asked.
    Invalid,
}

/// A mapping of one 4KiB page to a frame through the kernel's page table,
/// walked one table at a time.
#[derive(Debug, Clone, Copy, PartialEq, Eq, Structural)]
pub struct KernelMapper {
    pub page: VirtAddr,
    pub frame: PhysAddr,
    pub flags: PageTableFlags,
    /// The level whose entry maps the page: 1 for a 4KiB page, 2 for a 2MiB
    /// page.
    pub leaf_level: u8,
    pub state: MapState,
}

/// The state levels of a mapping in progress are those of tables that name
/// further tables: 4, 3 and 2.
pub open spec fn mapper_wf(m: KernelMapper) -> bool {
    &&& 1 <= m.leaf_level <= 2
    &&& match m.state {
        MapState::Reading { level, .. } => m.leaf_level < level <= 4,
        MapState::Allocating { level, .. } => m.leaf_level < level <= 4,
        MapState::Linking { level, .. } => m.leaf_level < level <= 4,
        _ => true,
    }
}

/// Going on below `level` into the table at virtual address `table`: read
/// the next entry, or, below level 2, write the leaf.
pub open spec fn spec_descend(m: KernelMapper, level: u8, table: nat) -> (MapState, MapAction) {
    if table > u64::MAX {
        (MapState::Failed, MapAction::OutOfReach)
    } else if level == m.leaf_level + 1 {
        (
            MapState::Done,
            MapAction::WriteLeaf {
                table: VirtAddr(table as u64),
                index: level_index(m.page@, m.leaf_level) as usize,
                entry: entry_with(spec_entry(m.frame@ as u64, m.flags@)),
            },
        )
    } else {
        (
            MapState::Reading { level: (level - 1) as u8, table: VirtAddr(table as u64) },
            MapAction::ReadEntry {
                table: VirtAddr(table as u64),
                index: level_index(m.page@, (level - 1) as u8) as usize,
            },
        )
    }
}

/// One step of a mapping: a present entry is followed into the table it
/// names, through the direct map; a missing one gets a table on a new frame,
/// linked in with [`table_link_flags`], and a new level-3 table is also
/// mapped into the direct map itself; below level 2 the leaf maps the
/// frame with the mapping's flags. Running out of frames, or an event that
/// does not answer what was asked, gives the mapping up.
pub open spec fn spec_map_step(m: KernelMapper, event: MapEvent) -> (MapState, MapAction) {
    match (m.state, event) {
        (MapState::Reading { level, table }, MapEvent::Entry(e)) => if e@ & 1 == 1 {
            spec_descend(m, level, (mappings::PAGE_TABLE_START + (e@ & PHYS_ADDR_MASK)) as nat)
        } else {
            (MapState::Allocating { level, table }, MapAction::AllocateFrame)
        },
        (MapState::Allocating { level, table }, MapEvent::Frame(Some(f))) => if mappings::PAGE_TABLE_START
            + f.spec_start() > u64::MAX {
            (MapState::Failed, MapAction::OutOfReach)
        } else {
            let new_table = VirtAddr((mappings::PAGE_TABLE_START + f.spec_start()) as u64);
            (
                MapState::Linking { level, table: new_table },
                MapAction::Link {
                    table,
                    index: level_index(m.page@, level) as usize,
                    entry: entry_with(spec_entry(f.spec_start() as u64, table_link_flags())),
                    new_table,
                    map_new_table: level == 4,
                },
            )
        },
        (MapState::Allocating { .. }, MapEvent::Frame(None)) => (MapState::Failed, MapAction::OutOfFrames),
        (MapState::Linking { level, table }, MapEvent::Linked) => spec_descend(m, level, table@),
        _ => (MapState::Failed, MapAction::Invalid),
    }
}

/// The index `level_index(page, level)` for a level of a mapping in progress.
fn index_at(page: VirtAddr, level: u8) -> (r: usize)
    requires
        1 <= level <= 4,
    ensures
        r == level_index(page@, level),
{
    if level == 4 {
        page.p4_index()
    } else if level == 3 {
        page.p3_index()
    } else if level == 2 {
        page.p2_index()
    } else {
        page.p1_index()
    }
}

impl KernelMapper {
    /// Goes on below `level` into the table at `table`.
    fn descend(&self, level: u8, table: u64) -> (r: (MapState, MapAction))
        requires
            mapper_wf(*self),
            self.leaf_level < level <= 4,
        ensures
            r == spec_descend(*self, level, table as nat),
    {
        if level == self.leaf_level + 1 {
            let mut entry = PageTableEntry::new();
            entry.set_addr_unchecked(self.frame, self.flags);
            (
                MapState::Done,
                MapAction::WriteLeaf {
                    table: VirtAddr::new(table),
                    index: index_at(self.page, self.leaf_level),
                    entry,
                },
            )
        } else {
            let next = level - 1;
            (
                MapState::Reading { level: next, table: VirtAddr::new(table) },
                MapAction::ReadEntry { table: VirtAddr::new(table), index: index_at(self.page, next) },
            )
        }
    }

    /// Takes one step of the mapping.
    pub fn step(self, event: MapEvent) -> (r: (KernelMapper, MapAction))
        requires
            mapper_wf(self),
        ensures
            r.0 == (KernelMapper { state: spec_map_step(self, event).0, ..self }),
            r.1 == spec_map_step(self, event).1,
            mapper_wf(r.0),
    {
        let (state, action) = match (self.state, event) {
            (MapState::Reading { level, table }, MapEvent::Entry(e)) => {
                if e.is_present() {
                    let addr = e.addr().as_u64();
                    if addr > u64::MAX - mappings::PAGE_TABLE_START {
                        (MapState::Failed, MapAction::OutOfReach)
                    } else {
                        self.descend(level, mappings::PAGE_TABLE_START + addr)
                    }
                } else {
                    (MapState::Allocating { level, table }, MapAction::AllocateFrame)
                }
            },
            (MapState::Allocating { level, table }, MapEvent::Frame(Some(f))) => {
                let start = f.start_address().as_u64();
                if start > u64::MAX - mappings::PAGE_TABLE_START {
                    (MapState::Failed, MapAction::OutOfReach)
                } else {
                    let new_table = VirtAddr::new(mappings::PAGE_TABLE_START + start);
                    let mut entry = PageTableEntry::new();
                    entry.set_frame(f, KernelPageTable::page_table_flags());
                    (
                        MapState::Linking { level, table: new_table },
                        MapAction::Link {
                            table,
                            index: index_at(self.page, level),
                            entry,
                            new_table,
                            map_new_table: level == 4,
                        },
                    )
                }
            },
            (MapState::Allocating { .. }, MapEvent::Frame(None)) => (MapState::Failed, MapAction::OutOfFrames),
            (MapState::Linking { level, table }, MapEvent::Linked) => self.descend(level, table.as_u64()),
            _ => (MapState::Failed, MapAction::Invalid),
        };
        (KernelMapper { state, ..self }, action)
    }
}

/// A page whose tables all exist is mapped without taking any frame: one
/// entry is read at each of levels 4, 3 and 2, each followed through the
/// direct map into the table it names, and the leaf of the level-1 table is
/// written with the frame and flags.
pub proof fn lemma_walk_through_present_tables(m: KernelMapper, t4: VirtAddr, e4: u64, e3: u64, e2: u64)
    requires
        m.state == (MapState::Reading { level: 4, table: t4 }),
        m.leaf_level == 1,
        e4 & 1 == 1,
        e3 & 1 == 1,
        e2 & 1 == 1,
        mappings::PAGE_TABLE_START + (e4 & PHYS_ADDR_MASK) <= u64::MAX,
        mappings::PAGE_TABLE_START + (e3 & PHYS_ADDR_MASK) <= u64::MAX,
        mappings::PAGE_TABLE_START + (e2 & PHYS_ADDR_MASK) <= u64::MAX,
    ensures
        ({
            let t3 = VirtAddr((mappings::PAGE_TABLE_START + (e4 & PHYS_ADDR_MASK)) as u64);
            let t2 = VirtAddr((mappings::PAGE_TABLE_START + (e3 & PHYS_ADDR_MASK)) as u64);
            let t1 = VirtAddr((mappings::PAGE_TABLE_START + (e2 & PHYS_ADDR_MASK)) as u64);
            let m3 = KernelMapper { state: MapState::Reading { level: 3, table: t3 }, ..m };
            let m2 = KernelMapper { state: MapState::Reading { level: 2, table: t2 }, ..m };
            &&& spec_map_step(m, MapEvent::Entry(entry_with(e4))) == (
                m3.state,
                MapAction::ReadEntry { table: t3, index: spec_p3(m.page@) as usize },
            )
            &&& spec_map_step(m3, MapEvent::Entry(entry_with(e3))) == (
                m2.state,
                MapAction::ReadEntry { table: t2, index: spec_p2(m.page@) as usize },
            )
            &&& spec_map_step(m2, MapEvent::Entry(entry_with(e2))) == (
                MapState::Done,
                MapAction::WriteLeaf {
                    table: t1,
                    index: spec_p1(m.page@) as usize,
                    entry: entry_with(spec_entry(m.frame@ as u64, m.flags@)),
                },
            )
        }),
{
}

impl KernelPageTable {
    /// Starts mapping `page` to `frame` with `flags`: the first step reads the
    /// entry of the level-4 table that the page goes through.
    pub fn start_mapping(
        &self,
        page: Page<Size4KiB>,
        frame: PhysFrame<Size4KiB>,
        flags: PageTableFlags,
    ) -> (r: (KernelMapper, MapAction))
        ensures
            r.0 == (KernelMapper {
                page: VirtAddr(page.spec_start() as u64),
                frame: PhysAddr(frame.spec_start() as u64),
                flags,
                leaf_level: 1,
                state: MapState::Reading { level: 4, table: VirtAddr(self.spec_pml4() as u64) },
            }),
            r.1 == (MapAction::ReadEntry {
                table: VirtAddr(self.spec_pml4() as u64),
                index: spec_p4(page.spec_start()) as usize,
            }),
            mapper_wf(r.0),
    {
        let addr = page.start_address();
        let m = KernelMapper {
            page: addr,
            frame: frame.start_address(),
            flags,
            leaf_level: 1,
            state: MapState::Reading { level: 4, table: self.pml4 },
        };
        (m, MapAction::ReadEntry { table: self.pml4, index: addr.p4_index() })
    }

    /// Starts mapping the 2MiB `page` to the 2MiB `frame` with `flags` and
    /// the huge-page flag, in an entry of a level-2 table: the first step reads
    /// the entry of the level-4 table that the page goes through.
    pub fn start_mapping_2mib(
        &self,
        page: Page<Size2MiB>,
        frame: PhysFrame<Size2MiB>,
        flags: PageTableFlags,
    ) -> (r: (KernelMapper, MapAction))
        ensures
            r.0.page@ == page.spec_start(),
            r.0.frame@ == frame.spec_start(),
            r.0.flags@ == flags@ | 0x80,
            r.0.leaf_level == 2,
            r.0.state == (MapState::Reading { level: 4, table: VirtAddr(self.spec_pml4() as u64) }),
            r.1 == (MapAction::ReadEntry {
                table: VirtAddr(self.spec_pml4() as u64),
                index: spec_p4(page.spec_start()) as usize,
            }),
            mapper_wf(r.0),
    {
        let addr = page.start_address();
        let huge = flags.union(PageTableFlags::huge_page());
        proof {
            assert(1u64 << 7u64 == 0x80) by (bit_vector);
        }
        let m = KernelMapper {
            page: addr,
            frame: frame.start_address(),
            flags: huge,
            leaf_level: 2,
            state: MapState::Reading { level: 4, table: self.pml4 },
        };
        (m, MapAction::ReadEntry { table: self.pml4, index: addr.p4_index() })
    }
}

/// Whether a present entry at `level` (4 for the level-4 table) leads to a
/// table of the next level: every entry of the level-4 table does, and an
/// entry of a level-3 or level-2 table does unless it maps a huge page.
pub open spec fn descends(entry: u64, level: nat) -> bool {
    level == 4 || (level > 1 && entry & 0x80 == 0)
}

/// The present entries among the first `n` of `entries`, in order, each with
/// its index and whether it leads to a table of the next level.
pub open spec fn present_from(entries: Seq<PageTableEntry>, level: nat, n: nat) -> Seq<(usize, PageTableEntry, bool)>
    decreases n,
{
    if n == 0 {
        Seq::empty()
    } else {
        let prev = present_from(entries, level, (n - 1) as nat);
        let e = entries[n - 1];
        if e@ & 1 == 1 {
            prev.push(((n - 1) as usize, e, descends(e@, level)))
        } else {
            prev
        }
    }
}

/// The present entries of `table`, a table at `level`, in order, each with its
/// index and whether a walk goes on into the table it names.
pub fn present_entries(table: &PageTable, level: u8) -> (r: Vec<(usize, PageTableEntry, bool)>)
    requires
        table.wf(),
    ensures
        r@ == present_from(table@, level as nat, 512),
{
    let mut out: Vec<(usize, PageTableEntry, bool)> = Vec::new();
    let mut i: usize = 0;
    while i < 512
        invariant
            table.wf(),
            i <= 512,
            out@ == present_from(table@, level as nat, i as nat),
        decreases 512 - i,
    {
        let e = table.index(i);
        if e.is_present() {
            let huge = e.flags().contains(PageTableFlags::huge_page());
            proof {
                let x = e@;
                assert((x & FLAGS_MASK) & (1u64 << 7u64) == (1u64 << 7u64) <==> x & 0x80 != 0) by (bit_vector);
            }
            out.push((i, e, level == 4 || (level > 1 && !huge)));
        }
        i = i + 1;
    }
    out
}

/// The canonical form of a 48-bit address: bit 47 copied into bits 48..64.
pub open spec fn spec_sign_extend(raw: u64) -> u64 {
    if raw & 0x0000_8000_0000_0000 == 0 {
        raw & 0x0000_ffff_ffff_ffff
    } else {
        raw | 0xffff_0000_0000_0000
    }
}

/// The virtual address that the level-1 entry reached through the indices
/// `(i4, i3, i2, i1)` maps, made canonical.
pub fn mapped_address(i4: usize, i3: usize, i2: usize, i1: usize) -> (r: VirtAddr)
    requires
        i4 < 512,
        i3 < 512,
        i2 < 512,
        i1 < 512,
    ensures
        r@ == spec_sign_extend((i4 * 0x80_0000_0000 + i3 * 0x4000_0000 + i2 * 0x20_0000 + i1 * 0x1000) as u64),
        spec_p4(r@) == i4,
        spec_p3(r@) == i3,
        spec_p2(r@) == i2,
        spec_p1(r@) == i1,
{
    let a = i4 as u64;
    let b = i3 as u64;
    let c = i2 as u64;
    let d = i1 as u64;
    let raw = a * 0x80_0000_0000 + b * 0x4000_0000 + c * 0x20_0000 + d * 0x1000;
    let r = if raw & 0x0000_8000_0000_0000 == 0 {
        raw & 0x0000_ffff_ffff_ffff
    } else {
        raw | 0xffff_0000_0000_0000
    };
    proof {
        assert((a < 512 && b < 512 && c < 512 && d < 512 && raw == a * 0x80_0000_0000 + b * 0x4000_0000 + c * 0x20_0000
            + d * 0x1000) ==> ((raw & 0x0000_ffff_ffff_ffff) / 0x80_0000_0000 % 512 == a && (raw
            & 0x0000_ffff_ffff_ffff) / 0x4000_0000 % 512 == b && (raw & 0x0000_ffff_ffff_ffff) / 0x20_0000 % 512 == c
            && (raw & 0x0000_ffff_ffff_ffff) / 0x1000 % 512 == d && (raw | 0xffff_0000_0000_0000) / 0x80_0000_0000 % 512
            == a && (raw | 0xffff_0000_0000_0000) / 0x4000_0000 % 512 == b && (raw | 0xffff_0000_0000_0000) / 0x20_0000
            % 512 == c && (raw | 0xffff_0000_0000_0000) / 0x1000 % 512 == d)) by (bit_vector);
    }
    VirtAddr::new(r)
}

/// Maps pages to frames.
pub trait Mapper {
    fn map(&mut self, page: Page<Size4KiB>, frame: PhysFrame<Size4KiB>, flags: PageTableFlags);

    fn unmap(&mut self, page: Page<Size4KiB>);
}

/// A page whose translation is to be flushed from the TLB.
pub struct Flush {
    addr: VirtAddr,
}

impl Flush {
    /// The address to flush.
    pub closed spec fn spec_addr(&self) -> VirtAddr {
        self.addr
    }

    pub fn new(addr: VirtAddr) -> (r: Self)
        ensures
            r.spec_addr() == addr,
    {
        Self { addr }
    }

    /// The address to flush.
    pub fn addr(&self) -> (r: VirtAddr)
        ensures
            r == self.spec_addr(),
    {
        self.addr
    }
}

} // verus!
