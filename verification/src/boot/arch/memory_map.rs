//! The fixed-size memory map filled from the Limine response.
use crate::arch::PhysAddr;
use crate::boot::limine::{spec_region_type, LimineMemoryEntry};
pub use crate::boot::memory_map::MemoryRegionType;
use vstd::prelude::*;

verus! {

/// A region of physical memory, with a 64-bit length.
#[derive(Debug, Clone, Copy)]
pub struct MemoryMapEntry {
    pub base: PhysAddr,
    pub length: u64,
    pub memory_type: MemoryRegionType,
}

impl MemoryMapEntry {
    /// An empty usable region at address zero.
    pub fn default() -> (r: Self)
        ensures
            r.base@ == 0,
            r.length == 0,
            r.memory_type == MemoryRegionType::Usable,
    {
        Self { base: PhysAddr::null(), length: 0, memory_type: MemoryRegionType::Usable }
    }

    pub fn new(base: PhysAddr, length: u64, memory_type: MemoryRegionType) -> (r: Self)
        ensures
            r.base == base,
            r.length == length,
            r.memory_type == memory_type,
    {
        Self { base, length, memory_type }
    }

    pub fn base(&self) -> (r: PhysAddr)
        ensures
            r == self.base,
    {
        self.base
    }

    pub fn length(&self) -> (r: u64)
        ensures
            r == self.length,
    {
        self.length
    }

    /// One past the last byte of the region.
    pub fn end(&self) -> (r: PhysAddr)
        requires
            self.base@ + self.length <= u64::MAX,
        ensures
            r@ == self.base@ + self.length,
    {
        PhysAddr::new(self.base.as_u64() + self.length)
    }

    pub fn ty(&self) -> (r: MemoryRegionType)
        ensures
            r == self.memory_type,
    {
        self.memory_type
    }

    pub fn set_type(&mut self, ty: MemoryRegionType)
        ensures
            final(self).memory_type == ty,
            final(self).base == old(self).base,
            final(self).length == old(self).length,
    {
        self.memory_type = ty;
    }

    /// The region a Limine entry describes.
    pub fn from_limine(entry: &LimineMemoryEntry) -> (r: Self)
        ensures
            r.base@ == entry.base,
            r.length == entry.length,
            r.memory_type == spec_region_type(entry.ty),
    {
        Self {
            base: PhysAddr::new(entry.base),
            length: entry.length,
            memory_type: MemoryRegionType::from_limine(entry.ty),
        }
    }
}

/// A memory map with room for a fixed number of entries, of which the first
/// `size` are in use.
pub struct MemoryMap {
    entries: Vec<MemoryMapEntry>,
    size: u64,
}

impl MemoryMap {
    /// The slots for entries.
    pub closed spec fn spec_entries(&self) -> Seq<MemoryMapEntry> {
        self.entries@
    }

    /// The number of entries in use.
    pub closed spec fn spec_size(&self) -> nat {
        self.size as nat
    }

    /// An empty map with room for `capacity` entries.
    pub fn with_capacity(capacity: usize) -> (r: Self)
        ensures
            r.spec_entries().len() == capacity,
            r.spec_size() == 0,
    {
        let mut entries: Vec<MemoryMapEntry> = Vec::new();
        let mut i: usize = 0;
        while i < capacity
            invariant
                i <= capacity,
                entries@.len() == i,
            decreases capacity - i,
        {
            entries.push(MemoryMapEntry::default());
            i = i + 1;
        }
        Self { entries, size: 0 }
    }

    /// The number of entries in use.
    pub fn size(&self) -> (r: u64)
        ensures
            r == self.spec_size(),
    {
        self.size
    }

    /// The entry in slot `index`.
    pub fn entry(&self, index: usize) -> (r: MemoryMapEntry)
        requires
            index < self.spec_entries().len(),
        ensures
            r == self.spec_entries()[index as int],
    {
        self.entries[index]
    }

    /// Fills the map from the entries of a Limine memory map response, which
    /// must fit.
    pub fn parse_from_limine(&mut self, memory_map: &[LimineMemoryEntry])
        requires
            memory_map@.len() <= old(self).spec_entries().len(),
        ensures
            final(self).spec_size() == memory_map@.len(),
            final(self).spec_entries().len() == old(self).spec_entries().len(),
            forall|i: int|
                0 <= i < memory_map@.len() ==> (#[trigger] final(self).spec_entries()[i]).base@ == memory_map@[i].base
                    && final(self).spec_entries()[i].length == memory_map@[i].length
                    && final(self).spec_entries()[i].memory_type == spec_region_type(memory_map@[i].ty),
            forall|i: int|
                memory_map@.len() <= i < old(self).spec_entries().len() ==> #[trigger] final(self).spec_entries()[i]
                    == old(self).spec_entries()[i],
    {
        let size = memory_map.len();
        self.size = size as u64;
        let mut i: usize = 0;
        while i < size
            invariant
                i <= size,
                size == memory_map@.len(),
                size <= old(self).spec_entries().len(),
                self.size == size as u64,
                self.entries@.len() == old(self).spec_entries().len(),
                forall|j: int|
                    0 <= j < i ==> (#[trigger] self.entries@[j]).base@ == memory_map@[j].base
                        && self.entries@[j].length == memory_map@[j].length && self.entries@[j].memory_type
                        == spec_region_type(memory_map@[j].ty),
                forall|j: int| i <= j < self.entries@.len() ==> #[trigger] self.entries@[j] == old(self).spec_entries()[j],
            decreases size - i,
        {
            let e = MemoryMapEntry::from_limine(&memory_map[i]);
            self.entries.set(i, e);
            i = i + 1;
        }
    }
}

/// The total length of the usable regions of `s`.
pub open spec fn usable_total(s: Seq<MemoryMapEntry>) -> nat
    decreases s.len(),
{
    if s.len() == 0 {
        0
    } else {
        usable_total(s.drop_last()) + if s.last().memory_type == MemoryRegionType::Usable {
            s.last().length as nat
        } else {
            0
        }
    }
}

proof fn lemma_usable_total_prefix(s: Seq<MemoryMapEntry>, n: int)
    requires
        0 <= n <= s.len(),
    ensures
        usable_total(s.subrange(0, n)) <= usable_total(s),
    decreases s.len() - n,
{
    if n < s.len() {
        lemma_usable_total_prefix(s, n + 1);
        assert(s.subrange(0, n + 1).drop_last() =~= s.subrange(0, n));
    } else {
        assert(s.subrange(0, n) =~= s);
    }
}

/// `s` with every bootloader-reclaimable region turned usable.
pub open spec fn reclaimed(s: Seq<MemoryMapEntry>) -> Seq<MemoryMapEntry> {
    s.map_values(
        |e: MemoryMapEntry|
            if e.memory_type == MemoryRegionType::BootloaderReclaimable {
                MemoryMapEntry { memory_type: MemoryRegionType::Usable, ..e }
            } else {
                e
            },
    )
}

/// The memory map while booting, with 64-bit region lengths.
#[derive(Debug)]
pub struct BootstrapMemoryMap {
    entries: Vec<MemoryMapEntry>,
}

impl View for BootstrapMemoryMap {
    type V = Seq<MemoryMapEntry>;

    closed spec fn view(&self) -> Seq<MemoryMapEntry> {
        self.entries@
    }
}

impl BootstrapMemoryMap {
    /// An empty map.
    pub fn empty() -> (r: Self)
        ensures
            r@ == Seq::<MemoryMapEntry>::empty(),
    {
        Self { entries: Vec::new() }
    }

    /// A map holding `entries`.
    pub fn new(entries: &[MemoryMapEntry]) -> (r: Self)
        ensures
            r@ == entries@,
    {
        let mut v: Vec<MemoryMapEntry> = Vec::new();
        let mut i: usize = 0;
        while i < entries.len()
            invariant
                i <= entries@.len(),
                v@ == entries@.subrange(0, i as int),
            decreases entries@.len() - i,
        {
            v.push(entries[i]);
            i = i + 1;
            proof {
                assert(v@ =~= entries@.subrange(0, i as int));
            }
        }
        proof {
            assert(v@ =~= entries@);
        }
        Self { entries: v }
    }

    /// The total length of the usable regions.
    pub fn total_size(&self) -> (r: u64)
        requires
            usable_total(self@) <= u64::MAX,
        ensures
            r == usable_total(self@),
    {
        let mut total: u64 = 0;
        let mut i: usize = 0;
        while i < self.entries.len()
            invariant
                i <= self@.len(),
                total == usable_total(self@.subrange(0, i as int)),
                usable_total(self@) <= u64::MAX,
            decreases self@.len() - i,
        {
            proof {
                assert(self@.subrange(0, i as int + 1).drop_last() =~= self@.subrange(0, i as int));
                lemma_usable_total_prefix(self@, i as int + 1);
            }
            let e = self.entries[i];
            if e.memory_type == MemoryRegionType::Usable {
                total = total + e.length;
            }
            i = i + 1;
        }
        proof {
            assert(self@.subrange(0, i as int) =~= self@);
        }
        total
    }

    /// Turns every bootloader-reclaimable region into usable memory.
    pub fn reclaim_bootloader_memory(&mut self)
        ensures
            final(self)@ == reclaimed(old(self)@),
    {
        let mut i: usize = 0;
        while i < self.entries.len()
            invariant
                i <= self@.len(),
                self@.len() == old(self)@.len(),
                forall|j: int| 0 <= j < i ==> #[trigger] self@[j] == reclaimed(old(self)@)[j],
                forall|j: int| i <= j < self@.len() ==> #[trigger] self@[j] == old(self)@[j],
            decreases self@.len() - i,
        {
            let e = self.entries[i];
            if e.memory_type == MemoryRegionType::BootloaderReclaimable {
                self.entries.set(i, MemoryMapEntry { memory_type: MemoryRegionType::Usable, ..e });
            }
            i = i + 1;
        }
        proof {
            assert(self@ =~= reclaimed(old(self)@));
        }
    }

    pub fn len(&self) -> (r: usize)
        ensures
            r == self@.len(),
    {
        self.entries.len()
    }

    pub fn is_empty(&self) -> (r: bool)
        ensures
            r == (self@.len() == 0),
    {
        self.entries.len() == 0
    }

    /// The entry at `index`.
    pub fn index(&self, index: usize) -> (r: MemoryMapEntry)
        requires
            index < self@.len(),
        ensures
            r == self@[index as int],
    {
        self.entries[index]
    }

    /// Replaces the entry at `index`.
    pub fn set(&mut self, index: usize, entry: MemoryMapEntry)
        requires
            index < old(self)@.len(),
        ensures
            final(self)@ == old(self)@.update(index as int, entry),
    {
        self.entries.set(index, entry);
    }

    /// Appends `entry`.
    pub fn push(&mut self, entry: MemoryMapEntry)
        ensures
            final(self)@ == old(self)@.push(entry),
    {
        self.entries.push(entry);
    }
}

} // verus!
