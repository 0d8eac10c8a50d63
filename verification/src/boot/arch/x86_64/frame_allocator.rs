//! The frame allocator of the 64-bit boot path: it carves frames off the
//! front of the usable regions of the bootstrap memory map.
use crate::arch::PhysAddr;
use crate::boot::arch::memory_map::{BootstrapMemoryMap, MemoryMapEntry, MemoryRegionType};
use crate::mm::paging::{PhysFrame, Size4KiB};
use vstd::prelude::*;

verus! {

/// Regions at or above this address are out of reach of the early direct map.
pub const MAPPED_LIMIT: u64 = 0x0001_0000_0000;

/// Physical addresses stay below this bound: bits 52 and up are never set.
pub const PHYS_ADDR_LIMIT: u64 = 0x0010_0000_0000_0000;

/// The index of the region that an allocation of `size` bytes carves from,
/// scanning from index `i`: the first usable region holding at least `size`
/// bytes. With `mapped_only`, the scan stops at the first region at or above
/// [`MAPPED_LIMIT`].
pub open spec fn first_fit(s: Seq<MemoryMapEntry>, size: nat, mapped_only: bool, i: int) -> Option<int>
    decreases s.len() - i,
{
    if i < 0 || i >= s.len() {
        None
    } else if mapped_only && s[i].base@ >= MAPPED_LIMIT {
        None
    } else if s[i].memory_type == MemoryRegionType::Usable && s[i].length >= size {
        Some(i)
    } else {
        first_fit(s, size, mapped_only, i + 1)
    }
}

/// Region `e` with its first `size` bytes taken away; a region left empty is
/// marked allocated.
pub open spec fn carve_entry(e: MemoryMapEntry, size: nat) -> MemoryMapEntry {
    MemoryMapEntry {
        base: PhysAddr((e.base@ + size) as u64),
        length: (e.length - size) as u64,
        memory_type: if e.length - size == 0 {
            MemoryRegionType::Allocated
        } else {
            e.memory_type
        },
    }
}

/// The allocation can be carried out: the region it carves from, if any,
/// still ends below the physical address limit once `size` bytes are taken.
pub open spec fn can_carve(s: Seq<MemoryMapEntry>, size: nat, mapped_only: bool) -> bool {
    first_fit(s, size, mapped_only, 0) matches Some(k) ==> s[k].base@ + size < PHYS_ADDR_LIMIT
}

/// `new` is `old` after an allocation of `size` bytes that handed out
/// `frame`: the frame holding the start of the first fitting region, whose
/// first `size` bytes are taken away; with no fitting region nothing changes.
pub open spec fn allocation_step(
    old: Seq<MemoryMapEntry>,
    new: Seq<MemoryMapEntry>,
    size: nat,
    mapped_only: bool,
    frame: Option<nat>,
) -> bool {
    match first_fit(old, size, mapped_only, 0) {
        None => frame is None && new == old,
        Some(k) => {
            &&& frame == Some((old[k].base@ / 4096) * 4096)
            &&& new == old.update(k, carve_entry(old[k], size))
        },
    }
}

/// Hands out frames from the bootstrap memory map.
#[derive(Debug)]
pub struct BasicFrameAllocator {
    memory_map: BootstrapMemoryMap,
}

impl BasicFrameAllocator {
    /// The regions of the memory map.
    pub closed spec fn spec_map(&self) -> Seq<MemoryMapEntry> {
        self.memory_map@
    }

    /// An allocator over `memory_map`.
    pub fn new(memory_map: BootstrapMemoryMap) -> (r: Self)
        ensures
            r.spec_map() == memory_map@,
    {
        Self { memory_map }
    }

    /// Gives the memory map back.
    pub fn into_memory_map(self) -> (r: BootstrapMemoryMap)
        ensures
            r@ == self.spec_map(),
    {
        self.memory_map
    }

    /// Carves `size` bytes off the front of the first fitting region and
    /// returns where they start.
    fn carve(&mut self, size: u64, mapped_only: bool) -> (r: Option<PhysAddr>)
        requires
            can_carve(old(self).spec_map(), size as nat, mapped_only),
        ensures
            match first_fit(old(self).spec_map(), size as nat, mapped_only, 0) {
                None => r is None && final(self).spec_map() == old(self).spec_map(),
                Some(k) => {
                    &&& r == Some(old(self).spec_map()[k].base)
                    &&& final(self).spec_map() == old(self).spec_map().update(
                        k,
                        carve_entry(old(self).spec_map()[k], size as nat),
                    )
                },
            },
    {
        let ghost s = self.memory_map@;
        let mut i: usize = 0;
        while i < self.memory_map.len()
            invariant
                self.memory_map@ == s,
                s == old(self).spec_map(),
                i <= s.len(),
                can_carve(s, size as nat, mapped_only),
                first_fit(s, size as nat, mapped_only, 0) == first_fit(s, size as nat, mapped_only, i as int),
            decreases s.len() - i,
        {
            let region = self.memory_map.index(i);
            if mapped_only && region.base.as_u64() >= MAPPED_LIMIT {
                return None;
            }
            if region.memory_type == MemoryRegionType::Usable && region.length >= size {
                let frame_addr = region.base;
                let length = region.length - size;
                let memory_type = if length == 0 {
                    MemoryRegionType::Allocated
                } else {
                    region.memory_type
                };
                let new_region = MemoryMapEntry {
                    base: PhysAddr::new(frame_addr.as_u64() + size),
                    length,
                    memory_type,
                };
                self.memory_map.set(i, new_region);
                proof {
                    assert(new_region == carve_entry(s[i as int], size as nat));
                }
                return Some(frame_addr);
            }
            i = i + 1;
        }
        None
    }

    /// Allocates one 4KiB frame below 4GiB, where the early direct map reaches.
    pub fn allocate_mapped_frame(&mut self) -> (r: Option<PhysFrame<Size4KiB>>)
        requires
            can_carve(old(self).spec_map(), 4096, true),
        ensures
            allocation_step(
                old(self).spec_map(),
                final(self).spec_map(),
                4096,
                true,
                match r {
                    Some(f) => Some(f.spec_start()),
                    None => None,
                },
            ),
    {
        match self.carve(4096, true) {
            Some(a) => Some(PhysFrame::containing_address(a)),
            None => None,
        }
    }

    /// Allocates `count` contiguous 4KiB frames below 4GiB and returns the
    /// first.
    pub fn allocate_mapped_contiguous(&mut self, count: usize) -> (r: Option<PhysFrame<Size4KiB>>)
        requires
            count * 4096 <= u64::MAX,
            can_carve(old(self).spec_map(), (count * 4096) as nat, true),
        ensures
            allocation_step(
                old(self).spec_map(),
                final(self).spec_map(),
                (count * 4096) as nat,
                true,
                match r {
                    Some(f) => Some(f.spec_start()),
                    None => None,
                },
            ),
    {
        let size = count as u64 * 4096;
        match self.carve(size, true) {
            Some(a) => Some(PhysFrame::containing_address(a)),
            None => None,
        }
    }

    /// Allocates one 4KiB frame anywhere in memory.
    pub fn allocate_frame(&mut self) -> (r: Option<PhysFrame<Size4KiB>>)
        requires
            can_carve(old(self).spec_map(), 4096, false),
        ensures
            allocation_step(
                old(self).spec_map(),
                final(self).spec_map(),
                4096,
                false,
                match r {
                    Some(f) => Some(f.spec_start()),
                    None => None,
                },
            ),
    {
        match self.carve(4096, false) {
            Some(a) => Some(PhysFrame::containing_address(a)),
            None => None,
        }
    }

    /// Whether an allocation of `size` bytes can be carried out.
    pub fn can_carve_check(&self, size: u64, mapped_only: bool) -> (r: bool)
        ensures
            r == can_carve(self.spec_map(), size as nat, mapped_only),
    {
        let ghost s = self.memory_map@;
        let mut i: usize = 0;
        while i < self.memory_map.len()
            invariant
                s == self.spec_map(),
                i <= s.len(),
                first_fit(s, size as nat, mapped_only, 0) == first_fit(s, size as nat, mapped_only, i as int),
            decreases s.len() - i,
        {
            let region = self.memory_map.index(i);
            if mapped_only && region.base.as_u64() >= MAPPED_LIMIT {
                return true;
            }
            if region.memory_type == MemoryRegionType::Usable && region.length >= size {
                return region.base.as_u64() < PHYS_ADDR_LIMIT && size < PHYS_ADDR_LIMIT - region.base.as_u64();
            }
            i = i + 1;
        }
        true
    }
}

} // verus!
